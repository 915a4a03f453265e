//! The requests the launcher makes of Modrinth's API: which endpoint, and with what query.

use vstd::prelude::*;
use crate::app::marketplace::api::param_views;
use crate::utils::text::{decimal, push_decimal, push_str, views};

verus! {

/// A lower-case hexadecimal digit.
pub open spec fn hex_digit(d: u32) -> char {
    if d < 10 {
        ((48 + d) as u8) as char
    } else {
        ((87 + d) as u8) as char
    }
}

/// A character inside a JSON string: `"` and `\` behind a backslash; the control characters
/// below 0x20 in their short form where JSON has one (`\b`, `\t`, `\n`, `\f`, `\r`), else as
/// `\u00` and two lower-case hexadecimal digits; every other character as it is.
pub open spec fn json_char(c: char) -> Seq<char> {
    if c == '"' {
        seq!['\\', '"']
    } else if c == '\\' {
        seq!['\\', '\\']
    } else if c == '\u{8}' {
        seq!['\\', 'b']
    } else if c == '\t' {
        seq!['\\', 't']
    } else if c == '\n' {
        seq!['\\', 'n']
    } else if c == '\u{c}' {
        seq!['\\', 'f']
    } else if c == '\r' {
        seq!['\\', 'r']
    } else if (c as u32) < 32 {
        seq!['\\', 'u', '0', '0', hex_digit((c as u32) / 16), hex_digit((c as u32) % 16)]
    } else {
        seq![c]
    }
}

/// A text as a JSON string: its characters escaped, between double quotes.
pub open spec fn json_quoted(s: Seq<char>) -> Seq<char> {
    seq!['"'] + s.map_values(|c: char| json_char(c)).flatten() + seq!['"']
}

/// Texts one after the other, with a comma between each two.
pub open spec fn comma_joined(items: Seq<Seq<char>>) -> Seq<char>
    decreases items.len(),
{
    if items.len() == 0 {
        Seq::empty()
    } else if items.len() == 1 {
        items[0]
    } else {
        comma_joined(items.drop_last()) + seq![','] + items.last()
    }
}

/// The JSON text of a list of strings, as `serde_json` writes it: the strings in brackets,
/// separated by commas, with no space.
pub open spec fn json_strings(values: Seq<Seq<char>>) -> Seq<char> {
    seq!['['] + comma_joined(values.map_values(|v: Seq<char>| json_quoted(v))) + seq![']']
}

/// The JSON text of a list of lists of strings, as `serde_json` writes it.
pub open spec fn json_string_lists(values: Seq<Seq<Seq<char>>>) -> Seq<char> {
    seq!['['] + comma_joined(values.map_values(|v: Seq<Seq<char>>| json_strings(v))) + seq![']']
}

/// Trusted: `serde_json::to_string` of a list of strings, the text `json_strings` states.
/// Writing strings cannot fail.
#[verifier::external_body]
fn json_list(values: &Vec<String>) -> (r: String)
    ensures
        r@ == json_strings(views(values@)),
{
    serde_json::to_string(values).unwrap_or_default()
}

/// The lists of strings, each as its texts.
pub open spec fn list_views(values: Seq<Vec<String>>) -> Seq<Seq<Seq<char>>> {
    values.map_values(|v: Vec<String>| views(v@))
}

/// Trusted: `serde_json::to_string` of a list of lists of strings, the text
/// `json_string_lists` states. Writing strings cannot fail.
#[verifier::external_body]
fn json_lists(values: &Vec<Vec<String>>) -> (r: String)
    ensures
        r@ == json_string_lists(list_views(values@)),
{
    serde_json::to_string(values).unwrap_or_default()
}

/// Where Modrinth's API is served.
pub open spec fn modrinth_api() -> Seq<char> {
    "https://api.modrinth.com/v2"@
}

/// How many hits a search lists.
pub const LISTED: u32 = 20;

fn owned(s: &str) -> (r: String)
    ensures
        r@ == s@,
{
    let mut r = String::new();
    push_str(&mut r, s);
    r
}

/// The address of an endpoint of Modrinth's API, before its query.
pub fn endpoint(path: &str) -> (r: String)
    ensures
        r@ == modrinth_api() + "/"@ + path@,
{
    let mut r = owned("https://api.modrinth.com/v2");
    push_str(&mut r, "/");
    push_str(&mut r, path);
    r
}

/// The facets a search narrows to: mods for the Minecraft version, on the loader.
pub open spec fn search_facets(minecraft: Seq<char>, loader: Seq<char>) -> Seq<Seq<Seq<char>>> {
    seq![seq!["versions:"@ + minecraft], seq!["categories:"@ + loader], seq!["project_type:mod"@]]
}

/// The query of a search for mods of the Minecraft version on the loader: by relevance to what
/// was typed, or without a query, the most downloaded first; twenty hits.
pub fn search_params(query: Option<&str>, minecraft: &str, loader: &str) -> (r: Vec<(String, String)>)
    ensures
        param_views(r@) == seq![
            ("query"@, match query {
                Some(q) => q@,
                None => Seq::empty(),
            }),
            ("index"@, if query is Some { "relevance"@ } else { "downloads"@ }),
            ("facets"@, json_string_lists(search_facets(minecraft@, loader@))),
            ("limit"@, decimal(20)),
        ],
{
    let mut versions = owned("versions:");
    push_str(&mut versions, minecraft);
    let mut categories = owned("categories:");
    push_str(&mut categories, loader);
    let mut facets: Vec<Vec<String>> = Vec::new();
    let mut a: Vec<String> = Vec::new();
    a.push(versions);
    let mut b: Vec<String> = Vec::new();
    b.push(categories);
    let mut c: Vec<String> = Vec::new();
    c.push(owned("project_type:mod"));
    facets.push(a);
    facets.push(b);
    facets.push(c);
    assert(list_views(facets@) =~= search_facets(minecraft@, loader@)) by {
        assert(views(facets@[0]@) =~= seq!["versions:"@ + minecraft@]);
        assert(views(facets@[1]@) =~= seq!["categories:"@ + loader@]);
        assert(views(facets@[2]@) =~= seq!["project_type:mod"@]);
    }
    let facets_text = json_lists(&facets);
    let mut r: Vec<(String, String)> = Vec::new();
    let (text, index) = match query {
        Some(q) => (owned(q), owned("relevance")),
        None => (String::new(), owned("downloads")),
    };
    r.push((owned("query"), text));
    r.push((owned("index"), index));
    r.push((owned("facets"), facets_text));
    let mut limit = String::new();
    push_decimal(&mut limit, LISTED as u64);
    r.push((owned("limit"), limit));
    assert(param_views(r@) =~= seq![
        ("query"@, match query {
            Some(q) => q@,
            None => Seq::<char>::empty(),
        }),
        ("index"@, if query is Some { "relevance"@ } else { "downloads"@ }),
        ("facets"@, json_string_lists(search_facets(minecraft@, loader@))),
        ("limit"@, decimal(20)),
    ]);
    r
}

/// The path that lists a project's versions.
pub fn project_versions_path(project_id: &str) -> (r: String)
    ensures
        r@ == "project/"@ + project_id@ + "/version"@,
{
    let mut r = owned("project/");
    push_str(&mut r, project_id);
    push_str(&mut r, "/version");
    r
}

/// The path of a project.
pub fn project_path(project_id: &str) -> (r: String)
    ensures
        r@ == "project/"@ + project_id@,
{
    let mut r = owned("project/");
    push_str(&mut r, project_id);
    r
}

/// The query for a project's versions on the loader for the Minecraft version, newest first.
pub fn version_params(minecraft: &str, loader: &str) -> (r: Vec<(String, String)>)
    ensures
        param_views(r@) == seq![
            ("loaders"@, json_strings(seq![loader@])),
            ("game_versions"@, json_strings(seq![minecraft@])),
        ],
{
    let mut loaders: Vec<String> = Vec::new();
    loaders.push(owned(loader));
    let mut games: Vec<String> = Vec::new();
    games.push(owned(minecraft));
    assert(views(loaders@) =~= seq![loader@]);
    assert(views(games@) =~= seq![minecraft@]);
    let mut r: Vec<(String, String)> = Vec::new();
    r.push((owned("loaders"), json_list(&loaders)));
    r.push((owned("game_versions"), json_list(&games)));
    assert(param_views(r@) =~= seq![
        ("loaders"@, json_strings(seq![loader@])),
        ("game_versions"@, json_strings(seq![minecraft@])),
    ]);
    r
}

/// The query for the projects with these ids, at once.
pub fn projects_params(ids: &Vec<String>) -> (r: Vec<(String, String)>)
    ensures
        param_views(r@) == seq![("ids"@, json_strings(views(ids@)))],
{
    let mut r: Vec<(String, String)> = Vec::new();
    r.push((owned("ids"), json_list(ids)));
    assert(param_views(r@) =~= seq![("ids"@, json_strings(views(ids@)))]);
    r
}

/// The hashes that were taken, in order; a file whose hash could not be taken is left out.
pub open spec fn taken_hashes(hashes: Seq<Option<String>>) -> Seq<String>
    decreases hashes.len(),
{
    if hashes.len() == 0 {
        Seq::empty()
    } else {
        let rest = taken_hashes(hashes.drop_last());
        match hashes.last() {
            Some(h) => rest.push(h),
            None => rest,
        }
    }
}

/// The hashes to ask Modrinth about: those that were taken, in order.
pub fn known_hashes(hashes: &Vec<Option<String>>) -> (r: Vec<String>)
    ensures
        r@ == taken_hashes(hashes@),
{
    let mut r: Vec<String> = Vec::new();
    let mut i: usize = 0;
    while i < hashes.len()
        invariant
            i <= hashes@.len(),
            r@ == taken_hashes(hashes@.take(i as int)),
        decreases hashes@.len() - i,
    {
        assert(hashes@.take(i + 1).drop_last() =~= hashes@.take(i as int));
        assert(hashes@.take(i + 1).last() == hashes@[i as int]);
        match &hashes[i] {
            Some(h) => r.push(h.clone()),
            None => {},
        }
        i = i + 1;
    }
    assert(hashes@.take(hashes@.len() as int) =~= hashes@);
    r
}

} // verus!
