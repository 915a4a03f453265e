//! Installed revisions on disk, laid out like the client's: `items/<id>/<revision>`, where only
//! numeric directories count and the highest is the installed one.

use vstd::prelude::*;
use crate::utils::text::{chars_of, decimal, push_decimal, push_str};

verus! {

/// The installed revision of an item and the version its files carry, if they name it.
pub struct Installed {
    pub revision: u32,
    pub version: Option<String>,
}

/// The value of decimal digits.
pub open spec fn digits_value(s: Seq<char>) -> int
    decreases s.len(),
{
    if s.len() == 0 {
        0
    } else {
        digits_value(s.drop_last()) * 10 + (s.last() as int - '0' as int)
    }
}

/// Whether every character is a decimal digit.
pub open spec fn all_digits(s: Seq<char>) -> bool {
    forall|i: int| 0 <= i < s.len() ==> '0' <= #[trigger] s[i] && s[i] <= '9'
}

/// A name as `str::parse::<u32>` reads it: decimal digits, after an optional `+`, of a value
/// that fits.
pub open spec fn parse_u32_spec(name: Seq<char>) -> Option<u32> {
    let digits = if name.len() > 0 && name[0] == '+' {
        name.drop_first()
    } else {
        name
    };
    if digits.len() > 0 && all_digits(digits) && digits_value(digits) <= u32::MAX {
        Some(digits_value(digits) as u32)
    } else {
        None
    }
}

proof fn lemma_digits_value_grows(s: Seq<char>)
    requires
        all_digits(s),
    ensures
        digits_value(s) >= 0,
        s.len() > 0 ==> digits_value(s) >= digits_value(s.drop_last()),
    decreases s.len(),
{
    if s.len() > 0 {
        let front = s.drop_last();
        assert(all_digits(front)) by {
            assert forall|i: int| 0 <= i < front.len() implies '0' <= #[trigger] front[i] && front[i] <= '9' by {
                assert(front[i] == s[i]);
            }
        }
        lemma_digits_value_grows(front);
        assert(s[s.len() - 1] == s.last());
    }
}

/// The revision a directory name stands for, if it is numeric.
pub fn parse_u32(name: &str) -> (r: Option<u32>)
    ensures
        r == parse_u32_spec(name@),
{
    let chars = chars_of(name);
    let start: usize = if chars.len() > 0 && chars[0] == '+' { 1 } else { 0 };
    let ghost digits = if name@.len() > 0 && name@[0] == '+' {
        name@.drop_first()
    } else {
        name@
    };
    assert(digits =~= chars@.skip(start as int));
    if start >= chars.len() {
        return None;
    }
    let mut value: u64 = 0;
    let mut i: usize = start;
    while i < chars.len()
        invariant
            chars@ == name@,
            digits == chars@.skip(start as int),
            digits == (if name@.len() > 0 && name@[0] == '+' {
                name@.drop_first()
            } else {
                name@
            }),
            start < chars.len(),
            start <= i <= chars.len(),
            all_digits(chars@.subrange(start as int, i as int)),
            value == digits_value(chars@.subrange(start as int, i as int)),
            value <= u32::MAX,
        decreases chars.len() - i,
    {
        let c = chars[i];
        let ghost prefix = chars@.subrange(start as int, i + 1);
        assert(prefix.drop_last() =~= chars@.subrange(start as int, i as int));
        if c < '0' || c > '9' {
            assert(!all_digits(digits)) by {
                assert(digits[i - start] == c);
            }
            assert(parse_u32_spec(name@) is None);
            return None;
        }
        let d = (c as u32 - '0' as u32) as u64;
        let next = value * 10 + d;
        assert(all_digits(prefix)) by {
            assert forall|k: int| 0 <= k < prefix.len() implies '0' <= #[trigger] prefix[k] && prefix[k] <= '9' by {
                if k < prefix.len() - 1 {
                    assert(prefix[k] == chars@.subrange(start as int, i as int)[k]);
                }
            }
        }
        assert(next == digits_value(prefix));
        if next > 0xffff_ffff {
            proof {
                let rest = digits;
                let mut n: int = i + 1 - start;
                assert(rest.take(n) =~= prefix);
                lemma_value_of_longer(rest, n);
                assert(digits_value(rest.take(n)) > u32::MAX);
            }
            assert(parse_u32_spec(name@) is None);
            return None;
        }
        value = next;
        i = i + 1;
    }
    assert(chars@.subrange(start as int, chars.len() as int) =~= digits);
    Some(value as u32)
}

/// A number of digits is at least as much as any of its beginnings.
proof fn lemma_value_of_longer(s: Seq<char>, n: int)
    requires
        0 <= n <= s.len(),
        all_digits(s.take(n)),
    ensures
        all_digits(s) ==> digits_value(s) >= digits_value(s.take(n)),
    decreases s.len() - n,
{
    if n < s.len() && all_digits(s) {
        assert(all_digits(s.take(n + 1))) by {
            assert forall|k: int| 0 <= k < s.take(n + 1).len() implies '0' <= #[trigger] s.take(n + 1)[k]
                && s.take(n + 1)[k] <= '9' by {
                assert(s.take(n + 1)[k] == s[k]);
            }
        }
        lemma_value_of_longer(s, n + 1);
        lemma_digits_value_grows(s.take(n + 1));
        assert(s.take(n + 1).drop_last() =~= s.take(n));
    } else if n == s.len() {
        assert(s.take(n) =~= s);
    }
}

/// The highest of the revisions, the installed one; none when there are none.
pub open spec fn highest_spec(revisions: Seq<u32>) -> Option<u32>
    decreases revisions.len(),
{
    if revisions.len() == 0 {
        None
    } else {
        match highest_spec(revisions.drop_last()) {
            None => Some(revisions.last()),
            Some(h) => Some(if h < revisions.last() { revisions.last() } else { h }),
        }
    }
}

/// The revisions among the entries of an item's directory: the directories with numeric names.
pub open spec fn revisions_of(entries: Seq<(String, bool)>) -> Seq<u32>
    decreases entries.len(),
{
    if entries.len() == 0 {
        Seq::empty()
    } else {
        let front = revisions_of(entries.drop_last());
        let (name, is_dir) = entries.last();
        match parse_u32_spec(name@) {
            Some(revision) => if is_dir {
                front.push(revision)
            } else {
                front
            },
            None => front,
        }
    }
}

/// The installed revision from the entries of an item's directory, each a name and whether it
/// is a directory: the highest numeric directory, as the client counts it.
pub fn installed_revision(entries: &Vec<(String, bool)>) -> (r: Option<u32>)
    ensures
        r == highest_spec(revisions_of(entries@)),
{
    let mut highest: Option<u32> = None;
    let mut i: usize = 0;
    let ghost mut seen: Seq<u32> = Seq::empty();
    while i < entries.len()
        invariant
            i <= entries.len(),
            seen == revisions_of(entries@.take(i as int)),
            highest == highest_spec(seen),
        decreases entries.len() - i,
    {
        assert(entries@.take(i + 1).drop_last() =~= entries@.take(i as int));
        let (name, is_dir) = &entries[i];
        match parse_u32(name.as_str()) {
            Some(revision) => {
                if *is_dir {
                    proof {
                        assert(seen.push(revision).drop_last() =~= seen);
                        seen = seen.push(revision);
                    }
                    highest = match highest {
                        None => Some(revision),
                        Some(h) => Some(if h < revision { revision } else { h }),
                    };
                }
            },
            None => {},
        }
        i = i + 1;
    }
    assert(entries@.take(entries@.len() as int) =~= entries@);
    highest
}

/// No revision is above the highest, and the highest is one of them; there is none only when
/// there are no revisions.
pub proof fn law_highest_is_the_largest(revisions: Seq<u32>)
    ensures
        match highest_spec(revisions) {
            None => revisions.len() == 0,
            Some(h) => revisions.contains(h) && forall|i: int| 0 <= i < revisions.len() ==> #[trigger] revisions[i] <= h,
        },
    decreases revisions.len(),
{
    if revisions.len() > 0 {
        let front = revisions.drop_last();
        law_highest_is_the_largest(front);
        assert forall|i: int| 0 <= i < revisions.len() - 1 implies #[trigger] revisions[i] == front[i] by {}
        match highest_spec(front) {
            None => {
                assert(revisions[revisions.len() - 1] == revisions.last());
            },
            Some(h) => {
                let k = choose|k: int| 0 <= k < front.len() && front[k] == h;
                assert(revisions[k] == h);
                assert(revisions[revisions.len() - 1] == revisions.last());
            },
        }
    }
}

/// The directory a revision is extracted into before it takes its place: `.<id>.part`, which the
/// client does not count and cleans up.
pub fn partial_dir_name(revision_id: u32) -> (r: String)
    ensures
        r@ == "."@ + decimal(revision_id as nat) + ".part"@,
{
    let mut r = String::new();
    push_str(&mut r, ".");
    push_decimal(&mut r, revision_id as u64);
    push_str(&mut r, ".part");
    r
}

/// The name an old revision is moved to before it is deleted: `.<revision>.old`.
pub fn retired_dir_name(revision_id: u32) -> (r: String)
    ensures
        r@ == "."@ + decimal(revision_id as nat) + ".old"@,
{
    let mut r = String::new();
    push_str(&mut r, ".");
    push_decimal(&mut r, revision_id as u64);
    push_str(&mut r, ".old");
    r
}

/// Where an installed revision keeps its files.
#[derive(Debug, PartialEq, Eq)]
pub enum Installation {
    /// In the revision directory itself.
    Here,
    /// In this subdirectory of it.
    Below(String),
}

/// The first of `entries` that is a directory holding a file, as listed.
pub open spec fn first_holding(entries: Seq<(String, bool)>) -> Option<int>
    decreases entries.len(),
{
    if entries.len() == 0 {
        None
    } else if entries[0].1 {
        Some(0)
    } else {
        match first_holding(entries.drop_first()) {
            Some(k) => Some(k + 1),
            None => None,
        }
    }
}

/// Where an installed revision keeps its files, as the client finds them: none where the
/// revision is no directory; the directory itself where it holds a file; else the first of its
/// entries (each a name and whether it is a directory that holds a file) that does, if any.
pub fn installation_dir(is_dir: bool, holds_file: bool, entries: &Vec<(String, bool)>) -> (r: Option<Installation>)
    ensures
        !is_dir ==> r is None,
        is_dir && holds_file ==> r == Some(Installation::Here),
        is_dir && !holds_file ==> match first_holding(entries@) {
            Some(k) => r matches Some(Installation::Below(name)) && name == entries@[k].0,
            None => r is None,
        },
{
    if !is_dir {
        return None;
    }
    if holds_file {
        return Some(Installation::Here);
    }
    let mut i: usize = 0;
    assert(entries@.skip(0) =~= entries@);
    while i < entries.len()
        invariant
            is_dir && !holds_file,
            i <= entries@.len(),
            first_holding(entries@) == match first_holding(entries@.skip(i as int)) {
                Some(k) => Some(k + i),
                None => None,
            },
        decreases entries@.len() - i,
    {
        let ghost t = entries@.skip(i as int);
        assert(t[0] == entries@[i as int]);
        if entries[i].1 {
            return Some(Installation::Below(entries[i].0.clone()));
        }
        assert(t.drop_first() =~= entries@.skip(i + 1));
        i = i + 1;
    }
    None
}

/// A name whose extension, as a path has it, is `jar`: it ends in `.jar`, with something before
/// that (a name such as `.jar` is all stem).
pub open spec fn has_jar_extension(name: Seq<char>) -> bool {
    name.len() > 4 && name.skip(name.len() - 4) == ".jar"@
}

/// The names of `names` with the extension `jar`, in the order listed.
pub open spec fn jar_names(names: Seq<String>) -> Seq<String>
    decreases names.len(),
{
    if names.len() == 0 {
        Seq::empty()
    } else {
        let rest = jar_names(names.drop_last());
        if has_jar_extension(names.last()@) {
            rest.push(names.last())
        } else {
            rest
        }
    }
}

/// The entries of an installation directory with the extension `jar`, in the order listed.
pub fn addon_jars(names: &Vec<String>) -> (r: Vec<String>)
    ensures
        r@ == jar_names(names@),
{
    let mut r: Vec<String> = Vec::new();
    let mut i: usize = 0;
    while i < names.len()
        invariant
            i <= names@.len(),
            r@ == jar_names(names@.take(i as int)),
        decreases names@.len() - i,
    {
        assert(names@.take(i + 1).drop_last() =~= names@.take(i as int));
        assert(names@.take(i + 1).last() == names@[i as int]);
        let chars = chars_of(names[i].as_str());
        let n = chars.len();
        let is_jar = n > 4 && chars[n - 4] == '.' && chars[n - 3] == 'j' && chars[n - 2] == 'a' && chars[n - 1] == 'r';
        proof {
            reveal_strlit(".jar");
            if n > 4 {
                let t = chars@.skip(n - 4);
                if is_jar {
                    assert(t =~= ".jar"@);
                } else if t == ".jar"@ {
                    assert(t[0] == '.' && t[1] == 'j' && t[2] == 'a' && t[3] == 'r');
                }
            }
        }
        if is_jar {
            r.push(names[i].clone());
        }
        i = i + 1;
    }
    assert(names@.take(names@.len() as int) =~= names@);
    r
}

/// The renames that retire the installed revisions before a new one takes their place: each
/// revision's directory to `.<revision>.old`, in order. A half-deleted revision would still
/// count as installed, so they are renamed away first and deleted once the new one is in place.
pub open spec fn retirements_spec(revisions: Seq<u32>) -> Seq<(Seq<char>, Seq<char>)> {
    revisions.map_values(|r: u32| (decimal(r as nat), "."@ + decimal(r as nat) + ".old"@))
}

/// The renames of pairs of names, as texts.
pub open spec fn rename_views(renames: Seq<(String, String)>) -> Seq<(Seq<char>, Seq<char>)> {
    renames.map_values(|p: (String, String)| (p.0@, p.1@))
}

/// The renames that retire the installed revisions, in order.
pub fn retirements(revisions: &Vec<u32>) -> (r: Vec<(String, String)>)
    ensures
        rename_views(r@) == retirements_spec(revisions@),
{
    let mut r: Vec<(String, String)> = Vec::new();
    let mut i: usize = 0;
    while i < revisions.len()
        invariant
            i <= revisions@.len(),
            rename_views(r@) == retirements_spec(revisions@.take(i as int)),
        decreases revisions@.len() - i,
    {
        let revision = revisions[i];
        let mut name = String::new();
        push_decimal(&mut name, revision as u64);
        assert(name@ =~= decimal(revision as nat));
        let retired = retired_dir_name(revision);
        let ghost before = r@;
        let ghost pair = (name@, retired@);
        r.push((name, retired));
        assert(rename_views(r@) =~= rename_views(before).push(pair));
        assert(revisions@.take(i + 1) =~= revisions@.take(i as int).push(revision));
        assert(retirements_spec(revisions@.take(i + 1)) =~= retirements_spec(revisions@.take(i as int)).push(pair));
        i = i + 1;
    }
    assert(revisions@.take(revisions@.len() as int) =~= revisions@);
    r
}

/// The renames that put retired revisions back, when the new one cannot take their place: each
/// rename of `retired` the other way round, in order.
pub open spec fn restorations_spec(retired: Seq<(Seq<char>, Seq<char>)>) -> Seq<(Seq<char>, Seq<char>)> {
    retired.map_values(|p: (Seq<char>, Seq<char>)| (p.1, p.0))
}

/// The renames that put retired revisions back.
pub fn restorations(retired: &Vec<(String, String)>) -> (r: Vec<(String, String)>)
    ensures
        rename_views(r@) == restorations_spec(rename_views(retired@)),
{
    let mut r: Vec<(String, String)> = Vec::new();
    let mut i: usize = 0;
    while i < retired.len()
        invariant
            i <= retired@.len(),
            rename_views(r@) == restorations_spec(rename_views(retired@.take(i as int))),
        decreases retired@.len() - i,
    {
        let ghost before = r@;
        let pair = (retired[i].1.clone(), retired[i].0.clone());
        let ghost v = (pair.0@, pair.1@);
        r.push(pair);
        assert(rename_views(r@) =~= rename_views(before).push(v));
        assert(retired@.take(i + 1) =~= retired@.take(i as int).push(retired@[i as int]));
        assert(rename_views(retired@.take(i + 1)) =~= rename_views(retired@.take(i as int)).push(
            (retired@[i as int].0@, retired@[i as int].1@),
        ));
        i = i + 1;
    }
    assert(retired@.take(retired@.len() as int) =~= retired@);
    r
}

/// Putting the retired revisions back moves each to the very name it was retired from, and
/// from the very name it was retired to.
pub proof fn law_restoring_undoes_retiring(revisions: Seq<u32>)
    ensures
        restorations_spec(retirements_spec(revisions)).len() == revisions.len(),
        forall|i: int| 0 <= i < revisions.len() ==> {
            let back = #[trigger] restorations_spec(retirements_spec(revisions))[i];
            &&& back.0 == retirements_spec(revisions)[i].1
            &&& back.1 == retirements_spec(revisions)[i].0
            &&& back.1 == decimal(revisions[i] as nat)
        },
{
}

/// No retired name is a revision's name: a retired revision never counts as installed.
pub proof fn law_retired_revisions_do_not_count(revision: u32)
    ensures
        parse_u32_spec("."@ + decimal(revision as nat) + ".old"@) is None,
{
    let name = "."@ + decimal(revision as nat) + ".old"@;
    reveal_strlit(".");
    assert(name[0] == '.');
    assert(!all_digits(name)) by {
        assert(!('0' <= name[0] && name[0] <= '9'));
    }
}

/// The one jar of an installed add-on revision, among the jars of its installation directory
/// (named `installation`); more or fewer than one is refused.
pub fn single_jar(jars: Vec<String>, installation: &str) -> (r: Result<String, String>)
    ensures
        jars@.len() == 1 ==> r == Ok::<String, String>(jars@[0]),
        jars@.len() != 1 ==> (r matches Err(message) && message@ == "Expected exactly one jar in "@
            + installation@ + ", found "@ + decimal(jars@.len())),
{
    let count = jars.len();
    if count == 1 {
        let mut jars = jars;
        return Ok(jars.remove(0));
    }
    let mut message = String::new();
    push_str(&mut message, "Expected exactly one jar in ");
    push_str(&mut message, installation);
    push_str(&mut message, ", found ");
    push_decimal(&mut message, count as u64);
    Err(message)
}

} // verus!
