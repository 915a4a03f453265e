//! Mods from Modrinth. They load through its Maven repository like the recommended mods, so an
//! installed mod is a project and a version, and updating it changes the version.

use vstd::prelude::*;
use crate::app::client_api::{LoaderMod, ModSource};
use crate::utils::assoc::{assoc_find, assoc_position, lemma_assoc_find};
use crate::utils::maven::{artifact_path_spec, maven_path_spec};
use crate::utils::pattern::{trim, trim_spec};
use crate::utils::order::{
    keyed, law_sorted_by_key_is_ordered, law_sorted_by_key_keeps_the_items,
    law_sorted_by_key_is_stable, law_sorted_by_key_keeps_the_values, lex_le, sort_by_key, with_key,
    sorted_by_key,
};
use crate::utils::text::{
    chars_of, contains_string, lemma_split_join, lemma_split_without_sep, push_str, replace_spec,
    split_chars, split_spec, string_of, views,
};

verus! {

/// A mod installed from Modrinth, as the options keep it.
#[derive(Debug)]
pub struct ModrinthMod {
    pub project_id: String,
    pub slug: String,
    pub title: String,
    pub version: String,
    /// Resolves the jar. Version numbers repeat across loaders and Minecraft versions.
    pub version_id: String,
}

/// The Maven coordinates Modrinth serves a version of a project under.
pub open spec fn modrinth_artifact(project_id: Seq<char>, version_id: Seq<char>) -> Seq<char> {
    "maven.modrinth:"@ + project_id + ":"@ + version_id
}

impl ModrinthMod {
    /// The mod as a launch loads it: by its slug, from Modrinth's Maven repository.
    pub fn loader_mod(&self, enabled: bool) -> (r: LoaderMod)
        ensures
            !r.required,
            r.enabled == enabled,
            r.name@ == self.slug@,
            r.source matches ModSource::Repository { repository, artifact } && repository@
                == "modrinth"@ && artifact@ == modrinth_artifact(self.project_id@, self.version_id@),
    {
        let mut repository = String::new();
        push_str(&mut repository, "modrinth");
        let mut artifact = String::new();
        push_str(&mut artifact, "maven.modrinth:");
        push_str(&mut artifact, self.project_id.as_str());
        push_str(&mut artifact, ":");
        push_str(&mut artifact, self.version_id.as_str());
        LoaderMod {
            required: false,
            enabled,
            name: self.slug.clone(),
            source: ModSource::Repository { repository, artifact },
        }
    }
}

/// A mod installed from Modrinth loads through Modrinth's Maven repository, from the path of
/// its project and version there, as long as neither holds a `:`.
pub proof fn law_modrinth_mods_load_from_its_maven(project_id: Seq<char>, version_id: Seq<char>)
    requires
        !project_id.contains(':'),
        !version_id.contains(':'),
    ensures
        artifact_path_spec(modrinth_artifact(project_id, version_id)) == Some(
            "maven/modrinth/"@ + project_id + "/"@ + version_id + "/"@ + project_id + "-"@ + version_id
                + ".jar"@,
        ),
{
    reveal_strlit("maven.modrinth:");
    reveal_strlit("maven.modrinth");
    reveal_strlit("maven/modrinth");
    reveal_strlit("maven/modrinth/");
    reveal_strlit(":");
    reveal_strlit("/");
    let group = "maven.modrinth"@;
    assert(!group.contains(':')) by {
        if group.contains(':') {
            let k = choose|k: int| 0 <= k < group.len() && group[k] == ':';
            assert(group[k] != ':');
        }
    }
    assert(modrinth_artifact(project_id, version_id) =~= group.push(':') + (project_id.push(':') + version_id));
    lemma_split_join(group, project_id.push(':') + version_id, ':');
    lemma_split_join(project_id, version_id, ':');
    lemma_split_without_sep(group, ':');
    lemma_split_without_sep(project_id, ':');
    lemma_split_without_sep(version_id, ':');
    let parts = split_spec(modrinth_artifact(project_id, version_id), ':');
    assert(parts =~= seq![group, project_id, version_id]);
    assert(replace_spec(group, '.', '/') =~= "maven/modrinth"@);
    assert(maven_path_spec(group, project_id, version_id) =~= "maven/modrinth/"@ + project_id + "/"@
        + version_id + "/"@ + project_id + "-"@ + version_id + ".jar"@);
}

/// A project Modrinth's search found.
pub struct Hit {
    pub project_id: String,
    pub slug: String,
    pub title: String,
    pub description: String,
    pub author: String,
    pub downloads: u64,
}

/// A version of a project.
pub struct Version {
    pub id: String,
    pub project_id: String,
    pub version_number: String,
}

/// A project, as Modrinth names it.
pub struct Project {
    pub id: String,
    pub slug: String,
    pub title: String,
}

/// What the game already holds, to tell the search hits apart.
pub struct Held<'a> {
    /// The mods of the build's launch manifest.
    pub launched: &'a Vec<LoaderMod>,
    /// The recommended mods, turned on or off as the options have them.
    pub recommended: &'a Vec<LoaderMod>,
    /// The projects installed from Modrinth or from files Modrinth knows.
    pub installed: &'a Vec<String>,
}

/// How a search hit stands to the game.
#[derive(Debug, PartialEq, Eq)]
pub enum HitState {
    /// The build launches it.
    Included,
    Installed,
    /// A recommended mod that is turned off. Installing turns it on.
    Recommended { name: String },
    Available,
}

/// A search hit, as the launcher shows it.
pub struct SearchHit {
    pub project_id: String,
    pub title: String,
    pub description: String,
    pub author: String,
    pub downloads: u64,
    pub state: HitState,
}

/// A character with ASCII letters folded to lower case.
pub open spec fn ascii_lower(c: char) -> char {
    if 'A' <= c && c <= 'Z' {
        (((c as u8) + 32) as u8) as char
    } else {
        c
    }
}

/// Whether two texts are the same but for the case of ASCII letters.
pub open spec fn eq_ignore_ascii_case_spec(a: Seq<char>, b: Seq<char>) -> bool {
    a.len() == b.len() && forall|i: int| 0 <= i < a.len() ==> ascii_lower(#[trigger] a[i]) == ascii_lower(b[i])
}

fn lower(c: char) -> (r: char)
    ensures
        r == ascii_lower(c),
{
    if 'A' <= c && c <= 'Z' {
        let code: u8 = c as u8 + 32;
        code as char
    } else {
        c
    }
}

/// Whether two texts are the same but for the case of ASCII letters.
pub fn eq_ignore_ascii_case(a: &str, b: &str) -> (r: bool)
    ensures
        r == eq_ignore_ascii_case_spec(a@, b@),
{
    let x = chars_of(a);
    let y = chars_of(b);
    if x.len() != y.len() {
        return false;
    }
    let mut i: usize = 0;
    while i < x.len()
        invariant
            x@ == a@,
            y@ == b@,
            x.len() == y.len(),
            i <= x.len(),
            forall|j: int| 0 <= j < i ==> ascii_lower(#[trigger] x@[j]) == ascii_lower(y@[j]),
        decreases x.len() - i,
    {
        if lower(x[i]) != lower(y[i]) {
            return false;
        }
        i = i + 1;
    }
    true
}

/// The group and name of a mod from a Maven repository: the first two `:`-separated parts of
/// its artifact, where it has two.
pub open spec fn artifact_spec(loader_mod: LoaderMod) -> Option<(Seq<char>, Seq<char>)> {
    match loader_mod.source {
        ModSource::Repository { artifact, .. } => {
            let parts = split_spec(artifact@, ':');
            if parts.len() >= 2 {
                Some((parts[0], parts[1]))
            } else {
                None
            }
        },
        _ => None,
    }
}

/// The group and name of a Maven artifact.
pub fn artifact(loader_mod: &LoaderMod) -> (r: Option<(String, String)>)
    ensures
        match (r, artifact_spec(*loader_mod)) {
            (Some((group, name)), Some((g, n))) => group@ == g && name@ == n,
            (None, None) => true,
            _ => false,
        },
{
    match &loader_mod.source {
        ModSource::Repository { artifact, .. } => {
            let chars = chars_of(artifact.as_str());
            let parts = split_chars(chars.as_slice(), ':');
            if parts.len() >= 2 {
                Some((string_of(parts[0].as_slice()), string_of(parts[1].as_slice())))
            } else {
                None
            }
        },
        _ => None,
    }
}

/// Whether a Maven name stands for the hit's project: Modrinth's Maven takes a project by id or
/// slug, and other repositories name Fabric Kotlin like its slug does.
pub open spec fn is_hit(name: Seq<char>, hit: Hit) -> bool {
    name == hit.project_id@ || eq_ignore_ascii_case_spec(name, hit.slug@)
}

fn names_hit(name: &String, hit: &Hit) -> (r: bool)
    ensures
        r == is_hit(name@, *hit),
{
    *name == hit.project_id || eq_ignore_ascii_case(name.as_str(), hit.slug.as_str())
}

/// Whether a mod from a Maven repository is the hit, by the name of its artifact.
pub open spec fn loads_hit(loader_mod: LoaderMod, hit: Hit) -> bool {
    artifact_spec(loader_mod) matches Some((_, name)) && is_hit(name, hit)
}

/// Whether the build launches the hit.
pub open spec fn launched_by_build(launched: Seq<LoaderMod>, hit: Hit) -> bool {
    exists|i: int| 0 <= i < launched.len() && #[trigger] loads_hit(launched[i], hit)
}

/// Whether a recommended mod is the hit from Modrinth's Maven.
pub open spec fn recommended_as(recommended: LoaderMod, hit: Hit) -> bool {
    artifact_spec(recommended) matches Some((group, name)) && group == "maven.modrinth"@ && is_hit(
        name,
        hit,
    )
}

/// The first recommended mod that is the hit.
pub open spec fn first_recommended(recommended: Seq<LoaderMod>, hit: Hit) -> Option<int>
    decreases recommended.len(),
{
    if recommended.len() == 0 {
        None
    } else {
        match first_recommended(recommended.drop_last(), hit) {
            Some(k) => Some(k),
            None => if recommended_as(recommended.last(), hit) {
                Some(recommended.len() - 1)
            } else {
                None
            },
        }
    }
}

proof fn lemma_first_recommended(recommended: Seq<LoaderMod>, hit: Hit)
    ensures
        match first_recommended(recommended, hit) {
            Some(k) => 0 <= k < recommended.len() && recommended_as(recommended[k], hit) && forall|j: int|
                0 <= j < k ==> !recommended_as(#[trigger] recommended[j], hit),
            None => forall|j: int| 0 <= j < recommended.len() ==> !recommended_as(#[trigger] recommended[j], hit),
        },
    decreases recommended.len(),
{
    if recommended.len() > 0 {
        lemma_first_recommended(recommended.drop_last(), hit);
        assert forall|j: int| 0 <= j < recommended.len() - 1 implies #[trigger] recommended[j]
            == recommended.drop_last()[j] by {}
    }
}

/// How a hit stands to the game: launched by the build, installed, or recommended (installed
/// when required or turned on), or available.
pub open spec fn state_spec(hit: Hit, launched: Seq<LoaderMod>, recommended: Seq<LoaderMod>, installed: Seq<String>) -> HitState {
    if launched_by_build(launched, hit) {
        HitState::Included
    } else if views(installed).contains(hit.project_id@) {
        HitState::Installed
    } else {
        match first_recommended(recommended, hit) {
            Some(k) => if recommended[k].required || recommended[k].enabled {
                HitState::Installed
            } else {
                HitState::Recommended { name: recommended[k].name }
            },
            None => HitState::Available,
        }
    }
}

/// Whether the build launches the hit.
fn is_launched(launched: &Vec<LoaderMod>, hit: &Hit) -> (r: bool)
    ensures
        r == launched_by_build(launched@, *hit),
{
    let mut i: usize = 0;
    while i < launched.len()
        invariant
            i <= launched.len(),
            forall|j: int| 0 <= j < i ==> !#[trigger] loads_hit(launched@[j], *hit),
        decreases launched.len() - i,
    {
        match artifact(&launched[i]) {
            Some((_, name)) => {
                if names_hit(&name, hit) {
                    assert(loads_hit(launched@[i as int], *hit));
                    return true;
                }
            },
            None => {},
        }
        i = i + 1;
    }
    false
}

/// How a search hit stands to what the game holds.
pub fn state(hit: &Hit, held: &Held) -> (r: HitState)
    ensures
        r == state_spec(*hit, held.launched@, held.recommended@, held.installed@),
{
    if is_launched(held.launched, hit) {
        return HitState::Included;
    }
    if contains_string(held.installed, &hit.project_id) {
        return HitState::Installed;
    }
    proof {
        lemma_first_recommended(held.recommended@, *hit);
    }
    let mut i: usize = 0;
    while i < held.recommended.len()
        invariant
            i <= held.recommended.len(),
            !launched_by_build(held.launched@, *hit),
            !views(held.installed@).contains(hit.project_id@),
            forall|j: int| 0 <= j < i ==> !recommended_as(#[trigger] held.recommended@[j], *hit),
            match first_recommended(held.recommended@, *hit) {
                Some(k) => 0 <= k < held.recommended@.len() && recommended_as(held.recommended@[k], *hit)
                    && forall|j: int| 0 <= j < k ==> !recommended_as(#[trigger] held.recommended@[j], *hit),
                None => forall|j: int| 0 <= j < held.recommended@.len() ==> !recommended_as(#[trigger] held.recommended@[j], *hit),
            },
        decreases held.recommended.len() - i,
    {
        let recommended = &held.recommended[i];
        let matches_hit = match artifact(recommended) {
            Some((group, name)) => crate::utils::text::str_eq(group.as_str(), "maven.modrinth") && names_hit(&name, hit),
            None => false,
        };
        if matches_hit {
            assert(recommended_as(held.recommended@[i as int], *hit));
            assert(first_recommended(held.recommended@, *hit) == Some(i as int));
            if recommended.required || recommended.enabled {
                return HitState::Installed;
            }
            return HitState::Recommended { name: recommended.name.clone() };
        }
        i = i + 1;
    }
    HitState::Available
}

/// The search hits, each with how it stands to what the game holds.
pub fn tell(hits: Vec<Hit>, held: &Held) -> (r: Vec<SearchHit>)
    ensures
        r@.len() == hits@.len(),
        forall|i: int| 0 <= i < r@.len() ==> {
            let hit = #[trigger] hits@[i];
            let told = r@[i];
            &&& told.state == state_spec(hit, held.launched@, held.recommended@, held.installed@)
            &&& told.project_id == hit.project_id
            &&& told.title == hit.title
            &&& told.description == hit.description
            &&& told.author == hit.author
            &&& told.downloads == hit.downloads
        },
{
    let ghost all = hits@;
    let mut rest = hits;
    let mut told: Vec<SearchHit> = Vec::new();
    let ghost mut k: int = 0;
    while rest.len() > 0
        invariant
            0 <= k <= all.len(),
            rest@ == all.skip(k),
            told@.len() == k,
            forall|i: int| 0 <= i < k ==> {
                let hit = #[trigger] all[i];
                let t = told@[i];
                &&& t.state == state_spec(hit, held.launched@, held.recommended@, held.installed@)
                &&& t.project_id == hit.project_id
                &&& t.title == hit.title
                &&& t.description == hit.description
                &&& t.author == hit.author
                &&& t.downloads == hit.downloads
            },
        decreases rest.len(),
    {
        let hit = rest.remove(0);
        assert(hit == all[k]);
        let state = state(&hit, held);
        let Hit { project_id, slug: _, title, description, author, downloads } = hit;
        told.push(SearchHit { project_id, title, description, author, downloads, state });
        proof {
            k = k + 1;
        }
        assert(rest@ =~= all.skip(k));
    }
    told
}

/// The newer version Modrinth has, if its newest is not the installed one.
pub fn newer(version_id: &str, newest: Option<Version>) -> (r: Option<String>)
    ensures
        match newest {
            Some(n) => if n.id@ == version_id@ {
                r is None
            } else {
                r == Some(n.version_number)
            },
            None => r is None,
        },
{
    match newest {
        Some(n) => if crate::utils::text::str_eq(n.id.as_str(), version_id) {
            None
        } else {
            Some(n.version_number)
        },
        None => None,
    }
}

/// A mod added to the game, from a file or from Modrinth. Launching takes it as a `LoaderMod`.
pub struct CustomMod {
    pub loader_mod: LoaderMod,
    pub title: String,
    /// For a mod from Modrinth, and a file Modrinth knows.
    pub modrinth: Option<TrackedMod>,
}

/// A mod Modrinth knows: its project, its version and what is newer.
pub struct TrackedMod {
    pub project_id: String,
    pub version: String,
    /// The newer version Modrinth has, once it was asked.
    pub update: Option<String>,
}

impl Version {
    /// A copy of the version.
    pub fn duplicate(&self) -> (r: Version)
        ensures
            r == *self,
    {
        Version { id: self.id.clone(), project_id: self.project_id.clone(), version_number: self.version_number.clone() }
    }
}

/// The version Modrinth answered for a file's hash: the first one `known` lists under it.
pub open spec fn version_of(hash: Option<String>, known: Seq<(String, Version)>) -> Option<Version> {
    match hash {
        Some(h) => match assoc_find(known, h@) {
            Some(k) => Some(known[k].1),
            None => None,
        },
        None => None,
    }
}

/// The version Modrinth knows of each file, by the file's hash (none where its hash could not be
/// taken); `known` is Modrinth's answer, versions by hash.
pub fn versions_by_hash(hashes: &Vec<Option<String>>, known: &Vec<(String, Version)>) -> (r: Vec<Option<Version>>)
    ensures
        r@.len() == hashes@.len(),
        forall|i: int| 0 <= i < hashes@.len() ==> #[trigger] r@[i] == version_of(hashes@[i], known@),
{
    let mut r: Vec<Option<Version>> = Vec::new();
    let mut i: usize = 0;
    while i < hashes.len()
        invariant
            i <= hashes@.len(),
            r@.len() == i,
            forall|k: int| 0 <= k < i ==> #[trigger] r@[k] == version_of(hashes@[k], known@),
        decreases hashes@.len() - i,
    {
        let v = match &hashes[i] {
            Some(h) => {
                proof {
                    lemma_assoc_find(known@, h@);
                }
                match assoc_position(known, h) {
                    Some(k) => Some(known[k].1.duplicate()),
                    None => None,
                }
            },
            None => None,
        };
        r.push(v);
        i = i + 1;
    }
    r
}

/// The projects of the versions found, in their order, to ask Modrinth for.
pub open spec fn project_ids_spec(versions: Seq<Option<Version>>) -> Seq<Seq<char>>
    decreases versions.len(),
{
    if versions.len() == 0 {
        Seq::empty()
    } else {
        let rest = project_ids_spec(versions.drop_last());
        match versions.last() {
            Some(v) => rest.push(v.project_id@),
            None => rest,
        }
    }
}

/// The projects of the versions found, in their order, to ask Modrinth for.
pub fn project_ids(versions: &Vec<Option<Version>>) -> (r: Vec<String>)
    ensures
        views(r@) == project_ids_spec(versions@),
{
    let mut r: Vec<String> = Vec::new();
    let mut i: usize = 0;
    while i < versions.len()
        invariant
            i <= versions@.len(),
            views(r@) == project_ids_spec(versions@.take(i as int)),
        decreases versions@.len() - i,
    {
        assert(versions@.take(i + 1).drop_last() =~= versions@.take(i as int));
        assert(versions@.take(i + 1).last() == versions@[i as int]);
        match &versions[i] {
            Some(v) => {
                let ghost before = r@;
                r.push(v.project_id.clone());
                assert(views(r@) =~= views(before).push(v.project_id@));
            },
            None => {},
        }
        i = i + 1;
    }
    assert(versions@.take(versions@.len() as int) =~= versions@);
    r
}

/// The position of the project with `id` among `projects`: the last one, as a map built from
/// them keeps the last.
pub open spec fn last_project(projects: Seq<Project>, id: Seq<char>) -> Option<int>
    decreases projects.len(),
{
    if projects.len() == 0 {
        None
    } else if projects.last().id@ == id {
        Some(projects.len() - 1)
    } else {
        last_project(projects.drop_last(), id)
    }
}

proof fn lemma_last_project(projects: Seq<Project>, id: Seq<char>)
    ensures
        match last_project(projects, id) {
            Some(k) => 0 <= k < projects.len() && projects[k].id@ == id,
            None => true,
        },
    decreases projects.len(),
{
    if projects.len() > 0 && projects.last().id@ != id {
        lemma_last_project(projects.drop_last(), id);
    }
}

fn find_last_project(projects: &Vec<Project>, id: &String) -> (r: Option<usize>)
    ensures
        match r {
            Some(k) => last_project(projects@, id@) == Some(k as int),
            None => last_project(projects@, id@) is None,
        },
{
    let mut i: usize = projects.len();
    assert(projects@.take(i as int) =~= projects@);
    while i > 0
        invariant
            i <= projects@.len(),
            last_project(projects@, id@) == last_project(projects@.take(i as int), id@),
        decreases i,
    {
        let ghost t = projects@.take(i as int);
        assert(t.drop_last() =~= projects@.take(i - 1));
        assert(t.last() == projects@[i - 1]);
        if crate::utils::text::str_eq(projects[i - 1].id.as_str(), id.as_str()) {
            return Some(i - 1);
        }
        i = i - 1;
    }
    None
}

/// What Modrinth tells of a file with `version`: the title of its project, where Modrinth
/// listed that project, and the version, with the newer one `newest` names.
pub open spec fn identified_spec(version: Option<Version>, projects: Seq<Project>, newest: Option<Version>) -> Option<(Seq<char>, Seq<char>, Seq<char>, Option<Seq<char>>)> {
    match version {
        Some(v) => match last_project(projects, v.project_id@) {
            Some(k) => Some((
                projects[k].title@,
                projects[k].id@,
                v.version_number@,
                match newest {
                    Some(n) => if n.id@ == v.id@ { None } else { Some(n.version_number@) },
                    None => None,
                },
            )),
            None => None,
        },
        None => None,
    }
}

/// What a file was identified as, in plain text.
pub open spec fn identified_view(found: Option<(String, TrackedMod)>) -> Option<(Seq<char>, Seq<char>, Seq<char>, Option<Seq<char>>)> {
    match found {
        Some((title, t)) => Some((title@, t.project_id@, t.version@, match t.update {
            Some(u) => Some(u@),
            None => None,
        })),
        None => None,
    }
}

/// What Modrinth tells of each file: where its version was found and Modrinth listed the
/// version's project (`projects`), that project's title, and the version, with the newer one
/// there is by `newest` (the newest version for the file, where it was asked for and came).
pub fn identified(
    versions: Vec<Option<Version>>,
    projects: &Vec<Project>,
    newest: Vec<Option<Version>>,
) -> (r: Vec<Option<(String, TrackedMod)>>)
    requires
        newest@.len() == versions@.len(),
    ensures
        r@.len() == versions@.len(),
        forall|i: int| 0 <= i < versions@.len() ==> #[trigger] identified_view(r@[i]) == identified_spec(
            versions@[i],
            projects@,
            newest@[i],
        ),
{
    let ghost all_versions = versions@;
    let ghost all_newest = newest@;
    let mut versions = versions;
    let mut newest = newest;
    let mut r: Vec<Option<(String, TrackedMod)>> = Vec::new();
    while versions.len() > 0
        invariant
            versions@.len() == newest@.len(),
            r@.len() + versions@.len() == all_versions.len(),
            all_newest.len() == all_versions.len(),
            versions@ == all_versions.skip(r@.len() as int),
            newest@ == all_newest.skip(r@.len() as int),
            forall|k: int| 0 <= k < r@.len() ==> #[trigger] identified_view(r@[k]) == identified_spec(
                all_versions[k],
                projects@,
                all_newest[k],
            ),
        decreases versions@.len(),
    {
        let ghost n = r@.len() as int;
        let ghost old_v = versions@;
        let ghost old_n = newest@;
        let version = versions.remove(0);
        let candidate = newest.remove(0);
        assert(versions@ =~= all_versions.skip(n + 1));
        assert(newest@ =~= all_newest.skip(n + 1));
        assert(old_v[0] == all_versions[n]);
        assert(old_n[0] == all_newest[n]);
        let entry = match version {
            Some(v) => {
                let found = find_last_project(projects, &v.project_id);
                proof {
                    lemma_last_project(projects@, v.project_id@);
                }
                match found {
                    Some(k) => {
                        let update = newer(v.id.as_str(), candidate);
                        Some((
                            projects[k].title.clone(),
                            TrackedMod { project_id: projects[k].id.clone(), version: v.version_number, update },
                        ))
                    },
                    None => None,
                }
            },
            None => None,
        };
        r.push(entry);
    }
    r
}

/// A mod from Modrinth with the newer version there is, where `update` names one.
pub open spec fn with_update(modrinth: Option<TrackedMod>, update: Option<String>) -> Option<TrackedMod> {
    match modrinth {
        Some(t) => Some(TrackedMod { project_id: t.project_id, version: t.version, update }),
        None => None,
    }
}

/// What checking with Modrinth makes of row `i` of `custom_mods`, whose first `installed` rows
/// are the mods installed from Modrinth and the rest the files.
pub open spec fn checked_row(
    row: CustomMod,
    i: int,
    installed: int,
    updates: Seq<Option<String>>,
    known: Option<Seq<Option<(String, TrackedMod)>>>,
) -> CustomMod {
    let updated = if i < updates.len() {
        CustomMod { loader_mod: row.loader_mod, title: row.title, modrinth: with_update(row.modrinth, updates[i]) }
    } else {
        row
    };
    match known {
        Some(k) => if installed <= i && i - installed < k.len() {
            match k[i - installed] {
                Some((title, found)) => CustomMod {
                    loader_mod: updated.loader_mod,
                    title,
                    modrinth: Some(found),
                },
                None => updated,
            }
        } else {
            updated
        },
        None => updated,
    }
}

/// What the look-up of the files found, as a sequence.
pub open spec fn found_view(known: Option<Vec<Option<(String, TrackedMod)>>>) -> Option<Seq<Option<(String, TrackedMod)>>> {
    match known {
        Some(k) => Some(k@),
        None => None,
    }
}

/// What checking with Modrinth adds to the rows of `custom_mods`, whose first `installed` rows
/// are the mods installed from Modrinth: to each row from Modrinth, in order, the newer version
/// `updates` names; then to each file, in order, the title and version of the project `known`
/// finds it in. Where looking the files up failed (`known` is `None`) they stay as they are.
pub fn apply_checks(
    mods: &mut Vec<CustomMod>,
    installed: usize,
    updates: Vec<Option<String>>,
    known: Option<Vec<Option<(String, TrackedMod)>>>,
)
    requires
        installed <= old(mods)@.len(),
    ensures
        final(mods)@.len() == old(mods)@.len(),
        forall|i: int| 0 <= i < old(mods)@.len() ==> #[trigger] final(mods)@[i] == checked_row(
            old(mods)@[i],
            i,
            installed as int,
            updates@,
            found_view(known),
        ),
{
    let ghost initial = mods@;
    let ghost all_updates = updates@;
    let ghost known_view = found_view(known);
    let mut updates = updates;
    let mut known = known;
    let mut i: usize = 0;
    while i < mods.len()
        invariant
            i <= mods@.len(),
            mods@.len() == initial.len(),
            installed <= initial.len(),
            updates@ == all_updates.skip(if i < all_updates.len() { i as int } else { all_updates.len() as int }),
            match known_view {
                Some(kv) => known matches Some(k) && k@ == kv.skip(
                    if i <= installed { 0 } else if i - installed < kv.len() { i - installed } else { kv.len() as int },
                ),
                None => known is None,
            },
            forall|k: int| 0 <= k < i ==> #[trigger] mods@[k] == checked_row(
                initial[k],
                k,
                installed as int,
                all_updates,
                known_view,
            ),
            forall|k: int| i <= k < initial.len() ==> #[trigger] mods@[k] == initial[k],
        decreases initial.len() - i,
    {
        if updates.len() > 0 {
            let ghost old_updates = updates@;
            let u = updates.remove(0);
            assert(updates@ =~= old_updates.drop_first());
            assert(all_updates.skip(i as int)[0] == all_updates[i as int]);
            let m = mods[i].modrinth.take();
            mods[i].modrinth = match m {
                Some(t) => Some(TrackedMod { project_id: t.project_id, version: t.version, update: u }),
                None => None,
            };
            assert(all_updates.skip(i as int).drop_first() =~= all_updates.skip(i + 1));
        }
        if i >= installed {
            match &mut known {
                Some(k) => {
                    if k.len() > 0 {
                        let ghost old_k = k@;
                        let entry = k.remove(0);
                        assert(k@ =~= old_k.drop_first());
                        match entry {
                            Some((title, found)) => {
                                mods[i].title = title;
                                mods[i].modrinth = Some(found);
                            },
                            None => {},
                        }
                    }
                },
                None => {},
            }
        }
        proof {
            match known_view {
                Some(kv) => {
                    if i >= installed && i - installed < kv.len() {
                        assert(kv.skip(i - installed)[0] == kv[i - installed]);
                        assert(kv.skip(i - installed).drop_first() =~= kv.skip(i - installed + 1));
                    }
                },
                None => {},
            }
        }
        i = i + 1;
    }
}

/// Whether a mod is turned on: as `states` has it by name, else on.
pub open spec fn enabled_spec(states: Seq<(String, bool)>, name: Seq<char>) -> bool {
    match assoc_find(states, name) {
        Some(k) => states[k].1,
        None => true,
    }
}

fn enabled(states: &Vec<(String, bool)>, name: &String) -> (r: bool)
    ensures
        r == enabled_spec(states@, name@),
{
    proof {
        lemma_assoc_find(states@, name@);
    }
    match assoc_position(states, name) {
        Some(k) => states[k].1,
        None => true,
    }
}

/// The recommended mods with the choices the user made on the branch: a mod named in `states`
/// is turned on or off as it says; the others keep their default.
pub fn with_mod_states(recommended: &mut Vec<LoaderMod>, states: &Vec<(String, bool)>)
    ensures
        final(recommended)@.len() == old(recommended)@.len(),
        forall|i: int| 0 <= i < old(recommended)@.len() ==> {
            let before = #[trigger] old(recommended)@[i];
            let after = final(recommended)@[i];
            &&& after.name == before.name
            &&& after.required == before.required
            &&& after.source == before.source
            &&& after.enabled == match assoc_find(states@, before.name@) {
                Some(k) => states@[k].1,
                None => before.enabled,
            }
        },
{
    let ghost initial = recommended@;
    let mut i: usize = 0;
    while i < recommended.len()
        invariant
            i <= recommended@.len(),
            recommended@.len() == initial.len(),
            forall|k: int| 0 <= k < initial.len() ==> {
                let before = #[trigger] initial[k];
                let after = recommended@[k];
                &&& after.name == before.name
                &&& after.required == before.required
                &&& after.source == before.source
                &&& after.enabled == if k < i {
                    match assoc_find(states@, before.name@) {
                        Some(j) => states@[j].1,
                        None => before.enabled,
                    }
                } else {
                    before.enabled
                }
            },
        decreases recommended@.len() - i,
    {
        proof {
            lemma_assoc_find(states@, recommended@[i as int].name@);
        }
        match assoc_position(states, &recommended[i].name) {
            Some(k) => {
                let on = states[k].1;
                recommended[i].enabled = on;
            },
            None => {},
        }
        i = i + 1;
    }
}

/// What the user typed to search for: trimmed, and nothing where nothing but white space is left.
pub fn search_query(query: Option<String>) -> (r: Option<String>)
    ensures
        match query {
            None => r is None,
            Some(q) => if trim_spec(q@).len() == 0 {
                r is None
            } else {
                r matches Some(t) && t@ == trim_spec(q@)
            },
        },
{
    match query {
        None => None,
        Some(q) => {
            let chars = chars_of(q.as_str());
            let trimmed = trim(&chars);
            if trimmed.len() == 0 {
                None
            } else {
                Some(string_of(trimmed.as_slice()))
            }
        },
    }
}

/// A jar's name without its `.jar` ending (every one of them, as `trim_end_matches` does).
pub open spec fn without_jar(file_name: Seq<char>) -> Seq<char>
    decreases file_name.len(),
{
    if file_name.len() >= 4 && file_name.skip(file_name.len() - 4) == ".jar"@ {
        without_jar(file_name.take(file_name.len() - 4))
    } else {
        file_name
    }
}

#[verifier::spinoff_prover]
fn trim_jar(file_name: &String) -> (r: String)
    ensures
        r@ == without_jar(file_name@),
{
    let chars = chars_of(file_name.as_str());
    let mut end: usize = chars.len();
    assert(chars@.take(chars@.len() as int) =~= chars@);
    while end >= 4 && chars[end - 4] == '.' && chars[end - 3] == 'j' && chars[end - 2] == 'a' && chars[end - 1] == 'r'
        invariant
            chars@ == file_name@,
            end <= chars.len(),
            without_jar(file_name@) == without_jar(chars@.take(end as int)),
        decreases end,
    {
        let ghost t = chars@.take(end as int);
        proof {
            reveal_strlit(".jar");
        }
        assert(t.skip(t.len() - 4) =~= ".jar"@);
        assert(t.take(t.len() - 4) =~= chars@.take(end - 4));
        end = end - 4;
    }
    let ghost t = chars@.take(end as int);
    proof {
        reveal_strlit(".jar");
        if t.len() >= 4 && t.skip(t.len() - 4) == ".jar"@ {
            assert(t.skip(t.len() - 4)[0] == '.');
            assert(t.skip(t.len() - 4)[1] == 'j');
            assert(t.skip(t.len() - 4)[2] == 'a');
            assert(t.skip(t.len() - 4)[3] == 'r');
        }
    }
    assert(chars@.take(chars@.len() as int) =~= chars@);
    let mut kept: Vec<char> = Vec::new();
    let mut i: usize = 0;
    while i < end
        invariant
            chars@ == file_name@,
            end <= chars.len(),
            i <= end,
            kept@ == chars@.take(i as int),
        decreases end - i,
    {
        kept.push(chars[i]);
        i = i + 1;
        assert(kept@ =~= chars@.take(i as int));
    }
    string_of(kept.as_slice())
}

/// The mods installed from Modrinth, then the jars of the mods directory (`files`, in the order
/// listed), each turned on or off as `states` has it by name.
#[verifier::spinoff_prover]
pub fn custom_mods(
    installed: &Vec<ModrinthMod>,
    files: &Vec<String>,
    states: &Vec<(String, bool)>,
) -> (r: Vec<CustomMod>)
    ensures
        r@.len() == installed@.len() + files@.len(),
        forall|i: int| 0 <= i < installed@.len() ==> {
            let m = #[trigger] installed@[i];
            let row = r@[i];
            &&& row.title == m.title
            &&& row.loader_mod.name@ == m.slug@
            &&& row.loader_mod.enabled == enabled_spec(states@, m.slug@)
            &&& !row.loader_mod.required
            &&& row.loader_mod.source matches ModSource::Repository { artifact, .. } && artifact@
                == modrinth_artifact(m.project_id@, m.version_id@)
            &&& row.modrinth matches Some(t) && t.project_id == m.project_id && t.version
                == m.version && t.update is None
        },
        forall|i: int| 0 <= i < files@.len() ==> {
            let file = #[trigger] files@[i];
            let row = r@[installed@.len() + i];
            let name = without_jar(file@);
            &&& row.title@ == name
            &&& row.loader_mod.name@ == name
            &&& row.loader_mod.enabled == enabled_spec(states@, name)
            &&& !row.loader_mod.required
            &&& row.loader_mod.source matches ModSource::Local { file_name } && file_name == file
            &&& row.modrinth is None
        },
{
    let mut mods: Vec<CustomMod> = Vec::new();
    let mut i: usize = 0;
    while i < installed.len()
        invariant
            i <= installed.len(),
            mods@.len() == i,
            forall|k: int| 0 <= k < i ==> {
                let m = #[trigger] installed@[k];
                let row = mods@[k];
                &&& row.title == m.title
                &&& row.loader_mod.name@ == m.slug@
                &&& row.loader_mod.enabled == enabled_spec(states@, m.slug@)
                &&& !row.loader_mod.required
                &&& row.loader_mod.source matches ModSource::Repository { artifact, .. } && artifact@
                    == modrinth_artifact(m.project_id@, m.version_id@)
                &&& row.modrinth matches Some(t) && t.project_id == m.project_id && t.version
                    == m.version && t.update is None
            },
        decreases installed.len() - i,
    {
        let m = &installed[i];
        let on = enabled(states, &m.slug);
        mods.push(CustomMod {
            loader_mod: m.loader_mod(on),
            title: m.title.clone(),
            modrinth: Some(TrackedMod { project_id: m.project_id.clone(), version: m.version.clone(), update: None }),
        });
        i = i + 1;
    }
    let mut j: usize = 0;
    while j < files.len()
        invariant
            j <= files.len(),
            mods@.len() == installed@.len() + j,
            forall|k: int| 0 <= k < installed@.len() ==> {
                let m = #[trigger] installed@[k];
                let row = mods@[k];
                &&& row.title == m.title
                &&& row.loader_mod.name@ == m.slug@
                &&& row.loader_mod.enabled == enabled_spec(states@, m.slug@)
                &&& !row.loader_mod.required
                &&& row.loader_mod.source matches ModSource::Repository { artifact, .. } && artifact@
                    == modrinth_artifact(m.project_id@, m.version_id@)
                &&& row.modrinth matches Some(t) && t.project_id == m.project_id && t.version
                    == m.version && t.update is None
            },
            forall|k: int| 0 <= k < j ==> {
                let file = #[trigger] files@[k];
                let row = mods@[installed@.len() + k];
                let name = without_jar(file@);
                &&& row.title@ == name
                &&& row.loader_mod.name@ == name
                &&& row.loader_mod.enabled == enabled_spec(states@, name)
                &&& !row.loader_mod.required
                &&& row.loader_mod.source matches ModSource::Local { file_name } && file_name == file
                &&& row.modrinth is None
            },
        decreases files.len() - j,
    {
        let file = &files[j];
        let name = trim_jar(file);
        let on = enabled(states, &name);
        let ghost before = mods@;
        let row = CustomMod {
            loader_mod: LoaderMod {
                required: false,
                enabled: on,
                name: name.clone(),
                source: ModSource::Local { file_name: file.clone() },
            },
            title: name,
            modrinth: None,
        };
        mods.push(row);
        assert(mods@ == before.push(row));
        assert forall|k: int| 0 <= k < j + 1 implies {
            let file = #[trigger] files@[k];
            let row = mods@[installed@.len() + k];
            let name = without_jar(file@);
            &&& row.title@ == name
            &&& row.loader_mod.name@ == name
            &&& row.loader_mod.enabled == enabled_spec(states@, name)
            &&& !row.loader_mod.required
            &&& row.loader_mod.source matches ModSource::Local { file_name } && file_name == file
            &&& row.modrinth is None
        } by {
            if k < j {
                assert(mods@[installed@.len() + k] == before[installed@.len() + k]);
            } else {
                assert(mods@[installed@.len() + k] == row);
            }
        }
        assert forall|k: int| 0 <= k < installed@.len() implies mods@[k] == before[k] by {}
        j = j + 1;
    }
    mods
}

/// The lower-case mapping of a text, character by character as Unicode defines it.
pub uninterp spec fn lowercase_of(s: Seq<char>) -> Seq<char>;

/// Whether every character of a text is ASCII.
pub open spec fn is_ascii_text(s: Seq<char>) -> bool {
    forall|i: int| 0 <= i < s.len() ==> (#[trigger] s[i] as u32) < 128
}

/// A text with its ASCII letters in lower case.
pub open spec fn ascii_lowercase(s: Seq<char>) -> Seq<char> {
    s.map_values(|c: char| ascii_lower(c))
}

/// Trusted: `str::to_lowercase`. Its mapping is named, not stated, but for ASCII text, where
/// it lowers the ASCII letters and keeps every other character, as std documents.
#[verifier::external_body]
fn to_lowercase(s: &str) -> (r: String)
    ensures
        r@ == lowercase_of(s@),
        is_ascii_text(s@) ==> r@ == ascii_lowercase(s@),
{
    s.to_lowercase()
}

/// A name that ends in `.jar`.
pub open spec fn is_jar_name(name: Seq<char>) -> bool {
    name.len() >= 4 && name.skip(name.len() - 4) == ".jar"@
}

fn ends_with_jar(name: &str) -> (r: bool)
    ensures
        r == is_jar_name(name@),
{
    let chars = chars_of(name);
    let n = chars.len();
    proof {
        reveal_strlit(".jar");
    }
    if n < 4 {
        return false;
    }
    let r = chars[n - 4] == '.' && chars[n - 3] == 'j' && chars[n - 2] == 'a' && chars[n - 1] == 'r';
    proof {
        let t = chars@.skip(n - 4);
        if r {
            assert(t =~= ".jar"@);
        } else if t == ".jar"@ {
            assert(t[0] == '.' && t[1] == 'j' && t[2] == 'a' && t[3] == 'r');
        }
    }
    r
}

/// The files among a directory's entries (each a name and whether it is a file) whose names end
/// in `.jar`, in the order listed.
pub open spec fn jar_files(entries: Seq<(String, bool)>) -> Seq<String>
    decreases entries.len(),
{
    if entries.len() == 0 {
        Seq::empty()
    } else {
        let rest = jar_files(entries.drop_last());
        let e = entries.last();
        if e.1 && is_jar_name(e.0@) {
            rest.push(e.0)
        } else {
            rest
        }
    }
}

/// Names keyed by their lower-case form.
pub open spec fn by_lowercase(names: Seq<String>) -> Seq<(Seq<char>, String)> {
    names.map_values(|n: String| (lowercase_of(n@), n))
}

/// Names keyed by their form with ASCII letters in lower case.
pub open spec fn by_ascii_lowercase(names: Seq<String>) -> Seq<(Seq<char>, String)> {
    names.map_values(|n: String| (ascii_lowercase(n@), n))
}

/// The jars of a mods directory in the order `mod_jars` gives them.
pub open spec fn mod_jars_spec(entries: Seq<(String, bool)>) -> Seq<String> {
    sorted_by_key(by_lowercase(jar_files(entries))).map_values(|p: (Seq<char>, String)| p.1)
}

/// The jars come in the order of their names in lower case, every jar of the directory once;
/// names equal in lower case keep the order listed.
pub proof fn law_mod_jars_in_lowercase_order(entries: Seq<(String, bool)>)
    ensures
        forall|k: Seq<char>| #[trigger] with_key(sorted_by_key(by_lowercase(jar_files(entries))), k)
            == with_key(by_lowercase(jar_files(entries)), k),
        forall|i: int, j: int| 0 <= i < j < mod_jars_spec(entries).len() ==> lex_le(
            lowercase_of(#[trigger] mod_jars_spec(entries)[i]@),
            lowercase_of(#[trigger] mod_jars_spec(entries)[j]@),
        ),
        mod_jars_spec(entries).to_multiset() == jar_files(entries).to_multiset(),
{
    broadcast use vstd::seq_lib::to_multiset_contains;

    let keyed = by_lowercase(jar_files(entries));
    let sorted = sorted_by_key(keyed);
    law_sorted_by_key_is_ordered(keyed);
    law_sorted_by_key_keeps_the_items(keyed);
    assert forall|i: int| 0 <= i < sorted.len() implies (#[trigger] sorted[i]).0 == lowercase_of(sorted[i].1@) by {
        assert(sorted.to_multiset().count(sorted[i]) > 0);
        assert(keyed.contains(sorted[i]));
        let k = choose|k: int| 0 <= k < keyed.len() && keyed[k] == sorted[i];
    }
    assert forall|i: int, j: int| 0 <= i < j < mod_jars_spec(entries).len() implies lex_le(
        lowercase_of(#[trigger] mod_jars_spec(entries)[i]@),
        lowercase_of(#[trigger] mod_jars_spec(entries)[j]@),
    ) by {
        assert(mod_jars_spec(entries)[i] == sorted[i].1);
        assert(mod_jars_spec(entries)[j] == sorted[j].1);
        assert(lex_le(sorted[i].0, sorted[j].0));
    }
    law_sorted_by_key_keeps_the_values(keyed);
    assert forall|k: Seq<char>| #[trigger] with_key(sorted, k) == with_key(keyed, k) by {
        law_sorted_by_key_is_stable(keyed, k);
    }
    assert(keyed.map_values(|p: (Seq<char>, String)| p.1) =~= jar_files(entries));
}

/// The jars of a mods directory, from its entries (each a name and whether it is a file): the
/// files whose names end in `.jar`, in the order of their names in lower case; names equal in
/// lower case keep the order listed.
pub fn mod_jars(entries: &Vec<(String, bool)>) -> (r: Vec<String>)
    ensures
        r@ == sorted_by_key(by_lowercase(jar_files(entries@))).map_values(|p: (Seq<char>, String)| p.1),
        (forall|i: int| 0 <= i < jar_files(entries@).len() ==> is_ascii_text(#[trigger] jar_files(entries@)[i]@))
            ==> r@ == sorted_by_key(by_ascii_lowercase(jar_files(entries@))).map_values(
            |p: (Seq<char>, String)| p.1,
        ),
{
    let mut keyed_jars: Vec<(Vec<char>, String)> = Vec::new();
    let mut i: usize = 0;
    while i < entries.len()
        invariant
            i <= entries@.len(),
            keyed(keyed_jars@) == by_lowercase(jar_files(entries@.take(i as int))),
            forall|n: String| #[trigger] jar_files(entries@.take(i as int)).contains(n) && is_ascii_text(n@)
                ==> lowercase_of(n@) == ascii_lowercase(n@),
        decreases entries@.len() - i,
    {
        assert(entries@.take(i + 1).drop_last() =~= entries@.take(i as int));
        assert(entries@.take(i + 1).last() == entries@[i as int]);
        let (name, is_file) = (&entries[i].0, entries[i].1);
        if is_file && ends_with_jar(name.as_str()) {
            let lower = to_lowercase(name.as_str());
            let key = chars_of(lower.as_str());
            let ghost before = keyed_jars@;
            keyed_jars.push((key, name.clone()));
            assert(jar_files(entries@.take(i + 1)) == jar_files(entries@.take(i as int)).push(*name));
            assert(keyed_jars@ == before.push((key, *name)));
            assert(keyed(keyed_jars@) =~= keyed(before).push((key@, *name)));
            let ghost prev = jar_files(entries@.take(i as int));
            assert(by_lowercase(prev.push(*name)) =~= by_lowercase(prev).push((lowercase_of(name@), *name)));
            assert(keyed(keyed_jars@) =~= by_lowercase(jar_files(entries@.take(i + 1))));
            assert forall|n: String| #[trigger] jar_files(entries@.take(i + 1)).contains(n) && is_ascii_text(n@)
                implies lowercase_of(n@) == ascii_lowercase(n@) by {
                if n != *name {
                    let k = choose|k: int| 0 <= k < prev.push(*name).len() && prev.push(*name)[k] == n;
                    assert(prev[k] == n);
                    assert(prev.contains(n));
                }
            }
        } else {
            assert(jar_files(entries@.take(i + 1)) == jar_files(entries@.take(i as int)));
        }
        i = i + 1;
    }
    assert(entries@.take(entries@.len() as int) =~= entries@);
    proof {
        let jars = jar_files(entries@);
        if forall|i: int| 0 <= i < jars.len() ==> is_ascii_text(#[trigger] jars[i]@) {
            assert forall|k: int| 0 <= k < jars.len() implies by_lowercase(jars)[k] == by_ascii_lowercase(jars)[k] by {
                assert(jars.contains(jars[k]));
                assert(is_ascii_text(jars[k]@));
            }
            assert(by_lowercase(jars) =~= by_ascii_lowercase(jars));
        }
    }
    let sorted = sort_by_key(keyed_jars);
    let mut r: Vec<String> = Vec::new();
    let mut k: usize = 0;
    while k < sorted.len()
        invariant
            k <= sorted@.len(),
            r@ == keyed(sorted@).take(k as int).map_values(|p: (Seq<char>, String)| p.1),
        decreases sorted@.len() - k,
    {
        r.push(sorted[k].1.clone());
        k = k + 1;
        assert(r@ =~= keyed(sorted@).take(k as int).map_values(|p: (Seq<char>, String)| p.1));
    }
    assert(keyed(sorted@).take(sorted@.len() as int) =~= keyed(sorted@));
    r
}

/// The upper-case mapping of a character, which may take several characters.
pub uninterp spec fn uppercase_of(c: char) -> Seq<char>;

/// An ASCII letter in upper case; other characters as they are.
pub open spec fn ascii_upper(c: char) -> char {
    if 'a' <= c && c <= 'z' {
        (((c as u8) - 32) as u8) as char
    } else {
        c
    }
}

/// Trusted: `char::to_uppercase`, collected. Its mapping is named; for an ASCII character it
/// is that character in upper case, as std documents.
#[verifier::external_body]
fn to_uppercase(c: char) -> (r: String)
    ensures
        r@ == uppercase_of(c),
        (c as u32) < 128 ==> r@ == seq![ascii_upper(c)],
{
    c.to_uppercase().collect()
}

/// A loader's name as the launcher shows it: its first character in upper case.
pub open spec fn loader_name_spec(loader: Seq<char>) -> Seq<char> {
    if loader.len() == 0 {
        Seq::empty()
    } else {
        uppercase_of(loader[0]) + loader.drop_first()
    }
}

pub fn loader_name(loader: &str) -> (r: String)
    ensures
        r@ == loader_name_spec(loader@),
{
    let chars = chars_of(loader);
    if chars.len() == 0 {
        return String::new();
    }
    let mut r = to_uppercase(chars[0]);
    let mut i: usize = 1;
    while i < chars.len()
        invariant
            chars@ == loader@,
            1 <= i <= chars.len(),
            r@ == uppercase_of(chars@[0]) + chars@.subrange(1, i as int),
        decreases chars.len() - i,
    {
        crate::utils::text::push_char(&mut r, chars[i]);
        i = i + 1;
        assert(r@ =~= uppercase_of(chars@[0]) + chars@.subrange(1, i as int));
    }
    assert(chars@.subrange(1, chars@.len() as int) =~= chars@.drop_first());
    r
}

/// The newest version of a project for the game, as it is installed; refused when the project
/// has no version for the loader and Minecraft version.
pub fn resolve(project: Project, newest: Option<Version>, minecraft: &str, loader: &str) -> (r: Result<ModrinthMod, String>)
    ensures
        match newest {
            None => r matches Err(message) && message@ == project.title@ + " has no version for "@
                + loader_name_spec(loader@) + " "@ + minecraft@,
            Some(v) => r matches Ok(m) && m.project_id == project.id && m.slug == project.slug && m.title
                == project.title && m.version == v.version_number && m.version_id == v.id,
        },
{
    match newest {
        None => {
            let mut message = project.title;
            push_str(&mut message, " has no version for ");
            let name = loader_name(loader);
            push_str(&mut message, name.as_str());
            push_str(&mut message, " ");
            push_str(&mut message, minecraft);
            Err(message)
        },
        Some(v) => Ok(ModrinthMod {
            project_id: project.id,
            slug: project.slug,
            title: project.title,
            version: v.version_number,
            version_id: v.id,
        }),
    }
}

} // verus!
