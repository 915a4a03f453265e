//! Minecraft version profiles: what they declare, and how one inherits from another.

use vstd::prelude::*;
use crate::error::LauncherError;
use crate::utils::assoc::{assoc_extend, assoc_extend_with};
use crate::utils::maven::{artifact_path_spec, get_maven_artifact_path};
use crate::minecraft::launcher::StartParameter;
use crate::minecraft::rule_interpreter::{check_condition, check_condition_spec, Platform};
use crate::utils::text::{
    chars_of, decimal, push_char, push_chars, push_decimal, push_str, split_chars, split_spec, string_of,
    views,
};

verus! {

/// The versions Mojang publishes.
pub struct VersionManifest {
    pub versions: Vec<ManifestVersion>,
}

/// One version of the manifest and where its profile is.
pub struct ManifestVersion {
    pub id: String,
    pub version_type: String,
    pub url: String,
    pub time: String,
    pub release_time: String,
}

/// Where a version's asset index is.
pub struct AssetIndexLocation {
    pub id: String,
    pub sha1: String,
    pub size: i64,
    pub total_size: i64,
    pub url: String,
}

/// The assets of a version, by name.
pub struct AssetIndex {
    pub objects: Vec<(String, AssetObject)>,
}

/// One asset, stored under its hash.
pub struct AssetObject {
    pub hash: String,
    pub size: i64,
}

/// The jars a version offers.
pub struct Downloads {
    pub client: Option<Download>,
    pub client_mappings: Option<Download>,
    pub server: Option<Download>,
    pub server_mappings: Option<Download>,
    pub windows_server: Option<Download>,
}

pub struct Download {
    pub sha1: String,
    pub size: i64,
    pub url: String,
}

/// Logging configuration of a version; the launcher reads none of it.
pub struct Logging {}

/// Whether a rule admits or excludes what it guards.
#[derive(Debug, Clone, Copy, PartialEq, Eq, Structural)]
pub enum RuleAction {
    Allow,
    Disallow,
}

/// The system a rule is about. Each part that is present must match.
pub struct OsRule {
    pub name: Option<String>,
    /// A regular expression over the system's version.
    pub version: Option<String>,
    pub arch: Option<String>,
}

/// A rule of a library or an argument: its action, taken when the system and the feature
/// flags match.
pub struct Rule {
    pub action: RuleAction,
    pub os: Option<OsRule>,
    /// Feature names and whether each must be on or off.
    pub features: Option<Vec<(String, bool)>>,
}

/// A library jar as a version profile lists it.
pub struct Library {
    /// `group:name:version`, or `group:name:version:classifier`.
    pub name: String,
    pub downloads: Option<LibraryDownloads>,
    /// The classifier of the native jar, by system name.
    pub natives: Option<Vec<(String, String)>>,
    pub rules: Vec<Rule>,
    /// The repository to fetch from when no download is given.
    pub url: Option<String>,
}

pub struct LibraryDownloads {
    pub artifact: Option<LibraryArtifact>,
    /// Native jars, by classifier.
    pub classifiers: Option<Vec<(String, LibraryArtifact)>>,
}

pub struct LibraryArtifact {
    pub path: String,
    pub sha1: String,
    pub size: i64,
    pub url: String,
}

/// Where a library jar comes from and goes to.
pub struct LibraryDownloadInfo {
    pub path: String,
    pub sha1: Option<String>,
    pub size: Option<i64>,
    pub url: String,
}

/// A library's downloads, with the classifier map as a sequence.
pub struct LibraryDownloadsView {
    pub artifact: Option<LibraryArtifact>,
    pub classifiers: Option<Seq<(String, LibraryArtifact)>>,
}

/// A library, with its lists as sequences.
pub struct LibraryView {
    pub name: String,
    pub downloads: Option<LibraryDownloadsView>,
    pub natives: Option<Seq<(String, String)>>,
    pub rules: Seq<Rule>,
    pub url: Option<String>,
}

impl View for LibraryDownloads {
    type V = LibraryDownloadsView;

    open spec fn view(&self) -> LibraryDownloadsView {
        LibraryDownloadsView {
            artifact: self.artifact,
            classifiers: match self.classifiers {
                Some(c) => Some(c@),
                None => None,
            },
        }
    }
}

impl View for Library {
    type V = LibraryView;

    open spec fn view(&self) -> LibraryView {
        LibraryView {
            name: self.name,
            downloads: match self.downloads {
                Some(d) => Some(d@),
                None => None,
            },
            natives: match self.natives {
                Some(n) => Some(n@),
                None => None,
            },
            rules: self.rules@,
            url: self.url,
        }
    }
}

pub open spec fn lib_views(s: Seq<Library>) -> Seq<LibraryView> {
    s.map_values(|l: Library| l@)
}

/// What tells libraries apart when a profile inherits from another: group and name, and the
/// classifier when there is one. A name of another shape stands for itself.
pub open spec fn identifier_spec(name: Seq<char>) -> Seq<char> {
    let parts = split_spec(name, ':');
    if parts.len() == 3 {
        parts[0] + ":"@ + parts[1]
    } else if parts.len() == 4 {
        parts[0] + ":"@ + parts[1] + ":"@ + parts[3]
    } else {
        name
    }
}

pub open spec fn lib_id(l: LibraryView) -> Seq<char> {
    identifier_spec(l.name@)
}

/// The first library with identifier `id`.
pub open spec fn lib_find(s: Seq<LibraryView>, id: Seq<char>) -> Option<int>
    decreases s.len(),
{
    if s.len() == 0 {
        None
    } else {
        match lib_find(s.drop_last(), id) {
            Some(i) => Some(i),
            None => if lib_id(s.last()) == id {
                Some(s.len() - 1)
            } else {
                None
            },
        }
    }
}

/// `s` with `l` in the place of the library of the same identifier, or appended.
pub open spec fn lib_put(s: Seq<LibraryView>, l: LibraryView) -> Seq<LibraryView> {
    match lib_find(s, lib_id(l)) {
        Some(i) => s.update(i, l),
        None => s.push(l),
    }
}

/// The libraries by identifier, a later one replacing an earlier one.
pub open spec fn libs_collect(s: Seq<LibraryView>) -> Seq<LibraryView>
    decreases s.len(),
{
    if s.len() == 0 {
        Seq::empty()
    } else {
        lib_put(libs_collect(s.drop_last()), s.last())
    }
}

pub open spec fn merge_downloads_spec(
    own: Option<LibraryDownloadsView>,
    parent: Option<LibraryDownloadsView>,
) -> Option<LibraryDownloadsView> {
    match parent {
        None => own,
        Some(p) => match own {
            None => Some(p),
            Some(d) => Some(
                LibraryDownloadsView {
                    artifact: if p.artifact is Some {
                        p.artifact
                    } else {
                        d.artifact
                    },
                    classifiers: match p.classifiers {
                        Some(pc) => match d.classifiers {
                            Some(dc) => Some(assoc_extend(dc, pc)),
                            None => Some(pc),
                        },
                        None => d.classifiers,
                    },
                },
            ),
        },
    }
}

/// A library of a profile with the same library of its parent folded in: the parent's rules
/// follow its own, the parent's artifact and classifiers take precedence, the parent's natives
/// extend its own, and its own repository stays if it names one.
pub open spec fn merge_library_spec(own: LibraryView, parent: LibraryView) -> LibraryView {
    LibraryView {
        name: own.name,
        downloads: merge_downloads_spec(own.downloads, parent.downloads),
        natives: match parent.natives {
            Some(pn) => match own.natives {
                Some(n) => Some(assoc_extend(n, pn)),
                None => Some(pn),
            },
            None => own.natives,
        },
        rules: own.rules + parent.rules,
        url: if own.url is Some {
            own.url
        } else {
            parent.url
        },
    }
}

/// `s` with parent library `p` folded into the library of the same identifier, or appended.
pub open spec fn lib_merge_in(s: Seq<LibraryView>, p: LibraryView) -> Seq<LibraryView> {
    match lib_find(s, lib_id(p)) {
        Some(i) => s.update(i, merge_library_spec(s[i], p)),
        None => s.push(p),
    }
}

pub open spec fn libs_merge(s: Seq<LibraryView>, parents: Seq<LibraryView>) -> Seq<LibraryView>
    decreases parents.len(),
{
    if parents.len() == 0 {
        s
    } else {
        lib_merge_in(libs_merge(s, parents.drop_last()), parents.last())
    }
}

/// The libraries of a profile after it inherits those of `parents`.
pub open spec fn merge_libraries_spec(
    own: Seq<LibraryView>,
    parents: Seq<LibraryView>,
) -> Seq<LibraryView> {
    libs_merge(libs_collect(own), parents)
}

/// No identifier occurs twice.
pub open spec fn ids_unique(s: Seq<LibraryView>) -> bool {
    forall|i: int, j: int| 0 <= i < j < s.len() ==> lib_id(#[trigger] s[i]) != lib_id(#[trigger] s[j])
}

/// Whether a library with the identifier is among `s`.
pub open spec fn has_lib(s: Seq<LibraryView>, id: Seq<char>) -> bool {
    exists|i: int| 0 <= i < s.len() && lib_id(#[trigger] s[i]) == id
}

proof fn lemma_put_keeps(s: Seq<LibraryView>, l: LibraryView)
    requires
        ids_unique(s),
    ensures
        ids_unique(lib_put(s, l)),
        has_lib(lib_put(s, l), lib_id(l)),
        forall|id: Seq<char>| has_lib(s, id) ==> has_lib(lib_put(s, l), id),
{
    lemma_lib_find(s, lib_id(l));
    let r = lib_put(s, l);
    match lib_find(s, lib_id(l)) {
        Some(i) => {
            assert(r[i] == l);
            assert forall|id: Seq<char>| has_lib(s, id) implies has_lib(r, id) by {
                let k = choose|k: int| 0 <= k < s.len() && lib_id(#[trigger] s[k]) == id;
                if k == i {
                    assert(lib_id(r[i]) == id);
                } else {
                    assert(r[k] == s[k]);
                }
            }
        },
        None => {
            assert(r[s.len() as int] == l);
            assert forall|id: Seq<char>| has_lib(s, id) implies has_lib(r, id) by {
                let k = choose|k: int| 0 <= k < s.len() && lib_id(#[trigger] s[k]) == id;
                assert(r[k] == s[k]);
            }
        },
    }
}

proof fn lemma_merge_in_keeps(s: Seq<LibraryView>, p: LibraryView)
    requires
        ids_unique(s),
    ensures
        ids_unique(lib_merge_in(s, p)),
        has_lib(lib_merge_in(s, p), lib_id(p)),
        forall|id: Seq<char>| has_lib(s, id) ==> has_lib(lib_merge_in(s, p), id),
{
    lemma_lib_find(s, lib_id(p));
    let r = lib_merge_in(s, p);
    match lib_find(s, lib_id(p)) {
        Some(i) => {
            assert(lib_id(r[i]) == lib_id(s[i]));
            assert forall|a: int, b: int| 0 <= a < b < r.len() implies lib_id(#[trigger] r[a]) != lib_id(#[trigger] r[b]) by {
                assert(lib_id(r[a]) == lib_id(s[a]));
                assert(lib_id(r[b]) == lib_id(s[b]));
            }
            assert forall|id: Seq<char>| has_lib(s, id) implies has_lib(r, id) by {
                let k = choose|k: int| 0 <= k < s.len() && lib_id(#[trigger] s[k]) == id;
                assert(lib_id(r[k]) == lib_id(s[k]));
            }
        },
        None => {
            assert(r[s.len() as int] == p);
            assert forall|id: Seq<char>| has_lib(s, id) implies has_lib(r, id) by {
                let k = choose|k: int| 0 <= k < s.len() && lib_id(#[trigger] s[k]) == id;
                assert(r[k] == s[k]);
            }
        },
    }
}

proof fn lemma_collect_keeps(s: Seq<LibraryView>)
    ensures
        ids_unique(libs_collect(s)),
        forall|i: int| 0 <= i < s.len() ==> has_lib(libs_collect(s), lib_id(#[trigger] s[i])),
    decreases s.len(),
{
    if s.len() > 0 {
        lemma_collect_keeps(s.drop_last());
        lemma_put_keeps(libs_collect(s.drop_last()), s.last());
        assert forall|i: int| 0 <= i < s.len() implies has_lib(libs_collect(s), lib_id(#[trigger] s[i])) by {
            if i < s.len() - 1 {
                assert(s[i] == s.drop_last()[i]);
            }
        }
    }
}

proof fn lemma_merge_keeps(s: Seq<LibraryView>, parents: Seq<LibraryView>)
    requires
        ids_unique(s),
    ensures
        ids_unique(libs_merge(s, parents)),
        forall|id: Seq<char>| has_lib(s, id) ==> has_lib(libs_merge(s, parents), id),
        forall|i: int| 0 <= i < parents.len() ==> has_lib(libs_merge(s, parents), lib_id(#[trigger] parents[i])),
    decreases parents.len(),
{
    if parents.len() > 0 {
        lemma_merge_keeps(s, parents.drop_last());
        lemma_merge_in_keeps(libs_merge(s, parents.drop_last()), parents.last());
        assert forall|i: int| 0 <= i < parents.len() implies has_lib(libs_merge(s, parents), lib_id(#[trigger] parents[i])) by {
            if i < parents.len() - 1 {
                assert(parents[i] == parents.drop_last()[i]);
            }
        }
    }
}

/// After inheriting, a profile lists each library once, by identifier, and every library of
/// the profile and of its parent is among them.
pub proof fn law_merged_libraries_by_identifier(own: Seq<LibraryView>, parents: Seq<LibraryView>)
    ensures
        ids_unique(merge_libraries_spec(own, parents)),
        forall|i: int| 0 <= i < own.len() ==> has_lib(merge_libraries_spec(own, parents), lib_id(#[trigger] own[i])),
        forall|i: int| 0 <= i < parents.len() ==> has_lib(merge_libraries_spec(own, parents), lib_id(#[trigger] parents[i])),
{
    lemma_collect_keeps(own);
    lemma_merge_keeps(libs_collect(own), parents);
}

pub proof fn lemma_lib_find(s: Seq<LibraryView>, id: Seq<char>)
    ensures
        match lib_find(s, id) {
            Some(i) => 0 <= i < s.len() && lib_id(s[i]) == id && forall|j: int|
                0 <= j < i ==> lib_id(#[trigger] s[j]) != id,
            None => forall|j: int| 0 <= j < s.len() ==> lib_id(#[trigger] s[j]) != id,
        },
    decreases s.len(),
{
    if s.len() > 0 {
        let front = s.drop_last();
        lemma_lib_find(front, id);
        assert forall|j: int| 0 <= j < front.len() implies #[trigger] s[j] == front[j] by {}
    }
}

impl Library {
    /// Group and name, and the classifier when there is one; a name of another shape stands
    /// for itself.
    pub fn get_identifier(&self) -> (r: String)
        ensures
            r@ == identifier_spec(self.name@),
    {
        let name = chars_of(self.name.as_str());
        let parts = split_chars(name.as_slice(), ':');
        if parts.len() == 3 {
            let mut id = string_of(parts[0].as_slice());
            push_str(&mut id, ":");
            push_chars(&mut id, parts[1].as_slice());
            id
        } else if parts.len() == 4 {
            let mut id = string_of(parts[0].as_slice());
            push_str(&mut id, ":");
            push_chars(&mut id, parts[1].as_slice());
            push_str(&mut id, ":");
            push_chars(&mut id, parts[3].as_slice());
            id
        } else {
            self.name.clone()
        }
    }

    /// Where the library's jar comes from: the artifact the profile lists, else the library's
    /// Maven path in its repository (Mojang's by default), with no checksum or size known.
    pub fn get_library_download(&self) -> (r: Result<LibraryDownloadInfo, LauncherError>)
        ensures
            match self.artifact_spec() {
                Some(artifact) => r == Ok::<LibraryDownloadInfo, LauncherError>(
                    LibraryDownloadInfo::from_spec(artifact),
                ),
                None => match artifact_path_spec(self.name@) {
                    Some(path) => r matches Ok(info) && {
                        &&& info.path@ == path
                        &&& info.url@ == self.repository_spec() + path
                        &&& info.sha1 is None
                        &&& info.size is None
                    },
                    None => r matches Err(LauncherError::InvalidVersionProfile(message))
                        && message@ == "Invalid artifact name: "@ + self.name@,
                },
            },
    {
        if let Some(downloads) = &self.downloads {
            if let Some(artifact) = &downloads.artifact {
                return Ok(LibraryDownloadInfo::from(artifact));
            }
        }
        let path = get_maven_artifact_path(&self.name)?;
        let mut url = match &self.url {
            Some(url) => url.clone(),
            None => {
                let mut url = String::new();
                push_str(&mut url, "https://libraries.minecraft.net/");
                url
            },
        };
        let tail = chars_of(path.as_str());
        push_chars(&mut url, tail.as_slice());
        Ok(LibraryDownloadInfo { path, sha1: None, size: None, url })
    }

    /// The artifact the profile lists for the library, if any.
    pub open spec fn artifact_spec(self) -> Option<LibraryArtifact> {
        match self.downloads {
            Some(downloads) => downloads.artifact,
            None => None,
        }
    }

    /// The repository the library is fetched from when no artifact is listed.
    pub open spec fn repository_spec(self) -> Seq<char> {
        match self.url {
            Some(url) => url@,
            None => "https://libraries.minecraft.net/"@,
        }
    }
}

/// A library that names its own repository is fetched from there; only one that names none
/// falls back to Mojang's.
pub proof fn law_a_library_is_fetched_from_its_own_repository(library: Library)
    ensures
        library.url matches Some(url) ==> library.repository_spec() == url@,
        library.url is None ==> library.repository_spec() == "https://libraries.minecraft.net/"@,
{
}

impl LibraryDownloadInfo {
    /// What an artifact of the profile gives: its path, checksum, size and URL.
    pub open spec fn from_spec(artifact: LibraryArtifact) -> LibraryDownloadInfo {
        LibraryDownloadInfo {
            path: artifact.path,
            sha1: Some(artifact.sha1),
            size: Some(artifact.size),
            url: artifact.url,
        }
    }

    /// The download an artifact of the profile describes.
    pub fn from(artifact: &LibraryArtifact) -> (r: LibraryDownloadInfo)
        ensures
            r == LibraryDownloadInfo::from_spec(*artifact),
    {
        LibraryDownloadInfo {
            path: artifact.path.clone(),
            sha1: Some(artifact.sha1.clone()),
            size: Some(artifact.size),
            url: artifact.url.clone(),
        }
    }
}

/// The parent's downloads folded into a library's own.
fn merge_downloads(own: Option<LibraryDownloads>, parent: Option<LibraryDownloads>) -> (r: Option<
    LibraryDownloads,
>)
    ensures
        (match r {
            Some(d) => Some(d@),
            None => None,
        }) == merge_downloads_spec(
            match own {
                Some(d) => Some(d@),
                None => None,
            },
            match parent {
                Some(d) => Some(d@),
                None => None,
            },
        ),
{
    match parent {
        None => own,
        Some(p) => match own {
            None => Some(p),
            Some(d) => {
                let LibraryDownloads { artifact: own_artifact, classifiers: own_classifiers } = d;
                let LibraryDownloads { artifact: parent_artifact, classifiers: parent_classifiers } =
                    p;
                let artifact = match parent_artifact {
                    Some(a) => Some(a),
                    None => own_artifact,
                };
                let classifiers = match parent_classifiers {
                    Some(pc) => match own_classifiers {
                        Some(dc) => {
                            let mut dc = dc;
                            assoc_extend_with(&mut dc, pc);
                            Some(dc)
                        },
                        None => Some(pc),
                    },
                    None => own_classifiers,
                };
                Some(LibraryDownloads { artifact, classifiers })
            },
        },
    }
}

/// Folds the same library of the parent profile into `own`.
fn merge_library(own: Library, parent: Library) -> (r: Library)
    ensures
        r@ == merge_library_spec(own@, parent@),
{
    let Library { name, downloads, natives, rules, url } = own;
    let Library {
        name: _parent_name,
        downloads: parent_downloads,
        natives: parent_natives,
        rules: parent_rules,
        url: parent_url,
    } = parent;
    let mut rules = rules;
    let mut parent_rules = parent_rules;
    rules.append(&mut parent_rules);
    let downloads = merge_downloads(downloads, parent_downloads);
    let natives = match parent_natives {
        Some(pn) => match natives {
            Some(n) => {
                let mut n = n;
                assoc_extend_with(&mut n, pn);
                Some(n)
            },
            None => Some(pn),
        },
        None => natives,
    };
    let url = match url {
        Some(u) => Some(u),
        None => parent_url,
    };
    let r = Library { name, downloads, natives, rules, url };
    assert(r@.rules =~= own@.rules + parent@.rules);
    r
}

/// The position of the library with identifier `id`, given the identifiers of `libs` in order.
fn position_of(ids: &Vec<String>, id: &String, libs: Ghost<Seq<LibraryView>>) -> (r: Option<usize>)
    requires
        ids@.len() == libs@.len(),
        forall|k: int| 0 <= k < ids@.len() ==> #[trigger] ids@[k]@ == lib_id(libs@[k]),
    ensures
        match r {
            Some(i) => lib_find(libs@, id@) == Some(i as int),
            None => lib_find(libs@, id@) is None,
        },
{
    let mut i: usize = 0;
    while i < ids.len()
        invariant
            i <= ids.len(),
            ids@.len() == libs@.len(),
            forall|k: int| 0 <= k < ids@.len() ==> #[trigger] ids@[k]@ == lib_id(libs@[k]),
            forall|k: int| 0 <= k < i ==> lib_id(#[trigger] libs@[k]) != id@,
        decreases ids.len() - i,
    {
        if ids[i] == *id {
            proof {
                lemma_lib_find(libs@, id@);
                if lib_find(libs@, id@) != Some(i as int) {
                    let k = lib_find(libs@, id@)->0;
                    assert(lib_id(libs@[k]) == id@);
                }
            }
            return Some(i);
        }
        i = i + 1;
    }
    proof {
        lemma_lib_find(libs@, id@);
        if lib_find(libs@, id@) is Some {
            let k = lib_find(libs@, id@)->0;
            assert(lib_id(libs@[k]) == id@);
        }
    }
    None
}

/// Folds the libraries of a parent profile into `current_libraries`: a library the child has
/// too is merged into the child's, the others are added. Libraries of the same identifier in
/// the child keep only the last one.
fn merge_library_lists(current_libraries: &mut Vec<Library>, parent_libraries: Vec<Library>)
    ensures
        lib_views(final(current_libraries)@) == merge_libraries_spec(
            lib_views(old(current_libraries)@),
            lib_views(parent_libraries@),
        ),
{
    let mut own: Vec<Library> = Vec::new();
    std::mem::swap(&mut own, current_libraries);
    let ghost own_all = lib_views(own@);
    let ghost parents_all = lib_views(parent_libraries@);
    let mut merged: Vec<Library> = Vec::new();
    let mut ids: Vec<String> = Vec::new();
    let ghost mut k: int = 0;
    while own.len() > 0
        invariant
            0 <= k <= own_all.len(),
            lib_views(own@) == own_all.skip(k),
            lib_views(merged@) == libs_collect(own_all.take(k)),
            ids@.len() == merged@.len(),
            forall|j: int| 0 <= j < ids@.len() ==> #[trigger] ids@[j]@ == lib_id(lib_views(merged@)[j]),
        decreases own.len(),
    {
        let ghost own_before = lib_views(own@);
        let ghost own_seq = own@;
        assert(own_before.len() > 0 && k < own_all.len());
        let lib = own.remove(0);
        let id = lib.get_identifier();
        let ghost before = lib_views(merged@);
        assert(own_all[k] == lib@) by {
            assert(own_all.skip(k)[0] == own_all[k]);
            assert(own_before[0] == lib@);
        }
        assert(own_all.take(k + 1).drop_last() =~= own_all.take(k));
        proof {
            lemma_lib_find(before, lib_id(own_all[k]));
        }
        match position_of(&ids, &id, Ghost(before)) {
            Some(i) => {
                merged.remove(i);
                merged.insert(i, lib);
                assert(lib_views(merged@) =~= before.update(i as int, own_all[k]));
            },
            None => {
                merged.push(lib);
                ids.push(id);
                assert(lib_views(merged@) =~= before.push(own_all[k]));
            },
        }
        proof {
            lemma_lib_find(before, lib_id(own_all[k]));
            k = k + 1;
            assert forall|j: int| 0 <= j < lib_views(own@).len() implies #[trigger] lib_views(own@)[j]
                == own_all.skip(k)[j] by {
                assert(own@[j] == own_seq[j + 1]);
                assert(own_before[j + 1] == own_all.skip(k - 1)[j + 1]);
            }
            assert(lib_views(own@) =~= own_all.skip(k));
            assert forall|j: int| 0 <= j < ids@.len() implies #[trigger] ids@[j]@ == lib_id(lib_views(merged@)[j]) by {
                if j < before.len() && lib_views(merged@)[j] != before[j] {
                    assert(lib_id(lib_views(merged@)[j]) == lib_id(before[j]));
                }
            }
        }
    }
    assert(own_all.take(k) =~= own_all);
    let mut parents = parent_libraries;
    let ghost mut m: int = 0;
    let ghost start = lib_views(merged@);
    while parents.len() > 0
        invariant
            0 <= m <= parents_all.len(),
            lib_views(parents@) == parents_all.skip(m),
            lib_views(merged@) == libs_merge(start, parents_all.take(m)),
            ids@.len() == merged@.len(),
            forall|j: int| 0 <= j < ids@.len() ==> #[trigger] ids@[j]@ == lib_id(lib_views(merged@)[j]),
        decreases parents.len(),
    {
        let ghost parents_before = lib_views(parents@);
        let ghost parents_seq = parents@;
        assert(parents_before.len() > 0 && m < parents_all.len());
        let parent = parents.remove(0);
        let id = parent.get_identifier();
        let ghost before = lib_views(merged@);
        assert(parents_all[m] == parent@) by {
            assert(parents_all.skip(m)[0] == parents_all[m]);
            assert(parents_before[0] == parent@);
        }
        assert(parents_all.take(m + 1).drop_last() =~= parents_all.take(m));
        proof {
            lemma_lib_find(before, lib_id(parents_all[m]));
        }
        match position_of(&ids, &id, Ghost(before)) {
            Some(i) => {
                let own_lib = merged.remove(i);
                assert(own_lib@ == before[i as int]);
                let lib = merge_library(own_lib, parent);
                merged.insert(i, lib);
                assert(lib_views(merged@) =~= before.update(
                    i as int,
                    merge_library_spec(before[i as int], parents_all[m]),
                ));
            },
            None => {
                merged.push(parent);
                ids.push(id);
                assert(lib_views(merged@) =~= before.push(parents_all[m]));
            },
        }
        proof {
            lemma_lib_find(before, lib_id(parents_all[m]));
            m = m + 1;
            assert forall|j: int| 0 <= j < lib_views(parents@).len() implies #[trigger] lib_views(parents@)[j]
                == parents_all.skip(m)[j] by {
                assert(parents@[j] == parents_seq[j + 1]);
                assert(parents_before[j + 1] == parents_all.skip(m - 1)[j + 1]);
            }
            assert(lib_views(parents@) =~= parents_all.skip(m));
            assert forall|j: int| 0 <= j < ids@.len() implies #[trigger] ids@[j]@ == lib_id(lib_views(merged@)[j]) by {
                if j < before.len() && lib_views(merged@)[j] != before[j] {
                    assert(lib_id(lib_views(merged@)[j]) == lib_id(before[j]));
                }
            }
        }
    }
    assert(parents_all.take(m) =~= parents_all);
    *current_libraries = merged;
}

/// A profile's arguments: old profiles give the game's as one line, newer ones give lists
/// of both the game's and the JVM's, each with rules.
pub enum ArgumentDeclaration {
    V21(V21ArgumentDeclaration),
    V14(V14ArgumentDeclaration),
}

pub struct V14ArgumentDeclaration {
    pub minecraft_arguments: Option<String>,
}

pub struct V21ArgumentDeclaration {
    pub arguments: Arguments,
}

pub struct Arguments {
    pub game: Vec<Argument>,
    pub jvm: Vec<Argument>,
}

/// One argument, or several that go together, and the rules under which they are given.
pub struct Argument {
    pub rules: Option<Vec<Rule>>,
    pub value: ArgumentValue,
}

impl Argument {
    /// A bare string in a profile's argument list: given always, as it stands.
    pub fn from_str(s: &str) -> (r: Argument)
        ensures
            r.rules is None,
            r.value matches ArgumentValue::SINGLE(v) && v@ == s@,
    {
        Argument { value: ArgumentValue::SINGLE(s.to_string()), rules: None }
    }
}

#[allow(non_camel_case_types)]
pub enum ArgumentValue {
    SINGLE(String),
    VEC(Vec<String>),
}

/// A version's launch description, as Mojang or a mod loader publishes it.
pub struct VersionProfile {
    pub id: String,
    pub asset_index_location: Option<AssetIndexLocation>,
    pub assets: Option<String>,
    pub inherits_from: Option<String>,
    pub minimum_launcher_version: Option<i32>,
    pub downloads: Option<Downloads>,
    pub compliance_level: Option<i32>,
    pub libraries: Vec<Library>,
    pub main_class: Option<String>,
    pub logging: Option<Logging>,
    pub version_type: String,
    pub arguments: ArgumentDeclaration,
}

/// The strings an argument contributes.
pub open spec fn argument_values(a: Argument) -> Seq<Seq<char>> {
    match a.value {
        ArgumentValue::SINGLE(s) => seq![s@],
        ArgumentValue::VEC(v) => views(v@),
    }
}

/// Whether an argument is given: always without rules, otherwise as its rules decide.
pub open spec fn argument_admitted(a: Argument, features: Seq<String>, platform: Platform) -> Result<
    bool,
    LauncherError,
> {
    match a.rules {
        None => Ok(true),
        Some(rules) => check_condition_spec(rules@, features, platform),
    }
}

/// The strings that `args` contribute in order, up to the first argument whose rules cannot
/// be decided, and that error.
pub open spec fn expand_arguments(
    args: Seq<Argument>,
    features: Seq<String>,
    platform: Platform,
) -> (Seq<Seq<char>>, Option<LauncherError>)
    decreases args.len(),
{
    if args.len() == 0 {
        (Seq::empty(), None)
    } else {
        let front = expand_arguments(args.drop_last(), features, platform);
        if front.1 is Some {
            front
        } else {
            match argument_admitted(args.last(), features, platform) {
                Err(e) => (front.0, Some(e)),
                Ok(true) => (front.0 + argument_values(args.last()), None),
                Ok(false) => (front.0, None),
            }
        }
    }
}

pub open spec fn result_of(error: Option<LauncherError>) -> Result<(), LauncherError> {
    match error {
        Some(e) => Err(e),
        None => Ok(()),
    }
}

/// The JVM options every launch starts with: the heap size, then the G1 collector's settings.
pub open spec fn jvm_prefix(memory: nat) -> Seq<Seq<char>> {
    seq![
        "-Xmx"@ + decimal(memory) + "M"@,
        "-XX:+UnlockExperimentalVMOptions"@,
        "-XX:+UseG1GC"@,
        "-XX:G1NewSizePercent=20"@,
        "-XX:G1ReservePercent=20"@,
        "-XX:MaxGCPauseMillis=50"@,
        "-XX:G1HeapRegionSize=32M"@,
    ]
}

/// The JVM options old profiles leave to the launcher: the natives and the class path.
pub open spec fn v14_jvm_arguments() -> Seq<Seq<char>> {
    seq!["-Djava.library.path=${natives_directory}"@, "-cp"@, "${classpath}"@]
}

fn push_string(command_arguments: &mut Vec<String>, s: &str)
    ensures
        views(final(command_arguments)@) == views(old(command_arguments)@).push(s@),
{
    let mut owned = String::new();
    push_str(&mut owned, s);
    command_arguments.push(owned);
    assert(views(command_arguments@) =~= views(old(command_arguments)@).push(s@));
}

pub(crate) fn push_all(command_arguments: &mut Vec<String>, values: &Vec<String>)
    ensures
        views(final(command_arguments)@) == views(old(command_arguments)@) + views(values@),
{
    let mut i: usize = 0;
    while i < values.len()
        invariant
            i <= values.len(),
            views(command_arguments@) == views(old(command_arguments)@) + views(values@).take(
                i as int,
            ),
        decreases values.len() - i,
    {
        let ghost before = views(command_arguments@);
        command_arguments.push(values[i].clone());
        assert(views(command_arguments@) =~= before.push(values@[i as int]@));
        assert(views(values@).take(i + 1) =~= views(values@).take(i as int).push(values@[i as int]@));
        i = i + 1;
        assert(views(command_arguments@) =~= views(old(command_arguments)@) + views(values@).take(
            i as int,
        ));
    }
    assert(views(values@).take(values@.len() as int) =~= views(values@));
}

fn push_parts(command_arguments: &mut Vec<String>, parts: &Vec<Vec<char>>)
    ensures
        views(final(command_arguments)@) == views(old(command_arguments)@) + parts@.map_values(
            |p: Vec<char>| p@,
        ),
{
    let ghost all = parts@.map_values(|p: Vec<char>| p@);
    let mut i: usize = 0;
    while i < parts.len()
        invariant
            i <= parts.len(),
            all == parts@.map_values(|p: Vec<char>| p@),
            views(command_arguments@) == views(old(command_arguments)@) + all.take(i as int),
        decreases parts.len() - i,
    {
        let ghost before = views(command_arguments@);
        command_arguments.push(string_of(parts[i].as_slice()));
        assert(views(command_arguments@) =~= before.push(parts@[i as int]@));
        assert(all.take(i + 1) =~= all.take(i as int).push(parts@[i as int]@));
        i = i + 1;
        assert(views(command_arguments@) =~= views(old(command_arguments)@) + all.take(i as int));
    }
    assert(all.take(all.len() as int) =~= all);
}

impl ArgumentDeclaration {
    /// Appends the arguments of `args` that their rules admit.
    pub fn check_rules_and_add(
        command_arguments: &mut Vec<String>,
        args: &Vec<Argument>,
        features: &Vec<String>,
        platform: &Platform,
    ) -> (r: Result<(), LauncherError>)
        ensures
            views(final(command_arguments)@) == views(old(command_arguments)@) + expand_arguments(
                args@,
                features@,
                *platform,
            ).0,
            r == result_of(expand_arguments(args@, features@, *platform).1),
    {
        let mut i: usize = 0;
        while i < args.len()
            invariant
                i <= args.len(),
                expand_arguments(args@.take(i as int), features@, *platform).1 is None,
                views(command_arguments@) == views(old(command_arguments)@) + expand_arguments(
                    args@.take(i as int),
                    features@,
                    *platform,
                ).0,
            decreases args.len() - i,
        {
            let argument = &args[i];
            let ghost before = views(command_arguments@);
            assert(args@.take(i + 1).drop_last() =~= args@.take(i as int));
            assert(args@.take(i + 1).last() == args@[i as int]);
            if let Some(rules) = &argument.rules {
                match check_condition(rules, features, platform) {
                    Ok(allowed) => {
                        if !allowed {
                            i = i + 1;
                            continue;
                        }
                    },
                    Err(e) => {
                        assert(expand_arguments(args@.take(i + 1), features@, *platform).1 == Some(e));
                        proof {
                            lemma_expand_error_stays(args@, i + 1, features@, *platform);
                        }
                        return Err(e);
                    },
                }
            }
            match &argument.value {
                ArgumentValue::SINGLE(value) => {
                    command_arguments.push(value.clone());
                    assert(views(command_arguments@) =~= before.push(value@));
                    assert(argument_values(args@[i as int]) =~= seq![value@]);
                },
                ArgumentValue::VEC(values) => {
                    push_all(command_arguments, values);
                },
            }
            i = i + 1;
        }
        assert(args@.take(args@.len() as int) =~= args@);
        Ok(())
    }

    /// Appends the game's arguments: the one line of an old profile cut at spaces, or the
    /// arguments of a newer one that their rules admit. An old profile without that line is
    /// refused.
    pub fn add_game_args_to_vec(
        &self,
        command_arguments: &mut Vec<String>,
        features: &Vec<String>,
        platform: &Platform,
    ) -> (r: Result<(), LauncherError>)
        ensures
            match self {
                ArgumentDeclaration::V14(decl) => match decl.minecraft_arguments {
                    Some(line) => r is Ok && views(final(command_arguments)@) == views(
                        old(command_arguments)@,
                    ) + split_spec(line@, ' '),
                    None => {
                        &&& final(command_arguments)@ == old(command_arguments)@
                        &&& r matches Err(LauncherError::InvalidVersionProfile(message))
                        &&& message@ == "no game arguments specified"@
                    },
                },
                ArgumentDeclaration::V21(decl) => {
                    &&& views(final(command_arguments)@) == views(old(command_arguments)@)
                        + expand_arguments(decl.arguments.game@, features@, *platform).0
                    &&& r == result_of(
                        expand_arguments(decl.arguments.game@, features@, *platform).1,
                    )
                },
            },
    {
        match self {
            ArgumentDeclaration::V14(decl) => match &decl.minecraft_arguments {
                Some(line) => {
                    let chars = chars_of(line.as_str());
                    let parts = split_chars(chars.as_slice(), ' ');
                    push_parts(command_arguments, &parts);
                    assert(parts@.map_values(|p: Vec<char>| p@) =~= split_spec(line@, ' '));
                    Ok(())
                },
                None => {
                    let mut message = String::new();
                    push_str(&mut message, "no game arguments specified");
                    Err(LauncherError::InvalidVersionProfile(message))
                },
            },
            ArgumentDeclaration::V21(decl) => {
                ArgumentDeclaration::check_rules_and_add(
                    command_arguments,
                    &decl.arguments.game,
                    features,
                    platform,
                )
            },
        }
    }

    /// Appends the JVM's arguments: the heap size and collector settings, then the natives
    /// and class path of an old profile, or the arguments of a newer one that their rules
    /// admit.
    pub fn add_jvm_args_to_vec(
        &self,
        command_arguments: &mut Vec<String>,
        parameter: &StartParameter,
        features: &Vec<String>,
        platform: &Platform,
    ) -> (r: Result<(), LauncherError>)
        ensures
            match self {
                ArgumentDeclaration::V14(_) => r is Ok && views(final(command_arguments)@) == views(
                    old(command_arguments)@,
                ) + jvm_prefix(parameter.memory as nat) + v14_jvm_arguments(),
                ArgumentDeclaration::V21(decl) => {
                    &&& views(final(command_arguments)@) == views(old(command_arguments)@)
                        + jvm_prefix(parameter.memory as nat) + expand_arguments(
                        decl.arguments.jvm@,
                        features@,
                        *platform,
                    ).0
                    &&& r == result_of(
                        expand_arguments(decl.arguments.jvm@, features@, *platform).1,
                    )
                },
            },
    {
        let mut heap = String::new();
        push_str(&mut heap, "-Xmx");
        push_decimal(&mut heap, parameter.memory);
        push_str(&mut heap, "M");
        command_arguments.push(heap);
        push_string(command_arguments, "-XX:+UnlockExperimentalVMOptions");
        push_string(command_arguments, "-XX:+UseG1GC");
        push_string(command_arguments, "-XX:G1NewSizePercent=20");
        push_string(command_arguments, "-XX:G1ReservePercent=20");
        push_string(command_arguments, "-XX:MaxGCPauseMillis=50");
        push_string(command_arguments, "-XX:G1HeapRegionSize=32M");
        assert(views(command_arguments@) =~= views(old(command_arguments)@) + jvm_prefix(
            parameter.memory as nat,
        ));
        let ghost with_prefix = views(command_arguments@);
        match self {
            ArgumentDeclaration::V14(_) => {
                push_string(command_arguments, "-Djava.library.path=${natives_directory}");
                push_string(command_arguments, "-cp");
                push_string(command_arguments, "${classpath}");
                assert(views(command_arguments@) =~= with_prefix + v14_jvm_arguments());
                Ok(())
            },
            ArgumentDeclaration::V21(decl) => {
                let r = ArgumentDeclaration::check_rules_and_add(
                    command_arguments,
                    &decl.arguments.jvm,
                    features,
                    platform,
                );
                assert(views(command_arguments@) =~= views(old(command_arguments)@) + jvm_prefix(
                    parameter.memory as nat,
                ) + expand_arguments(decl.arguments.jvm@, features@, *platform).0);
                r
            },
        }
    }
}

/// Once the expansion of a prefix has failed, the expansion of every longer prefix fails the
/// same way and contributes nothing more.
proof fn lemma_expand_error_stays(args: Seq<Argument>, n: int, features: Seq<String>, platform: Platform)
    requires
        0 <= n <= args.len(),
        expand_arguments(args.take(n), features, platform).1 is Some,
    ensures
        expand_arguments(args, features, platform) == expand_arguments(
            args.take(n),
            features,
            platform,
        ),
    decreases args.len() - n,
{
    if n == args.len() {
        assert(args.take(n) =~= args);
    } else {
        assert(args.take(n + 1).drop_last() =~= args.take(n));
        lemma_expand_error_stays(args, n + 1, features, platform);
    }
}

/// `own` if present, otherwise the parent's.
pub open spec fn merge_option_spec<T>(own: Option<T>, parent: Option<T>) -> Option<T> {
    if own is Some {
        own
    } else {
        parent
    }
}

/// A profile keeps its own value of an option: the parent's only fills what the profile leaves
/// out. So a Fabric profile that names its own main class is started with it.
pub proof fn law_a_profile_keeps_its_own_option<T>(own: T, parent: Option<T>)
    ensures
        merge_option_spec(Some(own), parent) == Some(own),
        merge_option_spec(None::<T>, parent) == parent,
{
}

/// The larger of the two, where present.
pub open spec fn merge_larger_spec(own: Option<i32>, parent: Option<i32>) -> Option<i32> {
    match (own, parent) {
        (Some(a), Some(b)) => if a < b {
            parent
        } else {
            own
        },
        (None, _) => parent,
        (Some(_), None) => own,
    }
}

/// Whether the profile and its parent declare arguments the same way.
pub open spec fn same_declaration(a: ArgumentDeclaration, b: ArgumentDeclaration) -> bool {
    (a is V14 && b is V14) || (a is V21 && b is V21)
}

impl VersionProfile {
    /// Inherits from `parent`: what the profile leaves out comes from the parent, the higher
    /// launcher and compliance levels win, libraries are merged, and the parent's arguments
    /// follow the profile's own. A profile that declares its arguments the other way than its
    /// parent is refused; the other fields are merged by then.
    pub fn merge(&mut self, parent: VersionProfile) -> (r: Result<(), LauncherError>)
        ensures
            final(self).id == old(self).id,
            final(self).inherits_from == old(self).inherits_from,
            final(self).version_type == old(self).version_type,
            final(self).asset_index_location == merge_option_spec(
                old(self).asset_index_location,
                parent.asset_index_location,
            ),
            final(self).assets == merge_option_spec(old(self).assets, parent.assets),
            final(self).minimum_launcher_version == merge_larger_spec(
                old(self).minimum_launcher_version,
                parent.minimum_launcher_version,
            ),
            final(self).downloads == merge_option_spec(old(self).downloads, parent.downloads),
            final(self).compliance_level == merge_larger_spec(
                old(self).compliance_level,
                parent.compliance_level,
            ),
            lib_views(final(self).libraries@) == merge_libraries_spec(
                lib_views(old(self).libraries@),
                lib_views(parent.libraries@),
            ),
            final(self).main_class == merge_option_spec(old(self).main_class, parent.main_class),
            final(self).logging == merge_option_spec(old(self).logging, parent.logging),
            r is Ok <==> same_declaration(old(self).arguments, parent.arguments),
            r is Err ==> {
                &&& final(self).arguments == old(self).arguments
                &&& r matches Err(LauncherError::InvalidVersionProfile(message))
                &&& message@ == "version profile inherits from incompatible profile"@
            },
            match (old(self).arguments, parent.arguments) {
                (ArgumentDeclaration::V14(own), ArgumentDeclaration::V14(theirs)) => {
                    &&& final(self).arguments matches ArgumentDeclaration::V14(merged)
                    &&& merged.minecraft_arguments == merge_option_spec(
                        own.minecraft_arguments,
                        theirs.minecraft_arguments,
                    )
                },
                (ArgumentDeclaration::V21(own), ArgumentDeclaration::V21(theirs)) => {
                    &&& final(self).arguments matches ArgumentDeclaration::V21(merged)
                    &&& merged.arguments.game@ == own.arguments.game@ + theirs.arguments.game@
                    &&& merged.arguments.jvm@ == own.arguments.jvm@ + theirs.arguments.jvm@
                },
                _ => true,
            },
    {
        let VersionProfile {
            id: _,
            asset_index_location,
            assets,
            inherits_from: _,
            minimum_launcher_version,
            downloads,
            compliance_level,
            libraries,
            main_class,
            logging,
            version_type: _,
            arguments,
        } = parent;
        Self::merge_options(&mut self.asset_index_location, asset_index_location);
        Self::merge_options(&mut self.assets, assets);
        Self::merge_larger(&mut self.minimum_launcher_version, minimum_launcher_version);
        Self::merge_options(&mut self.downloads, downloads);
        Self::merge_larger(&mut self.compliance_level, compliance_level);
        Self::merge_libraries(&mut self.libraries, libraries);
        Self::merge_options(&mut self.main_class, main_class);
        Self::merge_options(&mut self.logging, logging);

        let mut own = ArgumentDeclaration::V14(V14ArgumentDeclaration { minecraft_arguments: None });
        std::mem::swap(&mut own, &mut self.arguments);
        match own {
            ArgumentDeclaration::V14(own_decl) => {
                if let ArgumentDeclaration::V14(theirs) = arguments {
                    let mut line = own_decl.minecraft_arguments;
                    Self::merge_options(&mut line, theirs.minecraft_arguments);
                    self.arguments = ArgumentDeclaration::V14(
                        V14ArgumentDeclaration { minecraft_arguments: line },
                    );
                    Ok(())
                } else {
                    self.arguments = ArgumentDeclaration::V14(own_decl);
                    Err(Self::incompatible())
                }
            },
            ArgumentDeclaration::V21(own_decl) => {
                if let ArgumentDeclaration::V21(theirs) = arguments {
                    let Arguments { game, jvm } = own_decl.arguments;
                    let Arguments { game: parent_game, jvm: parent_jvm } = theirs.arguments;
                    let mut game = game;
                    let mut jvm = jvm;
                    let mut parent_game = parent_game;
                    let mut parent_jvm = parent_jvm;
                    game.append(&mut parent_game);
                    jvm.append(&mut parent_jvm);
                    self.arguments = ArgumentDeclaration::V21(
                        V21ArgumentDeclaration { arguments: Arguments { game, jvm } },
                    );
                    Ok(())
                } else {
                    self.arguments = ArgumentDeclaration::V21(own_decl);
                    Err(Self::incompatible())
                }
            },
        }
    }

    fn incompatible() -> (e: LauncherError)
        ensures
            e matches LauncherError::InvalidVersionProfile(message) && message@
                == "version profile inherits from incompatible profile"@,
    {
        let mut message = String::new();
        push_str(&mut message, "version profile inherits from incompatible profile");
        LauncherError::InvalidVersionProfile(message)
    }

    /// Folds the libraries of a parent profile into `current_libraries`: a library the
    /// profile has too is merged into its own, the others are added. Of libraries with the
    /// same identifier in the profile only the last is kept.
    pub fn merge_libraries(current_libraries: &mut Vec<Library>, parent_libraries: Vec<Library>)
        ensures
            lib_views(final(current_libraries)@) == merge_libraries_spec(
                lib_views(old(current_libraries)@),
                lib_views(parent_libraries@),
            ),
    {
        merge_library_lists(current_libraries, parent_libraries);
    }

    /// Takes the parent's value where there is none.
    pub fn merge_options<T>(a: &mut Option<T>, b: Option<T>)
        ensures
            *final(a) == merge_option_spec(*old(a), b),
            *old(a) is Some ==> *final(a) == *old(a),
            *old(a) is None ==> *final(a) == b,
    {
        if a.is_none() {
            *a = b;
        }
    }

    /// Keeps the larger value, or the one there is.
    pub fn merge_larger(a: &mut Option<i32>, b: Option<i32>)
        ensures
            *final(a) == merge_larger_spec(*old(a), b),
    {
        match (*a, b) {
            (Some(x), Some(y)) => {
                if x < y {
                    *a = b;
                }
            },
            (None, _) => {
                *a = b;
            },
            (Some(_), None) => {},
        }
    }
}

impl AssetObject {
    /// Whether the hash begins with two ASCII characters, which name the directory the asset is
    /// kept in.
    pub open spec fn has_directory(&self) -> bool {
        self.hash@.len() >= 2 && (self.hash@[0] as u32) < 128 && (self.hash@[1] as u32) < 128
    }

    /// The directory an asset is kept in below the objects directory: the first two characters
    /// of its hash. The file in it is named by the whole hash.
    pub fn directory(&self) -> (r: String)
        requires
            self.has_directory(),
        ensures
            r@ == self.hash@.take(2),
    {
        let chars = chars_of(self.hash.as_str());
        let mut r = String::new();
        push_char(&mut r, chars[0]);
        push_char(&mut r, chars[1]);
        assert(r@ =~= self.hash@.take(2));
        r
    }

    /// Where Mojang serves the asset.
    pub fn url(&self) -> (r: String)
        requires
            self.has_directory(),
        ensures
            r@ == "https://resources.download.minecraft.net/"@ + self.hash@.take(2) + "/"@ + self.hash@,
    {
        let mut r = String::new();
        push_str(&mut r, "https://resources.download.minecraft.net/");
        let directory = self.directory();
        push_str(&mut r, directory.as_str());
        push_str(&mut r, "/");
        push_str(&mut r, self.hash.as_str());
        r
    }
}

impl AssetIndexLocation {
    /// The file the index is kept in below the indexes directory.
    pub fn file_name(&self) -> (r: String)
        ensures
            r@ == self.id@ + ".json"@,
    {
        let mut r = self.id.clone();
        push_str(&mut r, ".json");
        r
    }
}

impl VersionProfile {
    /// The client jar the profile offers; a profile without one is refused.
    pub fn client_download(&self) -> (r: Result<&Download, LauncherError>)
        ensures
            match self.downloads {
                Some(d) => match d.client {
                    Some(c) => r == Ok::<&Download, LauncherError>(&c),
                    None => (r matches Err(LauncherError::InvalidVersionProfile(message)) && message@
                        == "No client JAR downloads were specified."@),
                },
                None => (r matches Err(LauncherError::InvalidVersionProfile(message)) && message@
                    == "No client JAR downloads were specified."@),
            },
    {
        if let Some(downloads) = &self.downloads {
            if let Some(client) = &downloads.client {
                return Ok(client);
            }
        }
        let mut message = String::new();
        push_str(&mut message, "No client JAR downloads were specified.");
        Err(LauncherError::InvalidVersionProfile(message))
    }

    /// The file the client jar is kept in below the version's directory.
    pub fn client_jar_name(&self) -> (r: String)
        ensures
            r@ == self.id@ + ".jar"@,
    {
        let mut r = self.id.clone();
        push_str(&mut r, ".jar");
        r
    }

    /// The asset index the profile names; a profile without one is refused.
    pub fn asset_index(&self) -> (r: Result<&AssetIndexLocation, LauncherError>)
        ensures
            match self.asset_index_location {
                Some(a) => r == Ok::<&AssetIndexLocation, LauncherError>(&a),
                None => (r matches Err(LauncherError::InvalidVersionProfile(message)) && message@
                    == "Asset index unspecified"@),
            },
    {
        match &self.asset_index_location {
            Some(a) => Ok(a),
            None => {
                let mut message = String::new();
                push_str(&mut message, "Asset index unspecified");
                Err(LauncherError::InvalidVersionProfile(message))
            },
        }
    }
}

} // verus!
