//! Which libraries a launch puts on the class path, and which native jars it unpacks.

use vstd::prelude::*;
use crate::error::LauncherError;
use crate::minecraft::progress::{ProgressUpdate, ProgressUpdateSteps};
use crate::minecraft::rule_interpreter::{check_condition, check_condition_spec, Platform};
use crate::minecraft::version::{Library, LibraryDownloadInfo};
use crate::utils::assoc::{assoc_find, assoc_position, lemma_assoc_find};
use crate::utils::maven::artifact_path_spec;
use crate::utils::os::{path_separator_spec, OperatingSystem};
use crate::utils::text::{push_str, views};

verus! {

/// What a launch does with a library.
pub enum LibraryPlan {
    /// Its rules leave it out on this system, or cannot be decided.
    Skip,
    /// Downloads this native jar and unpacks it into the natives directory.
    Native(LibraryDownloadInfo),
    /// It has natives, but none for this system.
    NoNative,
    /// Downloads this jar and puts it on the class path.
    Artifact(LibraryDownloadInfo),
}

/// Which way `library_plan` goes for a library.
pub enum PlanShape {
    Skip,
    Native,
    NoNative,
    Artifact,
    /// Natives for this system, but no classifiers to take them from.
    MissingClassifiers,
}

/// Which way `library_plan` goes for `library` on `platform`.
pub open spec fn library_plan_kind(library: Library, features: Seq<String>, platform: Platform) -> PlanShape {
    if check_condition_spec(library.rules@, features, platform) != Ok::<bool, LauncherError>(true) {
        PlanShape::Skip
    } else {
        match library.natives {
            Some(natives) => match assoc_find(natives@, platform.os.simple_name_spec()) {
                None => PlanShape::NoNative,
                Some(k) => match library.downloads {
                    Some(downloads) => match downloads.classifiers {
                        Some(classifiers) => match assoc_find(classifiers@, natives@[k].1@) {
                            Some(_) => PlanShape::Native,
                            None => PlanShape::NoNative,
                        },
                        None => PlanShape::MissingClassifiers,
                    },
                    None => PlanShape::MissingClassifiers,
                },
            },
            None => PlanShape::Artifact,
        }
    }
}

/// What `library_plan` decides for `library` on `platform`, way by way.
pub open spec fn plan_spec(
    r: Result<LibraryPlan, LauncherError>,
    library: Library,
    features: Seq<String>,
    platform: Platform,
) -> bool {
    &&& (library_plan_kind(library, features, platform) == PlanShape::Skip ==> r matches Ok(LibraryPlan::Skip))
    &&& (library_plan_kind(library, features, platform) == PlanShape::NoNative ==> r matches Ok(LibraryPlan::NoNative))
    &&& (library_plan_kind(library, features, platform) == PlanShape::MissingClassifiers ==> (r matches Err(
        LauncherError::InvalidVersionProfile(message),
    ) && message@ == "missing classifiers, but natives required."@))
    &&& (library_plan_kind(library, features, platform) == PlanShape::Native ==> ({
        let natives = library.natives->0@;
        let classifier = natives[assoc_find(natives, platform.os.simple_name_spec())->0].1@;
        let classifiers = library.downloads->0.classifiers->0@;
        r == Ok::<LibraryPlan, LauncherError>(
            LibraryPlan::Native(
                LibraryDownloadInfo::from_spec(classifiers[assoc_find(classifiers, classifier)->0].1),
            ),
        )
    }))
    &&& (library_plan_kind(library, features, platform) == PlanShape::Artifact ==> match library.artifact_spec() {
        Some(artifact) => r == Ok::<LibraryPlan, LauncherError>(
            LibraryPlan::Artifact(LibraryDownloadInfo::from_spec(artifact)),
        ),
        None => match artifact_path_spec(library.name@) {
            Some(path) => (r matches Ok(LibraryPlan::Artifact(info)) && {
                &&& info.path@ == path
                &&& info.url@ == library.repository_spec() + path
                &&& info.sha1 is None
                &&& info.size is None
            }),
            None => (r matches Err(LauncherError::InvalidVersionProfile(message))
                && message@ == "Invalid artifact name: "@ + library.name@),
        },
    })
}

/// A library on the class path that lists no artifact but names its own repository `url` is
/// downloaded from `url` followed by its Maven path, whatever Mojang's repository holds.
pub proof fn law_a_planned_jar_comes_from_the_library_repository(
    r: Result<LibraryPlan, LauncherError>,
    library: Library,
    features: Seq<String>,
    platform: Platform,
    url: String,
    path: Seq<char>,
)
    requires
        plan_spec(r, library, features, platform),
        library_plan_kind(library, features, platform) == PlanShape::Artifact,
        library.artifact_spec() is None,
        library.url == Some(url),
        artifact_path_spec(library.name@) == Some(path),
    ensures
        r matches Ok(LibraryPlan::Artifact(info)) && info.url@ == url@ + path && info.path@ == path,
{
}

/// Decides what a launch does with `library`: libraries the rules leave out are skipped; a
/// library with natives gives the native jar of this system's classifier (an error when it
/// lists no classifiers at all); any other gives its jar for the class path.
pub fn library_plan(library: &Library, features: &Vec<String>, platform: &Platform) -> (r: Result<
    LibraryPlan,
    LauncherError,
>)
    requires
        platform.os != OperatingSystem::UNKNOWN,
    ensures
        plan_spec(r, *library, features@, *platform),
{
    match check_condition(&library.rules, features, platform) {
        Ok(true) => {},
        _ => {
            return Ok(LibraryPlan::Skip);
        },
    }
    match &library.natives {
        Some(natives) => {
            let mut system = String::new();
            push_str(&mut system, platform.os.get_simple_name());
            proof {
                lemma_assoc_find(natives@, system@);
            }
            match assoc_position(natives, &system) {
                None => Ok(LibraryPlan::NoNative),
                Some(k) => {
                    let classifier = &natives[k].1;
                    match &library.downloads {
                        Some(downloads) => match &downloads.classifiers {
                            Some(classifiers) => {
                                proof {
                                    lemma_assoc_find(classifiers@, classifier@);
                                }
                                match assoc_position(classifiers, classifier) {
                                    Some(j) => Ok(LibraryPlan::Native(LibraryDownloadInfo::from(&classifiers[j].1))),
                                    None => Ok(LibraryPlan::NoNative),
                                }
                            },
                            None => Err(missing_classifiers()),
                        },
                        None => Err(missing_classifiers()),
                    }
                },
            }
        },
        None => match library.get_library_download() {
            Ok(info) => Ok(LibraryPlan::Artifact(info)),
            Err(e) => Err(e),
        },
    }
}

fn missing_classifiers() -> (e: LauncherError)
    ensures
        e matches LauncherError::InvalidVersionProfile(message) && message@
            == "missing classifiers, but natives required."@,
{
    let mut message = String::new();
    push_str(&mut message, "missing classifiers, but natives required.");
    LauncherError::InvalidVersionProfile(message)
}

/// Each path followed by the separator, one after the other.
pub open spec fn class_path_spec(paths: Seq<Seq<char>>, separator: Seq<char>) -> Seq<char>
    decreases paths.len(),
{
    if paths.len() == 0 {
        Seq::empty()
    } else {
        class_path_spec(paths.drop_last(), separator) + paths.last() + separator
    }
}

/// Appends the jars to the class path, each followed by the system's separator.
pub fn extend_class_path(class_path: &mut String, paths: &Vec<String>, os: OperatingSystem)
    requires
        os != OperatingSystem::UNKNOWN,
    ensures
        final(class_path)@ == old(class_path)@ + class_path_spec(
            views(paths@),
            path_separator_spec(os == OperatingSystem::WINDOWS),
        ),
{
    let separator = os.get_path_separator();
    let ghost sep = path_separator_spec(os == OperatingSystem::WINDOWS);
    let mut i: usize = 0;
    while i < paths.len()
        invariant
            i <= paths.len(),
            separator@ == sep,
            class_path@ == old(class_path)@ + class_path_spec(views(paths@).take(i as int), sep),
        decreases paths.len() - i,
    {
        assert(views(paths@).take(i + 1).drop_last() =~= views(paths@).take(i as int));
        assert(views(paths@).take(i + 1).last() == paths@[i as int]@);
        push_str(class_path, paths[i].as_str());
        push_str(class_path, separator);
        i = i + 1;
        assert(class_path@ =~= old(class_path)@ + class_path_spec(views(paths@).take(i as int), sep));
    }
    assert(views(paths@).take(paths@.len() as int) =~= views(paths@));
}

/// The class path entries from what setting up each library gave, in order: the first
/// failure, if any, is the launch's; else the path of each library that has one (natives and
/// skipped libraries give none).
pub open spec fn class_paths_spec(outcomes: Seq<Result<Option<String>, String>>) -> Result<Seq<Seq<char>>, Seq<char>>
    decreases outcomes.len(),
{
    if outcomes.len() == 0 {
        Ok(Seq::empty())
    } else {
        match class_paths_spec(outcomes.drop_last()) {
            Err(e) => Err(e),
            Ok(paths) => match outcomes.last() {
                Err(e) => Err(e@),
                Ok(Some(path)) => Ok(paths.push(path@)),
                Ok(None) => Ok(paths),
            },
        }
    }
}

/// The class path entries from what setting up each library gave: the first failure, or the
/// paths of the libraries that have one, in order.
pub fn library_class_paths(outcomes: &Vec<Result<Option<String>, String>>) -> (r: Result<Vec<String>, String>)
    ensures
        match class_paths_spec(outcomes@) {
            Ok(paths) => r matches Ok(found) && views(found@) == paths,
            Err(e) => r matches Err(message) && message@ == e,
        },
{
    let mut found: Vec<String> = Vec::new();
    let mut i: usize = 0;
    assert(outcomes@.take(0) =~= Seq::<Result<Option<String>, String>>::empty());
    assert(views(found@) =~= Seq::<Seq<char>>::empty());
    while i < outcomes.len()
        invariant
            i <= outcomes@.len(),
            class_paths_spec(outcomes@.take(i as int)) == Ok::<Seq<Seq<char>>, Seq<char>>(views(found@)),
        decreases outcomes@.len() - i,
    {
        assert(outcomes@.take(i + 1).drop_last() =~= outcomes@.take(i as int));
        assert(outcomes@.take(i + 1).last() == outcomes@[i as int]);
        match &outcomes[i] {
            Err(e) => {
                let message = e.clone();
                assert(class_paths_spec(outcomes@.take(i + 1)) == Err::<Seq<Seq<char>>, Seq<char>>(e@));
                proof {
                    lemma_first_failure_stays(outcomes@, i + 1);
                }
                return Err(message);
            },
            Ok(Some(path)) => {
                let ghost before = found@;
                found.push(path.clone());
                assert(found@ == before.push(*path));
                assert(views(found@) =~= views(before).push(path@));
            },
            Ok(None) => {},
        }
        i = i + 1;
    }
    assert(outcomes@.take(outcomes@.len() as int) =~= outcomes@);
    Ok(found)
}

/// A failure among the first outcomes stays the answer whatever follows.
proof fn lemma_first_failure_stays(outcomes: Seq<Result<Option<String>, String>>, n: int)
    requires
        0 <= n <= outcomes.len(),
        class_paths_spec(outcomes.take(n)) is Err,
    ensures
        class_paths_spec(outcomes) == class_paths_spec(outcomes.take(n)),
    decreases outcomes.len() - n,
{
    if n < outcomes.len() {
        assert(outcomes.take(n + 1).drop_last() =~= outcomes.take(n));
        lemma_first_failure_stays(outcomes, n + 1);
    } else {
        assert(outcomes.take(n) =~= outcomes);
    }
}

/// The plans for the libraries of a profile, one for each, in order.
pub fn library_plans(libraries: &Vec<Library>, features: &Vec<String>, platform: &Platform) -> (r: Vec<
    Result<LibraryPlan, LauncherError>,
>)
    requires
        platform.os != OperatingSystem::UNKNOWN,
    ensures
        r@.len() == libraries@.len(),
        forall|i: int| 0 <= i < r@.len() ==> plan_spec(#[trigger] r@[i], libraries@[i], features@, *platform),
{
    let mut r: Vec<Result<LibraryPlan, LauncherError>> = Vec::new();
    let mut i: usize = 0;
    while i < libraries.len()
        invariant
            i <= libraries@.len(),
            platform.os != OperatingSystem::UNKNOWN,
            r@.len() == i,
            forall|k: int| 0 <= k < i ==> plan_spec(#[trigger] r@[k], libraries@[k], features@, *platform),
        decreases libraries@.len() - i,
    {
        r.push(library_plan(&libraries[i], features, platform));
        i = i + 1;
    }
    r
}

/// Where setting up the libraries of a launch stands.
pub enum LibrarySetup {
    /// Nothing done yet, for a profile of `total` libraries.
    Ready { total: u64 },
    /// The libraries are being set up.
    Fetching { total: u64 },
    /// Done, well or not.
    Done,
}

/// What happens while the libraries are set up.
pub enum LibraryEvent {
    /// The setup begins.
    Start,
    /// What setting up each library that was not skipped gave, in the order they finished: the
    /// failure, or the path it adds to the class path (a native adds none).
    Fetched(Vec<Result<Option<String>, String>>),
}

/// What the launcher does next.
pub enum LibraryAction {
    /// Tells the progress bar.
    Progress(ProgressUpdate),
    /// Sets up each library by its plan (downloads its jar, unpacks natives) and reports what
    /// each gave.
    SetUp,
    /// Appends these paths to the class path, each followed by the system's separator.
    AddToClassPath(Vec<String>),
    /// The setup failed with this error.
    Fail(String),
    /// The setup is done.
    Finish,
}

/// How many libraries a setup can count on the progress bar.
pub open spec fn countable(total: u64) -> bool {
    0 < total && total * 1024 <= u64::MAX
}

/// Whether the setup counts a number of libraries it can show.
pub open spec fn setup_wf(state: LibrarySetup) -> bool {
    match state {
        LibrarySetup::Ready { total } => countable(total),
        LibrarySetup::Fetching { total } => countable(total),
        LibrarySetup::Done => true,
    }
}

impl LibrarySetup {
    /// The setup of a profile's `count` libraries, before it begins. A profile without libraries
    /// has no progress to show (its share of the bar would divide by zero).
    pub fn begin(count: usize) -> (r: LibrarySetup)
        requires
            0 < count,
            count * 1024 <= u64::MAX,
        ensures
            r == (LibrarySetup::Ready { total: count as u64 }),
            setup_wf(r),
    {
        LibrarySetup::Ready { total: count as u64 }
    }
}

/// The next step of setting up the libraries. At the start: the label "Checking libraries...",
/// the bar at the beginning of the library step (none of them done), then the setup of each
/// library. Once every library reported: the first failure ends the setup with it; otherwise
/// the paths join the class path in the order reported, the bar stands at the end of the
/// library step (all of them done), and the setup is done. Any other event changes nothing.
pub fn library_setup_step(state: LibrarySetup, event: LibraryEvent) -> (r: (LibrarySetup, Vec<LibraryAction>))
    requires
        setup_wf(state),
    ensures
        setup_wf(r.0),
        match (state, event) {
            (LibrarySetup::Ready { total }, LibraryEvent::Start) => {
                &&& r.0 == (LibrarySetup::Fetching { total })
                &&& r.1@.len() == 3
                &&& r.1@[0] matches LibraryAction::Progress(ProgressUpdate::SetLabel(l)) && l@
                    == "Checking libraries..."@
                &&& r.1@[1] == LibraryAction::Progress(ProgressUpdate::SetProgress(3072u64))
                &&& r.1@[2] is SetUp
            },
            (LibrarySetup::Fetching { total }, LibraryEvent::Fetched(outcomes)) => {
                &&& r.0 == LibrarySetup::Done
                &&& match class_paths_spec(outcomes@) {
                    Err(e) => r.1@.len() == 1 && (r.1@[0] matches LibraryAction::Fail(message) && message@ == e),
                    Ok(paths) => {
                        &&& r.1@.len() == 3
                        &&& r.1@[0] matches LibraryAction::AddToClassPath(found) && views(found@) == paths
                        &&& r.1@[1] == LibraryAction::Progress(ProgressUpdate::SetProgress(4096u64))
                        &&& r.1@[2] is Finish
                    },
                }
            },
            _ => r.0 == state && r.1@.len() == 0,
        },
{
    match (state, event) {
        (LibrarySetup::Ready { total }, LibraryEvent::Start) => {
            let mut actions: Vec<LibraryAction> = Vec::new();
            actions.push(LibraryAction::Progress(ProgressUpdate::set_label("Checking libraries...")));
            assert((0u64 * 1024) / (total as int) == 0) by (nonlinear_arith)
                requires
                    total > 0,
            ;
            actions.push(
                LibraryAction::Progress(ProgressUpdate::set_for_step(ProgressUpdateSteps::DownloadLibraries, 0, total)),
            );
            actions.push(LibraryAction::SetUp);
            (LibrarySetup::Fetching { total }, actions)
        },
        (LibrarySetup::Fetching { total }, LibraryEvent::Fetched(outcomes)) => {
            let mut actions: Vec<LibraryAction> = Vec::new();
            match library_class_paths(&outcomes) {
                Err(message) => {
                    actions.push(LibraryAction::Fail(message));
                },
                Ok(found) => {
                    actions.push(LibraryAction::AddToClassPath(found));
                    assert((total * 1024) / (total as int) == 1024) by (nonlinear_arith)
                        requires
                            total > 0,
                    ;
                    actions.push(
                        LibraryAction::Progress(
                            ProgressUpdate::set_for_step(ProgressUpdateSteps::DownloadLibraries, total, total),
                        ),
                    );
                    actions.push(LibraryAction::Finish);
                },
            }
            (LibrarySetup::Done, actions)
        },
        (state, _) => (state, Vec::new()),
    }
}

/// Where the checksum a library is checked against comes from.
#[derive(Debug, PartialEq, Eq)]
pub enum Sha1Source {
    /// The profile names it.
    Known(String),
    /// A `.sha1` file beside the library, kept from an earlier download.
    Beside,
    /// The repository serves it beside the library; without an answer there is none.
    Fetch,
}

/// Where a library's checksum comes from: the profile's, else the file kept beside the library,
/// else the repository's.
pub fn sha1_source(known: Option<String>, beside_exists: bool) -> (r: Sha1Source)
    ensures
        match known {
            Some(s) => r == Sha1Source::Known(s),
            None => if beside_exists { r == Sha1Source::Beside } else { r == Sha1Source::Fetch },
        },
{
    match known {
        Some(s) => Sha1Source::Known(s),
        None => if beside_exists {
            Sha1Source::Beside
        } else {
            Sha1Source::Fetch
        },
    }
}

/// What becomes of a library file that is already there.
#[derive(Debug, PartialEq, Eq)]
pub enum Existing {
    /// It stays and is used.
    Keep,
    /// It is removed and downloaded again.
    Replace,
}

/// What becomes of a library file that is already there, with checksum `hash`, and the line
/// logged about it: kept where no checksum is known or it matches, else replaced.
pub fn existing_library(name: &str, hash: &String, sha1: &Option<String>) -> (r: (Existing, String))
    ensures
        match sha1 {
            Some(s) => if s@ == hash@ {
                r.0 == Existing::Keep && r.1@ == "Library "@ + name@ + " already exists and SHA1 matches."@
            } else {
                r.0 == Existing::Replace && r.1@ == "Library "@ + name@ + " already exists but sha1 does not match."@
            },
            None => r.0 == Existing::Keep && r.1@ == "Library "@ + name@ + " already exists."@,
        },
{
    let mut line = String::new();
    push_str(&mut line, "Library ");
    push_str(&mut line, name);
    match sha1 {
        Some(s) => {
            if crate::utils::text::str_eq(s.as_str(), hash.as_str()) {
                push_str(&mut line, " already exists and SHA1 matches.");
                (Existing::Keep, line)
            } else {
                push_str(&mut line, " already exists but sha1 does not match.");
                (Existing::Replace, line)
            }
        },
        None => {
            push_str(&mut line, " already exists.");
            (Existing::Keep, line)
        },
    }
}

/// Whether a library just downloaded, with checksum `hash`, is the one expected; where no
/// checksum is known, any is.
pub fn downloaded_library(name: &str, hash: &String, sha1: &Option<String>) -> (r: Result<(), String>)
    ensures
        match sha1 {
            Some(s) => if s@ == hash@ {
                r is Ok
            } else {
                r matches Err(message) && message@ == "SHA1 of library "@ + name@ + " does not match."@
            },
            None => r is Ok,
        },
{
    match sha1 {
        Some(s) => {
            if crate::utils::text::str_eq(s.as_str(), hash.as_str()) {
                Ok(())
            } else {
                let mut message = String::new();
                push_str(&mut message, "SHA1 of library ");
                push_str(&mut message, name);
                push_str(&mut message, " does not match.");
                Err(message)
            }
        },
        None => Ok(()),
    }
}

/// Whether the client jar just downloaded, with checksum `hash`, is the one the profile names.
pub fn downloaded_client_jar(hash: &String, sha1: &String) -> (r: Result<(), String>)
    ensures
        sha1@ == hash@ ==> r is Ok,
        sha1@ != hash@ ==> (r matches Err(message) && message@ == "Client JAR download failed. SHA1 mismatch."@),
{
    if crate::utils::text::str_eq(sha1.as_str(), hash.as_str()) {
        Ok(())
    } else {
        let mut message = String::new();
        push_str(&mut message, "Client JAR download failed. SHA1 mismatch.");
        Err(message)
    }
}

} // verus!
