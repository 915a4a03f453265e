//! The build that launches, and the builds to choose from as the Client tab lists them.

use vstd::prelude::*;
use crate::app::client_api::{Build, PaginatedResponse};
use crate::utils::text::{chars_of, push_char, string_of};

verus! {

/// The build that launches, as fetched last for a choice of build and nightly builds.
pub struct SelectedBuild {
    /// The chosen build, `-1` for the latest.
    pub build_id: i32,
    pub nightly: bool,
    pub build: Build,
}

impl SelectedBuild {
    /// A chosen build does not change with the nightly builds shown, "Latest" does.
    pub open spec fn is_for_spec(&self, build_id: i32, nightly: bool) -> bool {
        self.build_id == build_id && (build_id != -1 || self.nightly == nightly)
    }

    pub fn is_for(&self, build_id: i32, nightly: bool) -> (r: bool)
        ensures
            r == self.is_for_spec(build_id, nightly),
    {
        self.build_id == build_id && (build_id != -1 || self.nightly == nightly)
    }
}

/// A pinned build is kept whatever nightly builds are shown; "Latest" only for the same
/// choice of nightly builds.
pub proof fn law_pinned_builds_ignore_nightly(kept: SelectedBuild, build_id: i32, a: bool, b: bool)
    ensures
        build_id != -1 ==> kept.is_for_spec(build_id, a) == kept.is_for_spec(build_id, b),
        build_id == -1 && kept.is_for_spec(build_id, a) && kept.is_for_spec(build_id, b) ==> a == b,
{
}

/// The build kept from last time, if it is for the same choice.
pub fn kept(last: &Option<SelectedBuild>, build_id: i32, nightly: bool) -> (r: Option<&Build>)
    ensures
        match last {
            Some(k) => if k.is_for_spec(build_id, nightly) {
                r == Some(&k.build)
            } else {
                r is None
            },
            None => r is None,
        },
{
    match last {
        Some(k) => if k.is_for(build_id, nightly) {
            Some(&k.build)
        } else {
            None
        },
        None => None,
    }
}

/// The build chosen in the options among `builds`: the first, newest, one for `-1`, else the
/// first with that id; none where there is no such build.
pub fn select(builds: &Vec<Build>, build_id: i32) -> (r: Option<&Build>)
    ensures
        build_id == -1 ==> if builds@.len() > 0 { r == Some(&builds@[0]) } else { r is None },
        build_id != -1 ==> match r {
            Some(b) => exists|i: int| {
                &&& 0 <= i < builds@.len()
                &&& b == &builds@[i]
                &&& builds@[i].build_id as int == build_id as int
                &&& forall|j: int| 0 <= j < i ==> (#[trigger] builds@[j]).build_id as int != build_id as int
            },
            None => forall|i: int| 0 <= i < builds@.len() ==> (#[trigger] builds@[i]).build_id as int
                != build_id as int,
        },
{
    if build_id == -1 {
        if builds.len() > 0 {
            return Some(&builds[0]);
        }
        return None;
    }
    if build_id < 0 {
        return None;
    }
    let wanted: u32 = build_id as u32;
    let mut i: usize = 0;
    while i < builds.len()
        invariant
            i <= builds@.len(),
            build_id >= 0,
            wanted as int == build_id as int,
            forall|j: int| 0 <= j < i ==> (#[trigger] builds@[j]).build_id as int != build_id as int,
        decreases builds@.len() - i,
    {
        if builds[i].build_id == wanted {
            return Some(&builds[i]);
        }
        i = i + 1;
    }
    None
}

/// How the build that launches was chosen.
#[derive(Debug, PartialEq, Eq)]
pub enum Selection {
    /// Whatever is newest when launching, a release or a nightly build now.
    Latest { release: bool },
    Pinned { date: String, commit: String },
}

/// The first seven characters of the commit, as the launcher shows it.
pub open spec fn short_commit_spec(build: Build) -> Seq<char> {
    if build.commit_id@.len() <= 7 {
        build.commit_id@
    } else {
        build.commit_id@.take(7)
    }
}

pub fn short_commit(build: &Build) -> (r: String)
    ensures
        r@ == short_commit_spec(*build),
{
    let chars = chars_of(build.commit_id.as_str());
    let mut r = String::new();
    let mut i: usize = 0;
    while i < chars.len() && i < 7
        invariant
            chars@ == build.commit_id@,
            i <= chars.len(),
            i <= 7,
            r@ == chars@.take(i as int),
        decreases 7 - i,
    {
        push_char(&mut r, chars[i]);
        i = i + 1;
        assert(r@ =~= chars@.take(i as int));
    }
    assert(chars@.len() <= 7 ==> chars@.take(chars@.len() as int) =~= chars@);
    r
}

impl Selection {
    /// "Latest", with whether it is a release now, or the build pinned with its date (shown
    /// in the local time zone, given as `date`) and commit.
    pub fn of(build: &Build, latest: bool, date: String) -> (r: Self)
        ensures
            latest ==> r == (Selection::Latest { release: build.release }),
            !latest ==> (r matches Selection::Pinned { date: d, commit } && d == date
                && commit@ == short_commit_spec(*build)),
    {
        if latest {
            Selection::Latest { release: build.release }
        } else {
            Selection::Pinned { date, commit: short_commit(build) }
        }
    }
}

/// A build as the list of builds shows it.
pub struct BuildChoice {
    pub build_id: u32,
    pub liquidbounce: String,
    pub minecraft: String,
    pub date: String,
    /// The first line of the commit message.
    pub message: String,
    pub commit: String,
    pub selected: bool,
}

/// A page of the builds, newest first.
pub struct BuildPage {
    /// Whether "Latest" is selected rather than a build.
    pub latest: bool,
    pub builds: Vec<BuildChoice>,
    pub page: u32,
    pub pages: u32,
    /// Builds across all pages.
    pub total: u32,
}

/// Where the first line of `s` ends: at the first line feed, or the end.
pub open spec fn line_end(s: Seq<char>, i: int) -> int
    decreases s.len() - i,
{
    if i >= s.len() || s[i] == '\n' {
        i
    } else {
        line_end(s, i + 1)
    }
}

/// The first line of `s`, without its line break (`\n` or `\r\n`).
pub open spec fn first_line_spec(s: Seq<char>) -> Seq<char> {
    let line = s.take(line_end(s, 0));
    if line.len() > 0 && line.last() == '\r' && line_end(s, 0) < s.len() {
        line.drop_last()
    } else {
        line
    }
}

proof fn lemma_line_end(s: Seq<char>, i: int)
    requires
        0 <= i <= s.len(),
    ensures
        i <= line_end(s, i) <= s.len(),
    decreases s.len() - i,
{
    if i < s.len() && s[i] != '\n' {
        lemma_line_end(s, i + 1);
    }
}

/// The first line of a commit message.
pub fn first_line(s: &String) -> (r: String)
    ensures
        r@ == first_line_spec(s@),
{
    let chars = chars_of(s.as_str());
    let mut i: usize = 0;
    proof {
        lemma_line_end(s@, 0);
    }
    while i < chars.len() && chars[i] != '\n'
        invariant
            chars@ == s@,
            i <= chars.len(),
            line_end(s@, 0) == line_end(s@, i as int),
        decreases chars.len() - i,
    {
        i = i + 1;
    }
    let mut end = i;
    if i < chars.len() && end > 0 && chars[end - 1] == '\r' {
        end = end - 1;
    }
    let mut line: Vec<char> = Vec::new();
    let mut j: usize = 0;
    while j < end
        invariant
            chars@ == s@,
            end <= chars.len(),
            j <= end,
            line@ == chars@.take(j as int),
        decreases end - j,
    {
        line.push(chars[j]);
        j = j + 1;
        assert(line@ =~= chars@.take(j as int));
    }
    proof {
        if i > 0 {
            assert(s@.take(i as int).drop_last() =~= s@.take(i - 1));
        }
    }
    string_of(line.as_slice())
}

/// One page of builds as the list shows it. `dates` holds the date of each build, in the local
/// time zone; `selected` is the chosen build id, `-1` for the latest.
pub fn build_page(response: &PaginatedResponse<Build>, dates: Vec<String>, selected: i32) -> (r: BuildPage)
    requires
        dates@.len() == response.items@.len(),
    ensures
        r.latest == (selected == -1),
        r.page == response.pagination.current,
        r.pages == response.pagination.pages,
        r.total == response.pagination.items,
        r.builds@.len() == response.items@.len(),
        forall|i: int| 0 <= i < r.builds@.len() ==> {
            let build = #[trigger] response.items@[i];
            let choice = r.builds@[i];
            &&& choice.build_id == build.build_id
            &&& choice.liquidbounce@ == build.lb_version@
            &&& choice.minecraft@ == build.mc_version@
            &&& choice.date == dates@[i]
            &&& choice.message@ == first_line_spec(build.message@)
            &&& choice.commit@ == short_commit_spec(build)
            &&& choice.selected == (build.build_id as int == selected as int)
        },
{
    let ghost all_dates = dates@;
    let mut builds: Vec<BuildChoice> = Vec::new();
    let mut rest = dates;
    let mut i: usize = 0;
    while i < response.items.len()
        invariant
            i <= response.items.len(),
            all_dates.len() == response.items@.len(),
            rest@ == all_dates.skip(i as int),
            builds@.len() == i,
            forall|k: int| 0 <= k < i ==> {
                let build = #[trigger] response.items@[k];
                let choice = builds@[k];
                &&& choice.build_id == build.build_id
                &&& choice.liquidbounce@ == build.lb_version@
                &&& choice.minecraft@ == build.mc_version@
                &&& choice.date == all_dates[k]
                &&& choice.message@ == first_line_spec(build.message@)
                &&& choice.commit@ == short_commit_spec(build)
                &&& choice.selected == (build.build_id as int == selected as int)
            },
        decreases response.items.len() - i,
    {
        let build = &response.items[i];
        let date = rest.remove(0);
        let selected_here = selected >= 0 && build.build_id as i64 == selected as i64;
        builds.push(BuildChoice {
            build_id: build.build_id,
            liquidbounce: build.lb_version.clone(),
            minecraft: build.mc_version.clone(),
            date,
            message: first_line(&build.message),
            commit: short_commit(build),
            selected: selected_here,
        });
        i = i + 1;
        assert(rest@ =~= all_dates.skip(i as int));
    }
    BuildPage {
        latest: selected == -1,
        builds,
        page: response.pagination.current,
        pages: response.pagination.pages,
        total: response.pagination.items,
    }
}

} // verus!
