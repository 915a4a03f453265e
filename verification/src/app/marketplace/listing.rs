//! How the library, the marketplace's listings and an item's detail are put together from what
//! the disk and the marketplace tell.

use vstd::prelude::*;
use std::collections::{HashMap, HashSet};
use super::api::{Item, Revision};
use super::revisions::{display_version, display_version_spec, range_label, range_label_spec};
use super::view::{
    dependent_positions, dependents, failed, is_installable, not_for, not_for_spec, summary, summary_spec, tag, BrowseFit, BrowseItem, Library, LibraryItem,
    Tag, VersionRow,
};
use super::{ItemType, Queued, SubscribedItem};
use crate::utils::text::{push_str, views};

verus! {

fn owned(s: &str) -> (r: String)
    ensures
        r@ == s@,
{
    let mut r = String::new();
    push_str(&mut r, s);
    r
}

/// The name an item kind is listed under; other kinds are not listed.
pub fn browse_type_name(item_type: ItemType) -> (r: Result<&'static str, String>)
    ensures
        item_type == ItemType::Addon ==> (r matches Ok(n) && n@ == "Addon"@),
        item_type == ItemType::Theme ==> (r matches Ok(n) && n@ == "Theme"@),
        item_type == ItemType::Script ==> (r matches Ok(n) && n@ == "Script"@),
        item_type == ItemType::Config ==> (r matches Err(m) && m@ == "Config is not listed here"@),
        item_type == ItemType::Other ==> (r matches Err(m) && m@ == "Other is not listed here"@),
{
    match item_type {
        ItemType::Addon => Ok("Addon"),
        ItemType::Theme => Ok("Theme"),
        ItemType::Script => Ok("Script"),
        ItemType::Config => Err(owned("Config is not listed here")),
        ItemType::Other => Err(owned("Other is not listed here")),
    }
}

/// What a listing tells of an item's fit to the build: nothing for what is no add-on; no version
/// where the build predates add-ons; else the newest revision that fits (`fitting`, newest
/// first), none if none does, or that the marketplace could not be asked (`fitting` is `None`).
pub fn browse_fit(is_addon: bool, supports: bool, fitting: Option<&Vec<Revision>>) -> (r: Option<BrowseFit>)
    ensures
        !is_addon ==> r is None,
        is_addon && !supports ==> r matches Some(BrowseFit::NoVersion),
        is_addon && supports ==> match fitting {
            None => r matches Some(BrowseFit::Unknown),
            Some(f) => if f@.len() == 0 {
                r matches Some(BrowseFit::NoVersion)
            } else {
                r matches Some(BrowseFit::Fits { version, liquidbounce }) && version@ == display_version_spec(
                    f@[0].version@,
                ) && match f@[0].liquidbounce {
                    Some(range) => liquidbounce matches Some(l) && l@ == range_label_spec(range),
                    None => liquidbounce is None,
                }
            },
        },
{
    if !is_addon {
        return None;
    }
    if !supports {
        return Some(BrowseFit::NoVersion);
    }
    match fitting {
        None => Some(BrowseFit::Unknown),
        Some(f) => {
            if f.len() == 0 {
                Some(BrowseFit::NoVersion)
            } else {
                let target = &f[0];
                let liquidbounce = match &target.liquidbounce {
                    Some(range) => Some(range_label(range)),
                    None => None,
                };
                Some(BrowseFit::Fits { version: display_version(target.version.as_str()), liquidbounce })
            }
        },
    }
}

/// An item as a listing shows it: subscribed as told, installable unless it has no version for
/// the build, with the first paragraph of its description as summary (empty where a pattern of
/// the markup did not compile) and the date given for its last update.
pub fn browse_item(item: Item, fit: Option<BrowseFit>, subscribed: bool, date: Option<String>) -> (r: BrowseItem)
    ensures
        r.id == item.id,
        r.name == item.name,
        r.downloads == item.downloads,
        r.date == date,
        r.subscribed == subscribed,
        r.installable == !(fit matches Some(BrowseFit::NoVersion)),
        r.fit == fit,
        match summary_spec(item.description@) {
            Some(s) => r.summary@ == s,
            None => r.summary@.len() == 0,
        },
{
    let installable = match &fit {
        Some(BrowseFit::NoVersion) => false,
        _ => true,
    };
    let text = match summary(item.description.as_str()) {
        Some(s) => s,
        None => String::new(),
    };
    BrowseItem {
        id: item.id,
        name: item.name,
        summary: text,
        downloads: item.downloads,
        date,
        fit,
        subscribed,
        installable,
    }
}

/// The ids of the library's items that stay, those being removed while the game runs left out.
pub fn subscribed_ids(items: &Vec<SubscribedItem>, queued: &Queued) -> (r: Vec<u32>)
    ensures
        r@.len() <= items@.len(),
        forall|id: u32| r@.contains(id) <==> exists|i: int| 0 <= i < items@.len() && #[trigger] items@[i].id == id
            && !(queued@.contains_key(id) && queued@[id] is Remove),
{
    let mut r: Vec<u32> = Vec::new();
    let mut i: usize = 0;
    while i < items.len()
        invariant
            i <= items@.len(),
            r@.len() <= i,
            forall|id: u32| r@.contains(id) <==> exists|k: int| 0 <= k < i && #[trigger] items@[k].id == id
                && !(queued@.contains_key(id) && queued@[id] is Remove),
        decreases items@.len() - i,
    {
        let id = items[i].id;
        let removing = queued.removing(id);
        let ghost before = r@;
        if !removing {
            r.push(id);
        }
        assert forall|x: u32| r@.contains(x) <==> exists|k: int| 0 <= k < i + 1 && #[trigger] items@[k].id == x
            && !(queued@.contains_key(x) && queued@[x] is Remove) by {
            if r@.contains(x) {
                if before.contains(x) {
                } else {
                    assert(x == id);
                    assert(items@[i as int].id == x);
                }
            }
            if exists|k: int| 0 <= k < i + 1 && #[trigger] items@[k].id == x && !(queued@.contains_key(x)
                && queued@[x] is Remove) {
                let k = choose|k: int| 0 <= k < i + 1 && #[trigger] items@[k].id == x && !(
                queued@.contains_key(x) && queued@[x] is Remove);
                if k < i {
                    assert(before.contains(x));
                    let j = choose|j: int| 0 <= j < before.len() && before[j] == x;
                    assert(r@[j] == x);
                } else {
                    assert(r@[r@.len() - 1] == x);
                }
            }
        }
        i = i + 1;
    }
    r
}

/// Whether the detail shows an item kind, and whether it is an add-on and a theme; other kinds
/// are not shown.
pub fn detail_kind(item_type: ItemType) -> (r: Result<(bool, bool), String>)
    ensures
        item_type == ItemType::Addon ==> r == Ok::<(bool, bool), String>((true, false)),
        item_type == ItemType::Theme ==> r == Ok::<(bool, bool), String>((false, true)),
        item_type == ItemType::Script ==> r == Ok::<(bool, bool), String>((false, false)),
        item_type == ItemType::Config ==> (r matches Err(m) && m@ == "Config is not shown here"@),
        item_type == ItemType::Other ==> (r matches Err(m) && m@ == "Other is not shown here"@),
{
    match item_type {
        ItemType::Addon => Ok((true, false)),
        ItemType::Theme => Ok((false, true)),
        ItemType::Script => Ok((false, false)),
        ItemType::Config => Err(owned("Config is not shown here")),
        ItemType::Other => Err(owned("Other is not shown here")),
    }
}

/// The revisions of an add-on that fit the build, as a set of ids: those the marketplace names
/// (`fitting`), none where the build predates add-ons; `None` for what is no add-on.
pub fn fitting_ids(is_addon: bool, supports: bool, fitting: &Vec<Revision>) -> (r: Option<HashSet<u32>>)
    ensures
        !is_addon ==> r is None,
        is_addon && !supports ==> (r matches Some(s) && s@ == Set::<u32>::empty()),
        is_addon && supports ==> (r matches Some(s) && forall|id: u32| s@.contains(id) <==> exists|i: int| 0 <= i < fitting@.len() && #[trigger] fitting@[i].id == id),
{
    broadcast use vstd::std_specs::hash::group_hash_axioms;

    if !is_addon {
        return None;
    }
    let mut s: HashSet<u32> = HashSet::new();
    if !supports {
        return Some(s);
    }
    let mut i: usize = 0;
    while i < fitting.len()
        invariant
            i <= fitting@.len(),
            forall|id: u32| s@.contains(id) <==> exists|k: int| 0 <= k < i && #[trigger] fitting@[k].id == id,
        decreases fitting@.len() - i,
    {
        s.insert(fitting[i].id);
        assert forall|id: u32| s@.contains(id) <==> exists|k: int| 0 <= k < i + 1 && #[trigger] fitting@[k].id
            == id by {
            if s@.contains(id) && id != fitting@[i as int].id {
                let k = choose|k: int| 0 <= k < i && #[trigger] fitting@[k].id == id;
            }
        }
        i = i + 1;
    }
    Some(s)
}

/// A revision as the detail of an item lists it: a theme's by its date, where it has one, the
/// others by their version; the builds it fits; the date, for what is no theme; and whether it
/// is the installed one or does not fit the build.
pub fn version_row(
    revision: &Revision,
    is_theme: bool,
    date: Option<String>,
    installed: Option<u32>,
    fitting: Option<&HashSet<u32>>,
    liquidbounce: &str,
) -> (r: VersionRow)
    ensures
        version_row_spec(r, *revision, is_theme, date, installed, fitting_view(fitting), liquidbounce@),
{
    let label = match &date {
        Some(d) => if is_theme {
            d.clone()
        } else {
            display_version(revision.version.as_str())
        },
        None => display_version(revision.version.as_str()),
    };
    let range = match &revision.liquidbounce {
        Some(range) => Some(range_label(range)),
        None => None,
    };
    let shown_date = if is_theme {
        None
    } else {
        date
    };
    VersionRow { label, liquidbounce: range, date: shown_date, tag: tag(revision.id, installed, fitting, liquidbounce) }
}

/// The revisions that fit the build, where they were asked for.
pub open spec fn fitting_view(fitting: Option<&HashSet<u32>>) -> Option<Set<u32>> {
    match fitting {
        Some(f) => Some(f@),
        None => None,
    }
}

/// The rows of an item's revisions, in order, each as `version_row` makes it from the revision
/// and its date (`dates` holds the date of each revision, where it has one).
pub fn version_rows(
    revisions: &Vec<Revision>,
    is_theme: bool,
    dates: Vec<Option<String>>,
    installed: Option<u32>,
    fitting: Option<&HashSet<u32>>,
    liquidbounce: &str,
) -> (r: Vec<VersionRow>)
    requires
        dates@.len() == revisions@.len(),
    ensures
        r@.len() == revisions@.len(),
        forall|i: int| 0 <= i < r@.len() ==> version_row_spec(
            #[trigger] r@[i],
            revisions@[i],
            is_theme,
            dates@[i],
            installed,
            fitting_view(fitting),
            liquidbounce@,
        ),
{
    let ghost all = dates@;
    let mut rest = dates;
    let mut r: Vec<VersionRow> = Vec::new();
    let mut i: usize = 0;
    while i < revisions.len()
        invariant
            i <= revisions@.len(),
            all.len() == revisions@.len(),
            rest@ == all.skip(i as int),
            r@.len() == i,
            forall|k: int| 0 <= k < i ==> version_row_spec(
                #[trigger] r@[k],
                revisions@[k],
                is_theme,
                all[k],
                installed,
                fitting_view(fitting),
                liquidbounce@,
            ),
        decreases revisions@.len() - i,
    {
        let date = rest.remove(0);
        assert(date == all[i as int]);
        r.push(version_row(&revisions[i], is_theme, date, installed, fitting, liquidbounce));
        assert(rest@ =~= all.skip(i + 1));
        i = i + 1;
    }
    r
}

/// What `version_row` makes of a revision: a theme's labelled by its date, where it has one,
/// the others by their version; the builds it fits; the date, for what is no theme; and whether
/// it is the installed one or does not fit the build.
pub open spec fn version_row_spec(
    r: VersionRow,
    revision: Revision,
    is_theme: bool,
    date: Option<String>,
    installed: Option<u32>,
    fitting: Option<Set<u32>>,
    liquidbounce: Seq<char>,
) -> bool {
    &&& match date {
        Some(d) => if is_theme {
            r.label == d
        } else {
            r.label@ == display_version_spec(revision.version@)
        },
        None => r.label@ == display_version_spec(revision.version@),
    }
    &&& match revision.liquidbounce {
        Some(range) => r.liquidbounce matches Some(l) && l@ == range_label_spec(range),
        None => r.liquidbounce is None,
    }
    &&& is_theme ==> r.date is None
    &&& !is_theme ==> r.date == date
    &&& installed == Some(revision.id) ==> r.tag == Some(Tag::Installed)
    &&& installed != Some(revision.id) ==> match fitting {
        Some(f) => if f.contains(revision.id) {
            r.tag is None
        } else {
            r.tag matches Some(Tag::NotFor { liquidbounce: l }) && l@ == display_version_spec(liquidbounce)
        },
        None => r.tag is None,
    }
}

/// The other items of the library that may need the one shown: all but itself and those being
/// removed while the game runs, in order.
pub open spec fn candidates_spec(items: Seq<SubscribedItem>, queued: Map<u32, super::Edit>, item_id: u32) -> Seq<SubscribedItem>
    decreases items.len(),
{
    if items.len() == 0 {
        Seq::empty()
    } else {
        let front = candidates_spec(items.drop_last(), queued, item_id);
        let other = items.last();
        if other.id != item_id && !(queued.contains_key(other.id) && queued[other.id] is Remove) {
            front.push(other)
        } else {
            front
        }
    }
}

/// The other items of the library that may need the one shown.
pub fn needed_by_candidates(items: &Vec<SubscribedItem>, queued: &Queued, item_id: u32) -> (r: Vec<SubscribedItem>)
    ensures
        r@ == candidates_spec(items@, queued@, item_id),
{
    let mut r: Vec<SubscribedItem> = Vec::new();
    let mut i: usize = 0;
    while i < items.len()
        invariant
            i <= items@.len(),
            r@ == candidates_spec(items@.take(i as int), queued@, item_id),
        decreases items@.len() - i,
    {
        assert(items@.take(i + 1).drop_last() =~= items@.take(i as int));
        assert(items@.take(i + 1).last() == items@[i as int]);
        let other = &items[i];
        if other.id != item_id && !queued.removing(other.id) {
            r.push(other.duplicate());
        }
        i = i + 1;
    }
    assert(items@.take(items@.len() as int) =~= items@);
    r
}

/// How the library asks the marketplace about an item.
#[derive(Debug, PartialEq, Eq)]
pub enum CheckPlan {
    /// The revisions that fit the build are looked up.
    Ask,
    /// The build predates add-ons: nothing fits.
    NoneFit,
    /// Scripts fit any build.
    AnyFits,
    /// Themes are not asked about.
    NotChecked,
}

/// How the library asks the marketplace about an item of a kind, for a build that supports
/// add-ons or not.
pub fn check_plan(item_type: ItemType, supports: bool) -> (r: CheckPlan)
    ensures
        item_type == ItemType::Addon && supports ==> r == CheckPlan::Ask,
        item_type == ItemType::Addon && !supports ==> r == CheckPlan::NoneFit,
        item_type == ItemType::Script ==> r == CheckPlan::AnyFits,
        item_type != ItemType::Addon && item_type != ItemType::Script ==> r == CheckPlan::NotChecked,
{
    match item_type {
        ItemType::Addon => if supports {
            CheckPlan::Ask
        } else {
            CheckPlan::NoneFit
        },
        ItemType::Script => CheckPlan::AnyFits,
        _ => CheckPlan::NotChecked,
    }
}

/// Where the version of an installed revision is found.
#[derive(Debug, PartialEq, Eq)]
pub enum VersionLookup {
    /// Nothing is installed.
    Nothing,
    /// Among the revisions fetched already.
    Found(String),
    /// The marketplace is asked for this revision.
    Ask(u32),
}

/// The first of `revisions` with the id.
pub open spec fn first_revision(revisions: Seq<Revision>, id: u32) -> Option<int>
    decreases revisions.len(),
{
    if revisions.len() == 0 {
        None
    } else if revisions[0].id == id {
        Some(0)
    } else {
        match first_revision(revisions.drop_first(), id) {
            Some(k) => Some(k + 1),
            None => None,
        }
    }
}

/// Where the version of the installed revision is found: among the revisions fetched already,
/// the first with its id, else from the marketplace.
pub fn version_lookup(installed: Option<u32>, fetched: &Vec<Revision>) -> (r: VersionLookup)
    ensures
        match installed {
            None => r == VersionLookup::Nothing,
            Some(id) => match first_revision(fetched@, id) {
                Some(k) => r == VersionLookup::Found(fetched@[k].version),
                None => r == VersionLookup::Ask(id),
            },
        },
{
    let id = match installed {
        None => return VersionLookup::Nothing,
        Some(id) => id,
    };
    let mut i: usize = 0;
    assert(fetched@.skip(0) =~= fetched@);
    while i < fetched.len()
        invariant
            installed == Some(id),
            i <= fetched@.len(),
            first_revision(fetched@, id) == match first_revision(fetched@.skip(i as int), id) {
                Some(k) => Some(k + i),
                None => None,
            },
        decreases fetched@.len() - i,
    {
        let ghost t = fetched@.skip(i as int);
        assert(t[0] == fetched@[i as int]);
        if fetched[i].id == id {
            return VersionLookup::Found(fetched[i].version.clone());
        }
        assert(t.drop_first() =~= fetched@.skip(i + 1));
        i = i + 1;
    }
    VersionLookup::Ask(id)
}

/// Whether something fits the build after the check: scripts always (`fitting` is `None`), an
/// add-on where a revision does.
pub fn checked_fits(fitting: Option<&Vec<Revision>>) -> (r: bool)
    ensures
        match fitting {
            None => r,
            Some(f) => r == (f@.len() > 0),
        },
{
    match fitting {
        None => true,
        Some(f) => f.len() > 0,
    }
}

/// A text that may be missing, by its characters.
pub open spec fn text_view(o: Option<String>) -> Option<Seq<char>> {
    match o {
        Some(s) => Some(s@),
        None => None,
    }
}

/// A row of the library by its texts: id, name, version shown, the build's LiquidBounce version
/// where it has nothing for the build, whether it is being removed, and the names needing it.
pub open spec fn row_view(row: LibraryItem) -> (u32, Seq<char>, Option<Seq<char>>, Option<Seq<char>>, bool, Seq<Seq<char>>) {
    (row.id, row.name@, text_view(row.version), text_view(row.not_for), row.removed, views(row.needed_by@))
}

/// The row `library_row` makes, by its texts.
pub open spec fn row_spec(
    item: SubscribedItem,
    files_version: Option<String>,
    checked: Option<(bool, Option<String>)>,
    supports: bool,
    liquidbounce: Seq<char>,
    removed: bool,
    needed_by: Seq<Seq<char>>,
) -> (u32, Seq<char>, Option<Seq<char>>, Option<Seq<char>>, bool, Seq<Seq<char>>) {
    let version = match checked {
        Some(c) => c.1,
        None => files_version,
    };
    let fits = match checked {
        Some(c) => Some(c.0),
        None => None,
    };
    (
        item.id,
        item.name@,
        match version {
            Some(v) => Some(display_version_spec(v@)),
            None => None,
        },
        if item.item_type == ItemType::Addon {
            not_for_spec(supports, fits, liquidbounce)
        } else {
            None
        },
        removed,
        needed_by,
    )
}

/// An item as the library shows it: the version the check found, else the one its files name,
/// shown as a version; for an add-on, the build's LiquidBounce version where it has nothing for
/// the build; whether it is being removed, and what needs it.
pub fn library_row(
    item: &SubscribedItem,
    files_version: Option<String>,
    checked: Option<(bool, Option<String>)>,
    supports: bool,
    liquidbounce: &str,
    removed: bool,
    needed_by: Vec<String>,
) -> (r: LibraryItem)
    ensures
        r.id == item.id,
        r.name == item.name,
        r.removed == removed,
        r.needed_by == needed_by,
        row_view(r) == row_spec(*item, files_version, checked, supports, liquidbounce@, removed, views(needed_by@)),
        ({
            let version = match checked {
                Some(c) => c.1,
                None => files_version,
            };
            match version {
                Some(v) => r.version matches Some(shown) && shown@ == display_version_spec(v@),
                None => r.version is None,
            }
        }),
        ({
            let fits = match checked {
                Some(c) => Some(c.0),
                None => None,
            };
            if item.item_type == ItemType::Addon {
                match not_for_spec(supports, fits, liquidbounce@) {
                    Some(l) => r.not_for matches Some(shown) && shown@ == l,
                    None => r.not_for is None,
                }
            } else {
                r.not_for is None
            }
        }),
{
    let (fits, version) = match checked {
        Some((f, v)) => (Some(f), v),
        None => (None, files_version),
    };
    let shown = match version {
        Some(v) => Some(display_version(v.as_str())),
        None => None,
    };
    let unfit = match item.item_type {
        ItemType::Addon => not_for(supports, fits, liquidbounce),
        _ => None,
    };
    LibraryItem { id: item.id, name: item.name.clone(), version: shown, not_for: unfit, removed, needed_by }
}

/// Puts a row in the list of its kind: add-ons, scripts, or else themes.
pub fn file_row(library: &mut Library, item_type: ItemType, row: LibraryItem)
    ensures
        item_type == ItemType::Addon ==> final(library).addons@ == old(library).addons@.push(row)
            && final(library).scripts@ == old(library).scripts@ && final(library).themes@ == old(library).themes@,
        item_type == ItemType::Script ==> final(library).scripts@ == old(library).scripts@.push(row)
            && final(library).addons@ == old(library).addons@ && final(library).themes@ == old(library).themes@,
        item_type != ItemType::Addon && item_type != ItemType::Script ==> final(library).themes@
            == old(library).themes@.push(row) && final(library).addons@ == old(library).addons@
            && final(library).scripts@ == old(library).scripts@,
        final(library).minecraft == old(library).minecraft,
        final(library).liquidbounce == old(library).liquidbounce,
        final(library).selection == old(library).selection,
        final(library).notice == old(library).notice,
{
    match item_type {
        ItemType::Addon => library.addons.push(row),
        ItemType::Script => library.scripts.push(row),
        _ => library.themes.push(row),
    }
}

/// What checking an item gave its row: what a check that went through found, else nothing.
pub open spec fn check_found(checked: Option<Result<(bool, Option<String>), String>>) -> Option<(bool, Option<String>)> {
    match checked {
        Some(Ok(c)) => Some(c),
        _ => None,
    }
}

/// The list an item kind is shown in: add-ons, scripts, or else themes.
pub open spec fn list_of(item_type: ItemType) -> ItemType {
    match item_type {
        ItemType::Addon => ItemType::Addon,
        ItemType::Script => ItemType::Script,
        _ => ItemType::Theme,
    }
}

/// The names of the items that stay and need `item_id`, in order.
pub open spec fn needed_names(
    items: Seq<SubscribedItem>,
    needs: Map<u32, Vec<u32>>,
    queued: Map<u32, super::Edit>,
    item_id: u32,
) -> Seq<Seq<char>> {
    dependent_positions(items, needs, queued, item_id).map_values(|p: usize| items[p as int].name@)
}

/// The rows of the first `n` items of the library shown in `list`, in order, each from what was
/// found of it (the version its files name, and what checking it gave, if it was checked).
pub open spec fn rows_in(
    items: Seq<SubscribedItem>,
    found: Seq<(Option<String>, Option<Result<(bool, Option<String>), String>>)>,
    n: int,
    needs: Map<u32, Vec<u32>>,
    queued: Map<u32, super::Edit>,
    supports: bool,
    liquidbounce: Seq<char>,
    list: ItemType,
) -> Seq<(u32, Seq<char>, Option<Seq<char>>, Option<Seq<char>>, bool, Seq<Seq<char>>)>
    decreases n,
{
    if n <= 0 {
        Seq::empty()
    } else {
        let before = rows_in(items, found, n - 1, needs, queued, supports, liquidbounce, list);
        let item = items[n - 1];
        if list_of(item.item_type) == list {
            before.push(
                row_spec(
                    item,
                    found[n - 1].0,
                    check_found(found[n - 1].1),
                    supports,
                    liquidbounce,
                    queued.contains_key(item.id) && queued[item.id] is Remove,
                    needed_names(items, needs, queued, item.id),
                ),
            )
        } else {
            before
        }
    }
}

/// The first failure among what checking the first `n` items gave.
pub open spec fn first_failure(
    found: Seq<(Option<String>, Option<Result<(bool, Option<String>), String>>)>,
    n: int,
) -> Option<Seq<char>>
    decreases n,
{
    if n <= 0 {
        None
    } else {
        match first_failure(found, n - 1) {
            Some(e) => Some(e),
            None => match found[n - 1].1 {
                Some(Err(e)) => Some(e@),
                _ => None,
            },
        }
    }
}

/// Rows by their texts.
pub open spec fn row_views(rows: Seq<LibraryItem>) -> Seq<(u32, Seq<char>, Option<Seq<char>>, Option<Seq<char>>, bool, Seq<Seq<char>>)> {
    rows.map_values(|r: LibraryItem| row_view(r))
}

/// The names of the items at `positions`.
fn names_at(items: &Vec<SubscribedItem>, positions: &Vec<usize>) -> (r: Vec<String>)
    requires
        forall|j: int| 0 <= j < positions@.len() ==> #[trigger] positions@[j] < items@.len(),
    ensures
        views(r@) == positions@.map_values(|p: usize| items@[p as int].name@),
{
    let mut r: Vec<String> = Vec::new();
    let mut j: usize = 0;
    while j < positions.len()
        invariant
            j <= positions@.len(),
            forall|k: int| 0 <= k < positions@.len() ==> #[trigger] positions@[k] < items@.len(),
            views(r@) == positions@.take(j as int).map_values(|p: usize| items@[p as int].name@),
        decreases positions@.len() - j,
    {
        let ghost before = r@;
        r.push(items[positions[j]].name.clone());
        assert(r@ == before.push(items@[positions@[j as int] as int].name));
        assert(views(r@) =~= views(before).push(items@[positions@[j as int] as int].name@));
        assert(positions@.take(j + 1).map_values(|p: usize| items@[p as int].name@) =~= positions@.take(
            j as int,
        ).map_values(|p: usize| items@[p as int].name@).push(items@[positions@[j as int] as int].name@));
        j = j + 1;
    }
    assert(positions@.take(positions@.len() as int) =~= positions@);
    r
}

/// Fills the library's lists from its items and what was found of each (the version its files
/// name, and what checking it gave, if it was checked), in the order of the items: each row as
/// `library_row` makes it, with what needs the item and whether its removal waits, in the list of
/// its kind. A failed check takes note of the failure as `failed` does; the row then shows what
/// the files name.
pub fn library_lists(
    library: &mut Library,
    items: &Vec<SubscribedItem>,
    found: Vec<(Option<String>, Option<Result<(bool, Option<String>), String>>)>,
    needs: &HashMap<u32, Vec<u32>>,
    queued: &Queued,
    supports: bool,
    liquidbounce: &str,
    offline: &mut Option<String>,
)
    requires
        found@.len() == items@.len(),
    ensures
        row_views(final(library).addons@) == row_views(old(library).addons@) + rows_in(
            items@, found@, items@.len() as int, needs@, queued@, supports, liquidbounce@, ItemType::Addon,
        ),
        row_views(final(library).scripts@) == row_views(old(library).scripts@) + rows_in(
            items@, found@, items@.len() as int, needs@, queued@, supports, liquidbounce@, ItemType::Script,
        ),
        row_views(final(library).themes@) == row_views(old(library).themes@) + rows_in(
            items@, found@, items@.len() as int, needs@, queued@, supports, liquidbounce@, ItemType::Theme,
        ),
        final(library).minecraft == old(library).minecraft,
        final(library).liquidbounce == old(library).liquidbounce,
        final(library).selection == old(library).selection,
        final(library).notice == old(library).notice,
        text_view(*final(offline)) == match *old(offline) {
            Some(first) => Some(first@),
            None => match first_failure(found@, found@.len() as int) {
                Some(e) => Some("unable to check the marketplace: "@ + e),
                None => None,
            },
        },
{
    let ghost all = found@;
    let ghost start = *library;
    let ghost offline0 = *offline;
    let mut rest = found;
    let mut i: usize = 0;
    while i < items.len()
        invariant
            i <= items@.len(),
            all.len() == items@.len(),
            rest@ == all.skip(i as int),
            row_views(library.addons@) == row_views(start.addons@) + rows_in(
                items@, all, i as int, needs@, queued@, supports, liquidbounce@, ItemType::Addon,
            ),
            row_views(library.scripts@) == row_views(start.scripts@) + rows_in(
                items@, all, i as int, needs@, queued@, supports, liquidbounce@, ItemType::Script,
            ),
            row_views(library.themes@) == row_views(start.themes@) + rows_in(
                items@, all, i as int, needs@, queued@, supports, liquidbounce@, ItemType::Theme,
            ),
            library.minecraft == start.minecraft,
            library.liquidbounce == start.liquidbounce,
            library.selection == start.selection,
            library.notice == start.notice,
            text_view(*offline) == match offline0 {
                Some(first) => Some(first@),
                None => match first_failure(all, i as int) {
                    Some(e) => Some("unable to check the marketplace: "@ + e),
                    None => None,
                },
            },
        decreases items@.len() - i,
    {
        let (files_version, checked) = rest.remove(0);
        assert((files_version, checked) == all[i as int]);
        let item = &items[i];
        let check = match checked {
            Some(Ok(c)) => Some(c),
            Some(Err(e)) => {
                failed(offline, e.as_str());
                None
            },
            None => None,
        };
        let positions = dependents(items, needs, queued, item.id);
        let names = names_at(items, &positions);
        let removed = queued.removing(item.id);
        let row = library_row(item, files_version, check, supports, liquidbounce, removed, names);
        let ghost shown = row_view(row);
        let ghost (a0, s0, t0) = (library.addons@, library.scripts@, library.themes@);
        file_row(library, item.item_type, row);
        proof {
            assert(rest@ =~= all.skip(i + 1));
            assert(row_views(a0.push(row)) =~= row_views(a0).push(shown));
            assert(row_views(s0.push(row)) =~= row_views(s0).push(shown));
            assert(row_views(t0.push(row)) =~= row_views(t0).push(shown));
        }
        i = i + 1;
    }
}

/// The ids of what an item needs that the launcher installs (add-ons and scripts), in order.
pub open spec fn needed_ids_spec(needed: Seq<Item>) -> Seq<u32>
    decreases needed.len(),
{
    if needed.len() == 0 {
        Seq::empty()
    } else {
        let front = needed_ids_spec(needed.drop_last());
        let last = needed.last();
        if last.item_type == ItemType::Addon || last.item_type == ItemType::Script {
            front.push(last.id)
        } else {
            front
        }
    }
}

/// The ids of what an item needs that the launcher installs, in order.
pub fn needed_ids(needed: &Vec<Item>) -> (r: Vec<u32>)
    ensures
        r@ == needed_ids_spec(needed@),
{
    let mut r: Vec<u32> = Vec::new();
    let mut i: usize = 0;
    while i < needed.len()
        invariant
            i <= needed@.len(),
            r@ == needed_ids_spec(needed@.take(i as int)),
        decreases needed@.len() - i,
    {
        assert(needed@.take(i + 1).drop_last() =~= needed@.take(i as int));
        assert(needed@.take(i + 1).last() == needed@[i as int]);
        if is_installable(needed[i].item_type) {
            r.push(needed[i].id);
        }
        i = i + 1;
    }
    assert(needed@.take(needed@.len() as int) =~= needed@);
    r
}

} // verus!
