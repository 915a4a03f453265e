//! What the launcher shows about add-ons, themes and scripts, for the build selected to launch.

use vstd::prelude::*;
use std::collections::{HashMap, HashSet};
use super::revisions::{display_version, display_version_spec};
use super::{ItemType, Queued, SubscribedItem};
use crate::app::builds::Selection;
use crate::utils::pattern::{
    captures_view, collapse, collapse_spec, crlf_spec, crlf_to_lf, paragraphs, paragraphs_spec,
    regex_captured, regex_captures, regex_replace_all, regex_replaced, trim, trim_spec,
};
use crate::utils::text::{chars_of, push_str, starts_with, starts_with_spec, string_of};

verus! {

/// The one notice the library shows above its lists, the first that applies.
#[derive(Debug, PartialEq, Eq)]
pub enum Notice {
    Idle,
    Checking,
    Offline { error: String },
    /// Edits made while the game runs wait for it to exit.
    Restart { changes: usize },
}

/// An add-on, theme or script of the library.
pub struct LibraryItem {
    pub id: u32,
    pub name: String,
    /// What is installed. Only a theme's files name it, the rest waits for the marketplace.
    pub version: Option<String>,
    /// The build's LiquidBounce version, for an add-on that has nothing for it.
    pub not_for: Option<String>,
    /// Removed while the game runs, until it exits.
    pub removed: bool,
    /// The installed items that stop working without it, once the marketplace was asked.
    pub needed_by: Vec<String>,
}

/// The library, as the launcher shows it for a build.
pub struct Library {
    pub minecraft: Option<String>,
    pub liquidbounce: Option<String>,
    pub selection: Option<Selection>,
    pub notice: Notice,
    pub addons: Vec<LibraryItem>,
    pub themes: Vec<LibraryItem>,
    pub scripts: Vec<LibraryItem>,
}

/// Whether an add-on of the marketplace has a revision for the build.
pub enum BrowseFit {
    Fits { version: String, liquidbounce: Option<String> },
    NoVersion,
    /// The marketplace could not be asked.
    Unknown,
}

/// An item as the marketplace lists it, for a build.
pub struct BrowseItem {
    pub id: u32,
    pub name: String,
    pub summary: String,
    pub downloads: u32,
    pub date: Option<String>,
    pub fit: Option<BrowseFit>,
    pub subscribed: bool,
    /// LiquidBounce refuses an add-on that has no revision for the build as well.
    pub installable: bool,
}

pub struct Browse {
    pub liquidbounce: String,
    pub items: Vec<BrowseItem>,
}

/// How a revision of an item stands to the build.
#[derive(Debug, PartialEq, Eq)]
pub enum Tag {
    Installed,
    NotFor { liquidbounce: String },
}

/// A revision, as the detail of an item lists it.
pub struct VersionRow {
    pub label: String,
    pub liquidbounce: Option<String>,
    pub date: Option<String>,
    pub tag: Option<Tag>,
}

/// An item of the marketplace in full.
pub struct Detail {
    pub id: u32,
    pub name: String,
    pub item_type: ItemType,
    pub author: String,
    pub downloads: u32,
    pub summary: String,
    pub screenshots: Vec<Screenshot>,
    /// Removing is offered, otherwise installing.
    pub subscribed: bool,
    pub can_install: bool,
    pub versions: Vec<VersionRow>,
    pub needed_by: Vec<NeededBy>,
}

/// An installed item that needs the one shown.
pub struct NeededBy {
    pub name: String,
    pub item_type: ItemType,
    pub author: String,
}

/// An image of a description, with its alternative text as caption.
#[derive(Debug, PartialEq, Eq)]
pub struct Screenshot {
    pub url: String,
    pub caption: String,
}

/// Whether and how the library asks the marketplace.
pub enum Remote {
    Skip,
    Check,
    /// The build could not be resolved.
    Failed(String),
}

/// The build's LiquidBounce version for an add-on that has nothing for the build: the build
/// predates add-ons, or the marketplace said nothing fits. `fits` is `None` while the
/// marketplace was not asked.
pub open spec fn not_for_spec(supports: bool, fits: Option<bool>, liquidbounce: Seq<char>) -> Option<Seq<char>> {
    if !supports || fits == Some(false) {
        Some(display_version_spec(liquidbounce))
    } else {
        None
    }
}

pub fn not_for(supports: bool, fits: Option<bool>, liquidbounce: &str) -> (r: Option<String>)
    ensures
        match (r, not_for_spec(supports, fits, liquidbounce@)) {
            (Some(s), Some(expected)) => s@ == expected,
            (None, None) => true,
            _ => false,
        },
{
    let unfit = match fits {
        Some(f) => !f,
        None => false,
    };
    if !supports || unfit {
        Some(display_version(liquidbounce))
    } else {
        None
    }
}

/// Marks the installed revision, and those that do not fit the build. `fitting` is `None` for
/// themes and scripts.
pub fn tag(
    revision: u32,
    installed: Option<u32>,
    fitting: Option<&HashSet<u32>>,
    liquidbounce: &str,
) -> (r: Option<Tag>)
    ensures
        installed == Some(revision) ==> r == Some(Tag::Installed),
        installed != Some(revision) ==> match fitting {
            Some(f) => if f@.contains(revision) {
                r is None
            } else {
                r matches Some(Tag::NotFor { liquidbounce: l }) && l@ == display_version_spec(
                    liquidbounce@,
                )
            },
            None => r is None,
        },
{
    broadcast use vstd::std_specs::hash::group_hash_axioms;

    if installed == Some(revision) {
        return Some(Tag::Installed);
    }
    match fitting {
        Some(f) => {
            if f.contains(&revision) {
                None
            } else {
                Some(Tag::NotFor { liquidbounce: display_version(liquidbounce) })
            }
        },
        None => None,
    }
}

/// Add-ons and scripts are installed; themes are not.
pub fn is_installable(item_type: ItemType) -> (r: bool)
    ensures
        r == (item_type == ItemType::Addon || item_type == ItemType::Script),
{
    match item_type {
        ItemType::Addon | ItemType::Script => true,
        _ => false,
    }
}

/// Whether the library lists items of a kind: add-ons, themes and scripts.
pub open spec fn listed_kind(item_type: ItemType) -> bool {
    item_type == ItemType::Addon || item_type == ItemType::Theme || item_type == ItemType::Script
}

/// Whether an item with the id is among `items`.
pub open spec fn has_id(items: Seq<SubscribedItem>, id: u32) -> bool {
    exists|j: int| 0 <= j < items.len() && #[trigger] items[j].id == id
}

/// The subscriptions, then each addition waiting for the game to exit whose item is not
/// subscribed yet; of those the add-ons, themes and scripts.
pub open spec fn library_items_spec(subscribed: Seq<SubscribedItem>, adding: Seq<SubscribedItem>) -> Seq<SubscribedItem>
    decreases adding.len(),
{
    if adding.len() == 0 {
        subscribed.filter(|item: SubscribedItem| listed_kind(item.item_type))
    } else {
        let front = library_items_spec(subscribed, adding.drop_last());
        let item = adding.last();
        if has_id(subscribed, item.id) || has_id(adding.drop_last(), item.id) || !listed_kind(item.item_type) {
            front
        } else {
            front.push(item)
        }
    }
}

/// The library lists the subscriptions of the kinds it shows first, in order; and every
/// addition waiting for the game to exit, of a kind it shows, whose item is neither subscribed
/// nor waiting earlier, is among its items.
pub proof fn law_waiting_additions_join_the_library(
    subscribed: Seq<SubscribedItem>,
    adding: Seq<SubscribedItem>,
)
    ensures
        ({
            let listed = subscribed.filter(|item: SubscribedItem| listed_kind(item.item_type));
            let items = library_items_spec(subscribed, adding);
            &&& items.len() >= listed.len()
            &&& items.subrange(0, listed.len() as int) == listed
            &&& forall|i: int|
                0 <= i < adding.len() && listed_kind(#[trigger] adding[i].item_type) && !has_id(subscribed, adding[i].id)
                    && (forall|j: int| 0 <= j < i ==> adding[j].id != adding[i].id) ==> items.contains(adding[i])
        }),
    decreases adding.len(),
{
    let listed = subscribed.filter(|item: SubscribedItem| listed_kind(item.item_type));
    let items = library_items_spec(subscribed, adding);
    if adding.len() == 0 {
        assert(items.subrange(0, listed.len() as int) =~= listed);
    } else {
        let front_adding = adding.drop_last();
        law_waiting_additions_join_the_library(subscribed, front_adding);
        let front = library_items_spec(subscribed, front_adding);
        assert(front.subrange(0, listed.len() as int) == listed);
        if items != front {
            assert(items == front.push(adding.last()));
            assert(items.subrange(0, listed.len() as int) =~= front.subrange(0, listed.len() as int));
        }
        assert forall|i: int|
            0 <= i < adding.len() && listed_kind(#[trigger] adding[i].item_type) && !has_id(subscribed, adding[i].id)
                && (forall|j: int| 0 <= j < i ==> adding[j].id != adding[i].id) implies items.contains(adding[i]) by {
            if i < front_adding.len() {
                assert(front_adding[i] == adding[i]);
                assert forall|j: int| 0 <= j < i implies front_adding[j].id != front_adding[i].id by {
                    assert(front_adding[j] == adding[j]);
                }
                assert(front.contains(adding[i]));
                if items != front {
                    let k = choose|k: int| 0 <= k < front.len() && front[k] == adding[i];
                    assert(items[k] == front[k]);
                }
            } else {
                assert(adding[i] == adding.last());
                if has_id(front_adding, adding.last().id) {
                    let j = choose|j: int| 0 <= j < front_adding.len() && #[trigger] front_adding[j].id == adding.last().id;
                    assert(adding[j] == front_adding[j]);
                }
                assert(items == front.push(adding.last()));
                assert(items[front.len() as int] == adding[i]);
            }
        }
    }
}

/// Whether two edits waiting are for the same item: never, the queue holds one per item.
fn contains_id(items: &Vec<SubscribedItem>, id: u32) -> (r: bool)
    ensures
        r == has_id(items@, id),
{
    let mut i: usize = 0;
    while i < items.len()
        invariant
            i <= items.len(),
            forall|j: int| 0 <= j < i ==> #[trigger] items@[j].id != id,
        decreases items.len() - i,
    {
        if items[i].id == id {
            return true;
        }
        i = i + 1;
    }
    false
}

/// The items of the library, kept as `library_items_spec` says: what is subscribed, then what
/// waits to be added.
pub fn library_items(subscribed: Vec<SubscribedItem>, adding: Vec<SubscribedItem>) -> (r: Vec<SubscribedItem>)
    ensures
        r@ == library_items_spec(subscribed@, adding@),
{
    let ghost subscribed_all = subscribed@;
    let ghost adding_all = adding@;
    let mut seen: Vec<SubscribedItem> = Vec::new();
    let mut items: Vec<SubscribedItem> = Vec::new();
    let mut rest = subscribed;
    let ghost mut k: int = 0;
    assert(subscribed_all.take(0).filter(|item: SubscribedItem| listed_kind(item.item_type)) =~= Seq::<SubscribedItem>::empty());
    while rest.len() > 0
        invariant
            0 <= k <= subscribed_all.len(),
            rest@ == subscribed_all.skip(k),
            seen@ == subscribed_all.take(k),
            items@ == subscribed_all.take(k).filter(|item: SubscribedItem| listed_kind(item.item_type)),
        decreases rest.len(),
    {
        let item = rest.remove(0);
        assert(item == subscribed_all[k]);
        assert(subscribed_all.take(k + 1).drop_last() =~= subscribed_all.take(k));
        proof {
            reveal_with_fuel(Seq::filter, 1);
        }
        let kept = match item.item_type {
            ItemType::Addon | ItemType::Theme | ItemType::Script => true,
            _ => false,
        };
        if kept {
            items.push(item.duplicate());
        }
        seen.push(item);
        proof {
            k = k + 1;
        }
        assert(rest@ =~= subscribed_all.skip(k));
        assert(seen@ =~= subscribed_all.take(k));
    }
    assert(subscribed_all.take(subscribed_all.len() as int) =~= subscribed_all);
    let mut waiting: Vec<SubscribedItem> = Vec::new();
    let mut more = adding;
    let ghost mut m: int = 0;
    while more.len() > 0
        invariant
            0 <= m <= adding_all.len(),
            seen@ == subscribed_all,
            more@ == adding_all.skip(m),
            waiting@ == adding_all.take(m),
            items@ == library_items_spec(subscribed_all, adding_all.take(m)),
        decreases more.len(),
    {
        let item = more.remove(0);
        assert(item == adding_all[m]);
        assert(adding_all.take(m + 1).drop_last() =~= adding_all.take(m));
        let known = contains_id(&seen, item.id) || contains_id(&waiting, item.id);
        let kept = match item.item_type {
            ItemType::Addon | ItemType::Theme | ItemType::Script => true,
            _ => false,
        };
        if !known && kept {
            items.push(item.duplicate());
        }
        waiting.push(item);
        proof {
            m = m + 1;
        }
        assert(more@ =~= adding_all.skip(m));
        assert(waiting@ =~= adding_all.take(m));
    }
    assert(adding_all.take(adding_all.len() as int) =~= adding_all);
    items
}

impl SubscribedItem {
    /// A copy of the subscription.
    pub fn duplicate(&self) -> (r: SubscribedItem)
        ensures
            r == *self,
    {
        SubscribedItem { name: self.name.clone(), id: self.id, item_type: self.item_type }
    }
}

/// Whether the item stays and needs `item_id`, by what `needs` lists for it.
pub open spec fn depends_on(other: SubscribedItem, needs: Map<u32, Vec<u32>>, queued: Map<u32, super::Edit>, item_id: u32) -> bool {
    &&& !(queued.contains_key(other.id) && queued[other.id] is Remove)
    &&& needs.contains_key(other.id)
    &&& needs[other.id]@.contains(item_id)
}

fn contains_u32(v: &Vec<u32>, x: u32) -> (r: bool)
    ensures
        r == v@.contains(x),
{
    let mut i: usize = 0;
    while i < v.len()
        invariant
            i <= v.len(),
            forall|j: int| 0 <= j < i ==> v@[j] != x,
        decreases v.len() - i,
    {
        if v[i] == x {
            return true;
        }
        i = i + 1;
    }
    false
}

/// The positions of the items that stay and need `item_id`, in order.
pub open spec fn dependent_positions(
    items: Seq<SubscribedItem>,
    needs: Map<u32, Vec<u32>>,
    queued: Map<u32, super::Edit>,
    item_id: u32,
) -> Seq<usize>
    decreases items.len(),
{
    if items.len() == 0 {
        Seq::empty()
    } else {
        let before = dependent_positions(items.drop_last(), needs, queued, item_id);
        if depends_on(items.last(), needs, queued, item_id) {
            before.push((items.len() - 1) as usize)
        } else {
            before
        }
    }
}

/// The positions of the items of `items` that stay and need `item_id`, in order.
pub fn dependents(
    items: &Vec<SubscribedItem>,
    needs: &HashMap<u32, Vec<u32>>,
    queued: &Queued,
    item_id: u32,
) -> (r: Vec<usize>)
    ensures
        forall|j: int| 0 <= j < r@.len() ==> #[trigger] r@[j] < items@.len(),
        forall|j: int, k: int| 0 <= j < k < r@.len() ==> r@[j] < r@[k],
        forall|i: int| 0 <= i < items@.len() ==> (r@.contains(i as usize) <==> depends_on(
            #[trigger] items@[i],
            needs@,
            queued@,
            item_id,
        )),
        r@ == dependent_positions(items@, needs@, queued@, item_id),
{
    broadcast use vstd::std_specs::hash::group_hash_axioms;

    let mut r: Vec<usize> = Vec::new();
    let mut i: usize = 0;
    while i < items.len()
        invariant
            i <= items.len(),
            forall|j: int| 0 <= j < r@.len() ==> #[trigger] r@[j] < i,
            forall|j: int, k: int| 0 <= j < k < r@.len() ==> r@[j] < r@[k],
            forall|p: int| 0 <= p < i ==> (r@.contains(p as usize) <==> depends_on(
                #[trigger] items@[p],
                needs@,
                queued@,
                item_id,
            )),
            r@ == dependent_positions(items@.take(i as int), needs@, queued@, item_id),
        decreases items.len() - i,
    {
        assert(items@.take(i + 1).drop_last() =~= items@.take(i as int));
        assert(items@.take(i + 1).last() == items@[i as int]);
        let other = &items[i];
        let needed = match needs.get(&other.id) {
            Some(needed) => contains_u32(needed, item_id),
            None => false,
        };
        let ghost before = r@;
        if !queued.removing(other.id) && needed {
            r.push(i);
        }
        assert forall|p: int| 0 <= p < i + 1 implies (r@.contains(p as usize) <==> depends_on(
            #[trigger] items@[p],
            needs@,
            queued@,
            item_id,
        )) by {
            if p < i {
                if before.contains(p as usize) {
                    let w = choose|w: int| 0 <= w < before.len() && before[w] == p as usize;
                    assert(r@[w] == p as usize);
                }
                if r@.contains(p as usize) {
                    let w = choose|w: int| 0 <= w < r@.len() && r@[w] == p as usize;
                    if w < before.len() {
                        assert(before[w] == p as usize);
                    }
                }
            } else {
                if r@.contains(p as usize) && !(r@.len() > before.len()) {
                    let w = choose|w: int| 0 <= w < r@.len() && r@[w] == p as usize;
                    assert(before[w] < i);
                }
                if r@.len() > before.len() {
                    assert(r@[before.len() as int] == i);
                }
            }
        }
        i = i + 1;
    }
    assert(items@.take(items@.len() as int) =~= items@);
    r
}

/// Takes note that asking the marketplace failed with `error` (its first line): the first
/// failure is the one the library tells, later ones change nothing.
pub fn failed(offline: &mut Option<String>, error: &str)
    ensures
        match *old(offline) {
            Some(first) => *final(offline) == Some(first),
            None => *final(offline) matches Some(message) && message@ == "unable to check the marketplace: "@
                + error@,
        },
{
    if offline.is_none() {
        let mut message = String::new();
        push_str(&mut message, "unable to check the marketplace: ");
        push_str(&mut message, error);
        *offline = Some(message);
    }
}

/// The notice after the library was put together: none while the marketplace was skipped,
/// else that it could not be asked, that edits wait for the game to exit, or nothing.
pub fn final_notice(skipped: bool, offline: Option<String>, changes: usize) -> (r: Notice)
    ensures
        skipped ==> r == Notice::Checking,
        !skipped ==> match offline {
            Some(error) => r == (Notice::Offline { error }),
            None => if changes > 0 {
                r == (Notice::Restart { changes })
            } else {
                r == Notice::Idle
            },
        },
{
    if skipped {
        return Notice::Checking;
    }
    match offline {
        Some(error) => Notice::Offline { error },
        None => if changes > 0 {
            Notice::Restart { changes }
        } else {
            Notice::Idle
        },
    }
}

/// Whether the item can be installed: an add-on with a revision that fits, or another item
/// with any revision.
pub fn can_install(fitting: Option<&HashSet<u32>>, revisions: usize) -> (r: bool)
    ensures
        match fitting {
            Some(f) => r == !f@.is_empty(),
            None => r == (revisions > 0),
        },
{
    broadcast use vstd::std_specs::hash::group_hash_axioms;

    match fitting {
        Some(f) => !f.is_empty(),
        None => revisions > 0,
    }
}

/// Images, which a summary leaves out.
pub const IMAGE_MARKUP: &'static str = "!\\[[^\\]]*\\]\\([^)]*\\)";
/// Links, whose text a summary keeps.
pub const LINK_MARKUP: &'static str = "\\[([^\\]]*)\\]\\([^)]*\\)";
/// HTML tags, which a summary leaves out.
pub const TAG_MARKUP: &'static str = "<[^>]+>";
/// Bold text, which a summary keeps plain.
pub const BOLD_MARKUP: &'static str = "(\\*\\*|__)(.+?)(\\*\\*|__)";
/// Italic and code, which a summary keeps plain.
pub const EMPHASIS_MARKUP: &'static str = "[*`]([^*`]+)[*`]";

/// Whether a paragraph is a heading, image, HTML, table, quote, code block, rule or list,
/// which a summary passes over.
pub open spec fn is_block(p: Seq<char>) -> bool {
    ||| starts_with_spec(p, "#"@)
    ||| starts_with_spec(p, "!"@)
    ||| starts_with_spec(p, "<"@)
    ||| starts_with_spec(p, "|"@)
    ||| starts_with_spec(p, ">"@)
    ||| starts_with_spec(p, "```"@)
    ||| starts_with_spec(p, "---"@)
    ||| starts_with_spec(p, "- "@)
    ||| starts_with_spec(p, "* "@)
}

fn is_block_paragraph(p: &str) -> (r: bool)
    ensures
        r == is_block(p@),
{
    starts_with(p, "#") || starts_with(p, "!") || starts_with(p, "<") || starts_with(p, "|")
        || starts_with(p, ">") || starts_with(p, "```") || starts_with(p, "---") || starts_with(p, "- ")
        || starts_with(p, "* ")
}

/// A paragraph's text with its inline markup taken out, one kind after the other; `None` when
/// a pattern did not compile.
pub open spec fn inline_clean(text: Seq<char>) -> Option<Seq<char>> {
    match regex_replaced(IMAGE_MARKUP@, text, ""@) {
        None => None,
        Some(t1) => match regex_replaced(LINK_MARKUP@, t1, "$1"@) {
            None => None,
            Some(t2) => match regex_replaced(TAG_MARKUP@, t2, ""@) {
                None => None,
                Some(t3) => match regex_replaced(BOLD_MARKUP@, t3, "$2"@) {
                    None => None,
                    Some(t4) => regex_replaced(EMPHASIS_MARKUP@, t4, "$1"@),
                },
            },
        },
    }
}

/// The summary from paragraph `i` on: the first paragraph that is no block and has text left
/// once its markup is out, as plain text; empty when there is none.
pub open spec fn summary_from(paragraphs: Seq<Seq<char>>, i: int) -> Option<Seq<char>>
    decreases paragraphs.len() - i,
{
    if i < 0 || i >= paragraphs.len() {
        Some(Seq::empty())
    } else {
        let p = trim_spec(paragraphs[i]);
        if is_block(p) {
            summary_from(paragraphs, i + 1)
        } else {
            match inline_clean(collapse_spec(p)) {
                None => None,
                Some(t) => if collapse_spec(t).len() > 0 {
                    Some(collapse_spec(t))
                } else {
                    summary_from(paragraphs, i + 1)
                },
            }
        }
    }
}

/// The first paragraph of a markdown description, as plain text.
pub open spec fn summary_spec(description: Seq<char>) -> Option<Seq<char>> {
    summary_from(paragraphs_spec(crlf_spec(description)), 0)
}

fn replace_step(pattern: &str, text: Option<String>, replacement: &str) -> (r: Option<String>)
    ensures
        match text {
            None => r is None,
            Some(t) => match (r, regex_replaced(pattern@, t@, replacement@)) {
                (Some(x), Some(y)) => x@ == y,
                (None, None) => true,
                _ => false,
            },
        },
{
    match text {
        None => None,
        Some(t) => regex_replace_all(pattern, t.as_str(), replacement),
    }
}

/// The first paragraph of a markdown description, as plain text: headings, images, lists and
/// the like passed over, links and emphasis kept as their text. `None` when a pattern of the
/// markup did not compile.
pub fn summary(description: &str) -> (r: Option<String>)
    ensures
        match (r, summary_spec(description@)) {
            (Some(x), Some(y)) => x@ == y,
            (None, None) => true,
            _ => false,
        },
{
    let chars = chars_of(description);
    let text = crlf_to_lf(&chars);
    let pieces = paragraphs(&text);
    let ghost ps = paragraphs_spec(crlf_spec(description@));
    let mut i: usize = 0;
    while i < pieces.len()
        invariant
            i <= pieces.len(),
            pieces@.len() == ps.len(),
            forall|k: int| 0 <= k < pieces@.len() ==> #[trigger] pieces@[k]@ == ps[k],
            summary_spec(description@) == summary_from(ps, i as int),
        decreases pieces.len() - i,
    {
        let p = trim(&pieces[i]);
        let p_text = string_of(p.as_slice());
        if !is_block_paragraph(p_text.as_str()) {
            let words = collapse(&p);
            let step0 = Some(string_of(words.as_slice()));
            let step1 = replace_step(IMAGE_MARKUP, step0, "");
            let step2 = replace_step(LINK_MARKUP, step1, "$1");
            let step3 = replace_step(TAG_MARKUP, step2, "");
            let step4 = replace_step(BOLD_MARKUP, step3, "$2");
            let step5 = replace_step(EMPHASIS_MARKUP, step4, "$1");
            match step5 {
                None => {
                    return None;
                },
                Some(t) => {
                    let t_chars = chars_of(t.as_str());
                    let cleaned = collapse(&t_chars);
                    if cleaned.len() > 0 {
                        return Some(string_of(cleaned.as_slice()));
                    }
                },
            }
        }
        i = i + 1;
    }
    Some(String::new())
}

/// Images of a description: a markdown image with an address, or an HTML image tag.
pub const IMAGE_PATTERN: &'static str = "!\\[([^\\]]*)\\]\\(\\s*<?(https?://[^)\\s>]+)|<img[^>]*>";
/// The address of an HTML image tag.
pub const SRC_PATTERN: &'static str = "\\ssrc=\"(https?://[^\"]+)\"";
/// The alternative text of an HTML image tag.
pub const ALT_PATTERN: &'static str = "\\salt=\"([^\"]*)\"";

/// A group of a match, or nothing where the match has no such group or it took no part.
pub open spec fn group(m: Seq<Option<Seq<char>>>, i: int) -> Option<Seq<char>> {
    if 0 <= i < m.len() {
        m[i]
    } else {
        None
    }
}

/// The first group of the first match of `pattern` in `text`, if any; `None` (outside) when the
/// pattern did not compile.
pub open spec fn first_group(pattern: Seq<char>, text: Seq<char>) -> Option<Option<Seq<char>>> {
    match regex_captured(pattern, text) {
        None => None,
        Some(ms) => if ms.len() > 0 {
            Some(group(ms[0], 1))
        } else {
            Some(None)
        },
    }
}

/// The address and caption of one image match: a markdown image gives its address and text;
/// an HTML tag its `src` and `alt`, and nothing without a `src`. `None` (outside) when a pattern
/// did not compile.
pub open spec fn screenshot_of(m: Seq<Option<Seq<char>>>) -> Option<Option<(Seq<char>, Seq<char>)>> {
    match group(m, 2) {
        Some(url) => Some(Some((url, match group(m, 1) {
            Some(caption) => caption,
            None => Seq::empty(),
        }))),
        None => {
            let tag = match group(m, 0) {
                Some(t) => t,
                None => Seq::empty(),
            };
            match (first_group(ALT_PATTERN@, tag), first_group(SRC_PATTERN@, tag)) {
                (Some(alt), Some(src)) => match src {
                    None => Some(None),
                    Some(url) => Some(Some((url, match alt {
                        Some(caption) => caption,
                        None => Seq::empty(),
                    }))),
                },
                _ => None,
            }
        },
    }
}

/// The images of the matches, in order.
pub open spec fn screenshots_from(ms: Seq<Seq<Option<Seq<char>>>>) -> Option<Seq<(Seq<char>, Seq<char>)>>
    decreases ms.len(),
{
    if ms.len() == 0 {
        Some(Seq::empty())
    } else {
        match screenshots_from(ms.drop_last()) {
            None => None,
            Some(front) => match screenshot_of(ms.last()) {
                None => None,
                Some(None) => Some(front),
                Some(Some(shot)) => Some(front.push(shot)),
            },
        }
    }
}

proof fn lemma_screenshots_fault_stays(ms: Seq<Seq<Option<Seq<char>>>>, n: int)
    requires
        0 <= n <= ms.len(),
        screenshots_from(ms.take(n)) is None,
    ensures
        screenshots_from(ms) is None,
    decreases ms.len() - n,
{
    if n < ms.len() {
        assert(ms.take(n + 1).drop_last() =~= ms.take(n));
        lemma_screenshots_fault_stays(ms, n + 1);
    } else {
        assert(ms.take(n) =~= ms);
    }
}

/// The images of a markdown description, with their alternative texts as captions.
pub open spec fn screenshots_spec(description: Seq<char>) -> Option<Seq<(Seq<char>, Seq<char>)>> {
    match regex_captured(IMAGE_PATTERN@, description) {
        None => None,
        Some(ms) => screenshots_from(ms),
    }
}

fn group_of(m: &Vec<Option<String>>, i: usize) -> (r: Option<String>)
    ensures
        match (r, group(m@.map_values(|g: Option<String>| match g {
            Some(s) => Some(s@),
            None => None,
        }), i as int)) {
            (Some(x), Some(y)) => x@ == y,
            (None, None) => true,
            _ => false,
        },
{
    if i < m.len() {
        match &m[i] {
            Some(s) => Some(s.clone()),
            None => None,
        }
    } else {
        None
    }
}

fn first_group_of(pattern: &str, text: &str) -> (r: Option<Option<String>>)
    ensures
        match (r, first_group(pattern@, text@)) {
            (Some(Some(x)), Some(Some(y))) => x@ == y,
            (Some(None), Some(None)) => true,
            (None, None) => true,
            _ => false,
        },
{
    match regex_captures(pattern, text) {
        None => None,
        Some(ms) => if ms.len() > 0 {
            assert(captures_view(ms)[0] == ms@[0]@.map_values(|g: Option<String>| match g {
                Some(s) => Some(s@),
                None => None,
            }));
            Some(group_of(&ms[0], 1))
        } else {
            Some(None)
        },
    }
}

/// The images of a markdown description, with their alternative texts as captions. `None` when
/// a pattern did not compile.
pub fn screenshots(description: &str) -> (r: Option<Vec<Screenshot>>)
    ensures
        match (r, screenshots_spec(description@)) {
            (Some(v), Some(expected)) => v@.len() == expected.len() && forall|k: int|
                0 <= k < v@.len() ==> (#[trigger] v@[k]).url@ == expected[k].0 && v@[k].caption@
                    == expected[k].1,
            (None, None) => true,
            _ => false,
        },
{
    let ms = match regex_captures(IMAGE_PATTERN, description) {
        None => {
            return None;
        },
        Some(ms) => ms,
    };
    let ghost all = captures_view(ms);
    let mut shots: Vec<Screenshot> = Vec::new();
    let mut i: usize = 0;
    while i < ms.len()
        invariant
            i <= ms.len(),
            all == captures_view(ms),
            screenshots_spec(description@) == screenshots_from(all),
            screenshots_from(all.take(i as int)) matches Some(front) && shots@.len() == front.len()
                && forall|k: int| 0 <= k < shots@.len() ==> (#[trigger] shots@[k]).url@ == front[k].0
                && shots@[k].caption@ == front[k].1,
        decreases ms.len() - i,
    {
        let m = &ms[i];
        let ghost mv = all[i as int];
        assert(mv == m@.map_values(|g: Option<String>| match g {
            Some(s) => Some(s@),
            None => None,
        }));
        assert(all.take(i + 1).drop_last() =~= all.take(i as int));
        assert(all.take(i + 1).last() == mv);
        let shot = match group_of(m, 2) {
            Some(url) => {
                let caption = match group_of(m, 1) {
                    Some(c) => c,
                    None => String::new(),
                };
                Some(Screenshot { url, caption })
            },
            None => {
                let tag = match group_of(m, 0) {
                    Some(t) => t,
                    None => String::new(),
                };
                let alt = first_group_of(ALT_PATTERN, tag.as_str());
                let src = first_group_of(SRC_PATTERN, tag.as_str());
                match (alt, src) {
                    (Some(alt), Some(src)) => match src {
                        None => None,
                        Some(url) => {
                            let caption = match alt {
                                Some(c) => c,
                                None => String::new(),
                            };
                            Some(Screenshot { url, caption })
                        },
                    },
                    _ => {
                        assert(screenshot_of(mv) is None);
                        assert(screenshots_from(all.take(i + 1)) is None);
                        proof {
                            lemma_screenshots_fault_stays(all, i + 1);
                        }
                        return None;
                    },
                }
            },
        };
        let ghost front = screenshots_from(all.take(i as int))->0;
        match shot {
            Some(shot) => {
                let ghost before = shots@;
                shots.push(shot);
                assert forall|k: int| 0 <= k < shots@.len() implies (#[trigger] shots@[k]).url@
                    == front.push((shot.url@, shot.caption@))[k].0 && shots@[k].caption@ == front.push(
                    (shot.url@, shot.caption@),
                )[k].1 by {
                    if k < before.len() {
                        assert(shots@[k] == before[k]);
                    }
                }
            },
            None => {},
        }
        i = i + 1;
    }
    assert(all.take(ms.len() as int) =~= all);
    Some(shots)
}

} // verus!
