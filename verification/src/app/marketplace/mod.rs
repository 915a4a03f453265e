//! Marketplace items shared with LiquidBounce.
//!
//! Both programs read and write `gameDir/<branch>/LiquidBounce/marketplace.json` and the items
//! installed beside it. The client owns the format, so everything here matches what it produces.

pub mod api;
pub mod install;
pub mod listing;
pub mod revisions;
pub mod staging;
pub mod subscriptions;
pub mod view;

use vstd::prelude::*;
use std::collections::BTreeMap;
use vstd::std_specs::iter::IteratorSpec;
use std::path::PathBuf;
use crate::utils::text::{decimal, decimal_string, push_str, views};

verus! {

/// The kinds of marketplace items; kinds this launcher does not know read as `Other`.
#[derive(Debug, Clone, Copy, PartialEq, Eq, Structural)]
pub enum ItemType {
    Config,
    Theme,
    Addon,
    Script,
    Other,
}

/// The name the item kinds had before the marketplace had its own module.
pub type MarketplaceItemType = ItemType;

/// A subscription as read for display and staging. Nothing writes this back: edits change the raw
/// entries, so types and fields this launcher does not know survive.
#[derive(Debug, Clone)]
pub struct SubscribedItem {
    pub name: String,
    pub id: u32,
    pub item_type: ItemType,
}

/// The launcher's data directory and the branch whose game directory holds the items. The
/// places it names are given as path components below the data directory.
pub struct GameDir {
    data: PathBuf,
    branch: String,
}

fn component(s: &str) -> (r: String)
    ensures
        r@ == s@,
{
    let mut r = String::new();
    push_str(&mut r, s);
    r
}

impl GameDir {
    pub fn new(data: PathBuf, branch: String) -> (r: Self)
        ensures
            r.branch_spec() == branch@,
            r.data_spec() == data,
    {
        GameDir { data, branch }
    }

    /// The branch whose game directory this is.
    pub closed spec fn branch_spec(&self) -> Seq<char> {
        self.branch@
    }

    /// The launcher's data directory.
    pub closed spec fn data_spec(&self) -> PathBuf {
        self.data
    }

    /// The launcher's data directory.
    pub fn data(&self) -> (r: &PathBuf)
        ensures
            *r == self.data_spec(),
    {
        &self.data
    }

    /// The directory the game loads mods from.
    pub fn mods(&self) -> (r: Vec<String>)
        ensures
            views(r@) == seq!["gameDir"@, self.branch_spec(), "mods"@],
    {
        let mut r = Vec::new();
        r.push(component("gameDir"));
        r.push(self.branch.clone());
        r.push(component("mods"));
        assert(views(r@) =~= seq!["gameDir"@, self.branch_spec(), "mods"@]);
        r
    }

    /// LiquidBounce's own directory.
    pub fn client(&self) -> (r: Vec<String>)
        ensures
            views(r@) == seq!["gameDir"@, self.branch_spec(), "LiquidBounce"@],
    {
        let mut r = Vec::new();
        r.push(component("gameDir"));
        r.push(self.branch.clone());
        r.push(component("LiquidBounce"));
        assert(views(r@) =~= seq!["gameDir"@, self.branch_spec(), "LiquidBounce"@]);
        r
    }

    /// The file that lists the subscriptions.
    pub fn subscriptions(&self) -> (r: Vec<String>)
        ensures
            views(r@) == seq!["gameDir"@, self.branch_spec(), "LiquidBounce"@, "marketplace.json"@],
    {
        let mut r = self.client();
        let ghost before = views(r@);
        r.push(component("marketplace.json"));
        assert(views(r@) =~= before.push("marketplace.json"@));
        r
    }

    /// The directory an item's revisions are installed in.
    pub fn item(&self, item_id: u32) -> (r: Vec<String>)
        ensures
            views(r@) == seq![
                "gameDir"@,
                self.branch_spec(),
                "LiquidBounce"@,
                "marketplace"@,
                "items"@,
                decimal(item_id as nat),
            ],
    {
        let mut r = self.client();
        let ghost before = views(r@);
        r.push(component("marketplace"));
        r.push(component("items"));
        r.push(decimal_string(item_id as u64));
        assert(views(r@) =~= before.push("marketplace"@).push("items"@).push(decimal(item_id as nat)));
        r
    }
}

/// An edit made while the game runs. LiquidBounce writes its subscriptions back when it exits, so
/// these are applied only then.
#[derive(Clone)]
pub enum Edit {
    Add(SubscribedItem),
    Remove,
}

impl Edit {
    /// A copy of the edit.
    pub fn duplicate(&self) -> (r: Edit)
        ensures
            r == *self,
    {
        match self {
            Edit::Add(item) => Edit::Add(item.duplicate()),
            Edit::Remove => Edit::Remove,
        }
    }
}

/// Whether the addition of the item is queued, under some id.
pub open spec fn added(queued: Map<u32, Edit>, item: SubscribedItem) -> bool {
    exists|id: u32| queued.contains_key(id) && queued[id] == Edit::Add(item)
}

/// Whether two edits undo each other: an addition and a removal.
pub open spec fn undoes(earlier: Edit, later: Edit) -> bool {
    (earlier is Add && later is Remove) || (earlier is Remove && later is Add)
}

/// The queue after `edit` is pushed for `item_id`: both dropped where it undoes the edit
/// queued for the item, else it takes that edit's place.
pub open spec fn push_spec(queued: Map<u32, Edit>, item_id: u32, edit: Edit) -> Map<u32, Edit> {
    if queued.contains_key(item_id) && undoes(queued[item_id], edit) {
        queued.remove(item_id)
    } else {
        queued.insert(item_id, edit)
    }
}

/// The edits waiting for the game to exit, by item.
pub struct Queued(BTreeMap<u32, Edit>);

impl View for Queued {
    type V = Map<u32, Edit>;

    closed spec fn view(&self) -> Map<u32, Edit> {
        self.0@
    }
}

impl Queued {
    /// Nothing queued.
    pub fn new() -> (r: Self)
        ensures
            r@ == Map::<u32, Edit>::empty(),
    {
        Queued(BTreeMap::new())
    }

    /// Queues `edit`, or drops both when it undoes the one queued.
    pub fn push(&mut self, item_id: u32, edit: Edit)
        ensures
            final(self)@ == push_spec(old(self)@, item_id, edit),
    {
        broadcast use vstd::laws_cmp::group_laws_cmp, vstd::std_specs::btree::group_btree_axioms;

        let previous = self.0.remove(&item_id);
        let cancels = match (&previous, &edit) {
            (Some(Edit::Add(_)), Edit::Remove) => true,
            (Some(Edit::Remove), Edit::Add(_)) => true,
            _ => false,
        };
        if !cancels {
            self.0.insert(item_id, edit);
        }
        assert(final(self)@ =~= push_spec(old(self)@, item_id, edit)) by {
            if !cancels {
                assert(old(self)@.remove(item_id).insert(item_id, edit) =~= old(self)@.insert(item_id, edit));
            }
        }
    }

    /// The items whose addition is queued.
    pub fn adding(&self) -> (r: Vec<SubscribedItem>)
        ensures
            forall|i: int| 0 <= i < r@.len() ==> added(self@, #[trigger] r@[i]),
            forall|id: u32| #[trigger] self@.contains_key(id) && self@[id] is Add ==> r@.contains(
                self@[id]->Add_0,
            ),
    {
        broadcast use vstd::laws_cmp::group_laws_cmp, vstd::std_specs::btree::group_btree_axioms;

        let mut r: Vec<SubscribedItem> = Vec::new();
        let ghost m = self@;
        for (id, edit) in it: self.0.iter()
            invariant
                m == self@,
                it.seq() == vstd::std_specs::btree::spec_btree_map_iter(&self.0).remaining(),
                forall|i: int| 0 <= i < r@.len() ==> added(m, #[trigger] r@[i]),
                forall|j: int| 0 <= j < it.index() ==> (#[trigger] it.seq()[j]).1 is Add ==> r@.contains(
                    it.seq()[j].1->Add_0,
                ),
        {
            let ghost k0 = it.index();
            proof {
                let v = vstd::std_specs::btree::spec_btree_map_iter(&self.0).remaining();
                assert(it.seq()[k0] == (id, edit));
                assert(m.contains_key(*v[k0].0));
            }
            let ghost before = r@;
            match edit {
                Edit::Add(item) => {
                    r.push(item.duplicate());
                    assert(r@[r@.len() - 1] == *item);
                },
                Edit::Remove => {},
            }
            assert forall|j: int| 0 <= j < k0 + 1 && (#[trigger] it.seq()[j]).1 is Add implies r@.contains(
                it.seq()[j].1->Add_0,
            ) by {
                if j < k0 {
                    let x = it.seq()[j].1->Add_0;
                    assert(before.contains(x));
                    let k = choose|k: int| 0 <= k < before.len() && before[k] == x;
                    assert(r@[k] == before[k]);
                } else {
                    assert(r@[r@.len() - 1] == it.seq()[j].1->Add_0);
                }
            }
        }
        r
    }

    /// Whether the item's removal is queued.
    pub fn removing(&self, item_id: u32) -> (r: bool)
        ensures
            r == (self@.contains_key(item_id) && self@[item_id] is Remove),
    {
        broadcast use vstd::laws_cmp::group_laws_cmp, vstd::std_specs::btree::group_btree_axioms;

        match self.0.get(&item_id) {
            Some(Edit::Remove) => true,
            _ => false,
        }
    }

    /// How many items have an edit queued.
    pub fn len(&self) -> (r: usize)
        ensures
            r == self@.len(),
    {
        broadcast use vstd::laws_cmp::group_laws_cmp, vstd::std_specs::btree::group_btree_axioms;

        self.0.len()
    }

    /// The queued edits to apply, one per item, in ascending item id.
    pub fn edits(&self) -> (r: Vec<(u32, Edit)>)
        ensures
            r@.len() == self@.len(),
            forall|i: int, j: int| 0 <= i < j < r@.len() ==> r@[i].0 < r@[j].0,
            forall|i: int|
                0 <= i < r@.len() ==> #[trigger] self@.contains_key(r@[i].0) && self@[r@[i].0] == r@[i].1,
            forall|id: u32| #[trigger] self@.contains_key(id) ==> exists|i: int|
                0 <= i < r@.len() && r@[i] == (id, self@[id]),
    {
        broadcast use vstd::laws_cmp::group_laws_cmp, vstd::std_specs::btree::group_btree_axioms;

        let mut r: Vec<(u32, Edit)> = Vec::new();
        let ghost m = self@;
        let ghost whole = vstd::std_specs::btree::spec_btree_map_iter(&self.0).remaining();
        assert(vstd::std_specs::btree::key_obeys_cmp_spec::<u32>());
        let items = self.0.iter();
        for (id, edit) in it: items
            invariant
                m == self@,
                whole == vstd::std_specs::btree::spec_btree_map_iter(&self.0).remaining(),
                it.seq() == whole,
                vstd::std_specs::btree::increasing_seq(whole.map_values(|kv: (&u32, &Edit)| *kv.0)),
                r@.len() == it.index(),
                forall|i: int| 0 <= i < it.index() ==> #[trigger] r@[i] == (*whole[i].0, *whole[i].1),
        {
            r.push((*id, edit.duplicate()));
        }
        proof {
            let keys = whole.map_values(|kv: (&u32, &Edit)| *kv.0);
            assert forall|i: int, j: int| 0 <= i < j < r@.len() implies r@[i].0 < r@[j].0 by {
                assert(vstd::std_specs::btree::increasing_seq(keys));
                assert(vstd::std_specs::cmp::OrdSpec::cmp_spec(&keys[i], &keys[j]) is Less);
                assert(keys[i] == r@[i].0);
                assert(keys[j] == r@[j].0);
            }
            assert forall|id: u32| #[trigger] m.contains_key(id) implies exists|i: int|
                0 <= i < r@.len() && r@[i] == (id, m[id]) by {
                assert(whole.contains((&id, &m[id])));
                let i = choose|i: int| 0 <= i < whole.len() && whole[i] == (&id, &m[id]);
                assert(r@[i] == (id, m[id]));
            }
        }
        r
    }

    /// The queued edits, in the order of their items.
    pub fn entries(&self) -> (r: &BTreeMap<u32, Edit>)
        ensures
            r@ == self@,
    {
        &self.0
    }
}

/// Pushing an edit and then the one that undoes it leaves nothing queued for the item, as
/// long as the first did not itself undo a queued edit.
pub proof fn law_an_edit_undoes_the_opposite_one(
    queued: Map<u32, Edit>,
    item_id: u32,
    edit: Edit,
    opposite: Edit,
)
    requires
        undoes(edit, opposite),
        !(queued.contains_key(item_id) && undoes(queued[item_id], edit)),
    ensures
        push_spec(push_spec(queued, item_id, edit), item_id, opposite) == queued.remove(item_id),
{
    assert(push_spec(queued, item_id, edit) == queued.insert(item_id, edit));
    assert(queued.insert(item_id, edit).remove(item_id) =~= queued.remove(item_id));
}

/// Pushing leaves every other item's edit as it was.
pub proof fn law_push_touches_one_item(queued: Map<u32, Edit>, item_id: u32, edit: Edit, other: u32)
    requires
        other != item_id,
    ensures
        push_spec(queued, item_id, edit).contains_key(other) == queued.contains_key(other),
        queued.contains_key(other) ==> push_spec(queued, item_id, edit)[other] == queued[other],
{
}

/// A call that changes a session: a launch begins, the game exits, or an edit is asked for.
pub enum SessionCall {
    Started,
    Exited,
    Queue(u32, Edit),
}

/// A session after `call`, from whether a game runs and what is queued.
pub open spec fn step(state: (bool, Map<u32, Edit>), call: SessionCall) -> (bool, Map<u32, Edit>) {
    match call {
        SessionCall::Started => (true, state.1),
        SessionCall::Exited => (false, Map::empty()),
        SessionCall::Queue(item_id, edit) => if state.0 {
            (true, push_spec(state.1, item_id, edit))
        } else {
            state
        },
    }
}

/// What `call` hands over to be applied: all that was queued when the game exits, else nothing.
pub open spec fn handed_over(state: (bool, Map<u32, Edit>), call: SessionCall) -> Map<u32, Edit> {
    match call {
        SessionCall::Exited => state.1,
        _ => Map::empty(),
    }
}

/// A new session after `calls`, made in order.
pub open spec fn after_calls(calls: Seq<SessionCall>) -> (bool, Map<u32, Edit>)
    decreases calls.len(),
{
    if calls.len() == 0 {
        (false, Map::empty())
    } else {
        step(after_calls(calls.drop_last()), calls.last())
    }
}

/// Whether a launch began after the last exit among `calls`.
pub open spec fn started_since_exit(calls: Seq<SessionCall>) -> bool {
    exists|i: int|
        0 <= i < calls.len() && #[trigger] calls[i] is Started && forall|j: int|
            i < j < calls.len() ==> !(#[trigger] calls[j] is Exited)
}

/// A game runs exactly when a launch began after the last time the game exited; before any
/// launch none runs.
pub proof fn law_running_follows_the_last_start(calls: Seq<SessionCall>)
    ensures
        after_calls(calls).0 == started_since_exit(calls),
    decreases calls.len(),
{
    if calls.len() > 0 {
        let before = calls.drop_last();
        let n = calls.len() - 1;
        law_running_follows_the_last_start(before);
        assert(before.len() == n);
        match calls.last() {
            SessionCall::Started => {
                assert(calls[n] is Started);
            },
            SessionCall::Exited => {
                if started_since_exit(calls) {
                    let i = choose|i: int|
                        0 <= i < calls.len() && #[trigger] calls[i] is Started && forall|j: int|
                            i < j < calls.len() ==> !(#[trigger] calls[j] is Exited);
                    assert(calls[n] is Exited);
                    assert(i != n);
                    assert(!(calls[n] is Exited));
                }
            },
            SessionCall::Queue(_, _) => {
                assert(calls[n] is Queue);
                if started_since_exit(calls) {
                    let i = choose|i: int|
                        0 <= i < calls.len() && #[trigger] calls[i] is Started && forall|j: int|
                            i < j < calls.len() ==> !(#[trigger] calls[j] is Exited);
                    assert(i < n);
                    assert(before[i] is Started);
                    assert forall|j: int| i < j < before.len() implies !(#[trigger] before[j] is Exited) by {
                        assert(before[j] == calls[j]);
                        assert(!(calls[j] is Exited));
                    }
                    assert(started_since_exit(before));
                }
                if started_since_exit(before) {
                    let i = choose|i: int|
                        0 <= i < before.len() && #[trigger] before[i] is Started && forall|j: int|
                            i < j < before.len() ==> !(#[trigger] before[j] is Exited);
                    assert(calls[i] is Started);
                    assert forall|j: int| i < j < calls.len() implies !(#[trigger] calls[j] is Exited) by {
                        if j < n {
                            assert(calls[j] == before[j]);
                            assert(!(before[j] is Exited));
                        }
                    }
                    assert(started_since_exit(calls));
                }
            },
        }
    }
}

/// Edits wait only while a game runs: whenever none runs, nothing is queued.
pub proof fn law_nothing_waits_without_a_game(calls: Seq<SessionCall>)
    ensures
        !after_calls(calls).0 ==> after_calls(calls).1 == Map::<u32, Edit>::empty(),
    decreases calls.len(),
{
    if calls.len() > 0 {
        law_nothing_waits_without_a_game(calls.drop_last());
    }
}

/// Once the game exited, exiting again hands over nothing and changes nothing.
pub proof fn law_exiting_again_changes_nothing(state: (bool, Map<u32, Edit>))
    ensures
        handed_over(step(state, SessionCall::Exited), SessionCall::Exited) == Map::<u32, Edit>::empty(),
        step(step(state, SessionCall::Exited), SessionCall::Exited) == step(state, SessionCall::Exited),
{
}

/// Whether the game runs, and the edits waiting for it to exit.
pub struct Session {
    /// From the start of a launch until the game exits.
    running: bool,
    queued: Queued,
}

impl Session {
    /// No game running, nothing queued.
    pub fn new() -> (r: Self)
        ensures
            !r.running_spec(),
            r.queued_spec() == Map::<u32, Edit>::empty(),
            r.state_spec() == after_calls(Seq::empty()),
    {
        Session { running: false, queued: Queued::new() }
    }

    pub closed spec fn running_spec(&self) -> bool {
        self.running
    }

    pub closed spec fn queued_spec(&self) -> Map<u32, Edit> {
        self.queued@
    }

    /// Whether a game runs, and what is queued.
    pub open spec fn state_spec(&self) -> (bool, Map<u32, Edit>) {
        (self.running_spec(), self.queued_spec())
    }

    /// The edits waiting for the game to exit.
    pub fn queued(&self) -> (r: &Queued)
        ensures
            r@ == self.queued_spec(),
    {
        &self.queued
    }

    /// Queues `edit` while the game runs, and tells whether it did.
    pub fn queue_while_running(&mut self, item_id: u32, edit: Edit) -> (r: bool)
        ensures
            r == old(self).running_spec(),
            final(self).running_spec() == old(self).running_spec(),
            final(self).queued_spec() == if r {
                push_spec(old(self).queued_spec(), item_id, edit)
            } else {
                old(self).queued_spec()
            },
            final(self).state_spec() == step(old(self).state_spec(), SessionCall::Queue(item_id, edit)),
    {
        if self.running {
            self.queued.push(item_id, edit);
        }
        self.running
    }

    /// The game has exited or failed to start: hands over what was queued, to be applied now,
    /// and leaves nothing queued. Doing so again hands over nothing.
    pub fn game_exited(&mut self) -> (r: Queued)
        ensures
            !final(self).running_spec(),
            r@ == old(self).queued_spec(),
            final(self).queued_spec() == Map::<u32, Edit>::empty(),
            final(self).state_spec() == step(old(self).state_spec(), SessionCall::Exited),
            r@ == handed_over(old(self).state_spec(), SessionCall::Exited),
    {
        self.running = false;
        let mut taken = Queued::new();
        std::mem::swap(&mut taken, &mut self.queued);
        taken
    }
}

/// A launch has begun: edits wait for the game to exit from now on.
pub fn game_started(session: &mut Session)
    ensures
        final(session).running_spec(),
        final(session).queued_spec() == old(session).queued_spec(),
        final(session).state_spec() == step(old(session).state_spec(), SessionCall::Started),
{
    session.running = true;
}

/// Whether a game runs.
pub fn game_running(session: &Session) -> (r: bool)
    ensures
        r == session.running_spec(),
{
    session.running
}

} // verus!
