//! Add-ons are ordinary Fabric mods: each launch copies the subscribed ones into the mods
//! directory, in the revision that fits the launched build. The launcher remembers which
//! revision it staged for which build, so it can stage it again when the marketplace cannot
//! be asked.

use vstd::prelude::*;
use super::api::Revision;
use super::{ItemType, SubscribedItem};
use super::revisions::{display_version, display_version_spec, first_with_id, pick, pick_notice_spec};
use crate::app::client_api::Build;
use crate::utils::text::{decimal, push_decimal, push_str, str_eq};

verus! {

/// An add-on revision staged for a build with these versions.
#[derive(Debug)]
pub struct Staged {
    pub item: u32,
    pub liquidbounce: String,
    pub minecraft: String,
    pub revision: u32,
    pub version: String,
}

impl Staged {
    /// Whether this record is for the item on a build with these versions.
    pub open spec fn is_for_spec(self, item: u32, liquidbounce: Seq<char>, minecraft: Seq<char>) -> bool {
        self.item == item && self.liquidbounce@ == liquidbounce && self.minecraft@ == minecraft
    }

    /// The record of `revision` of `item` staged for `build`.
    pub fn for_build(build: &Build, item: u32, revision: &Revision) -> (r: Staged)
        ensures
            r.item == item,
            r.liquidbounce@ == build.lb_version@,
            r.minecraft@ == build.mc_version@,
            r.revision == revision.id,
            r.version@ == revision.version@,
    {
        Staged {
            item,
            liquidbounce: build.lb_version.clone(),
            minecraft: build.mc_version.clone(),
            revision: revision.id,
            version: revision.version.clone(),
        }
    }

    pub fn is_for(&self, item: u32, liquidbounce: &str, minecraft: &str) -> (r: bool)
        ensures
            r == self.is_for_spec(item, liquidbounce@, minecraft@),
    {
        self.item == item && str_eq(self.liquidbounce.as_str(), liquidbounce) && str_eq(
            self.minecraft.as_str(),
            minecraft,
        )
    }

    /// A copy of the record.
    pub fn duplicate(&self) -> (r: Staged)
        ensures
            r == *self,
    {
        Staged {
            item: self.item,
            liquidbounce: self.liquidbounce.clone(),
            minecraft: self.minecraft.clone(),
            revision: self.revision,
            version: self.version.clone(),
        }
    }
}

/// The launcher's own record of what it staged, below its data directory; the client never
/// reads it.
pub fn staged_path() -> (r: String)
    ensures
        r@ == "staged_addons.json"@,
{
    let mut r = String::new();
    push_str(&mut r, "staged_addons.json");
    r
}

/// The name an add-on's jar is staged under in the mods directory,
/// `liquidbounce-addon-<item>-<revision>.jar`: LiquidBounce's own installer writes the same, so
/// a jar staged by either program is recognised by the other.
pub open spec fn staged_jar_spec(item_id: u32, revision_id: u32) -> Seq<char> {
    "liquidbounce-addon-"@ + decimal(item_id as nat) + "-"@ + decimal(revision_id as nat) + ".jar"@
}

/// The name an add-on's jar is staged under in the mods directory.
pub fn staged_jar_name(item_id: u32, revision_id: u32) -> (r: String)
    ensures
        r@ == staged_jar_spec(item_id, revision_id),
{
    let mut r = String::new();
    push_str(&mut r, "liquidbounce-addon-");
    push_decimal(&mut r, item_id as u64);
    push_str(&mut r, "-");
    push_decimal(&mut r, revision_id as u64);
    push_str(&mut r, ".jar");
    r
}

/// The name a jar is copied to before it takes its place: Fabric ignores what does not end in
/// `.jar`, so a copy cut short leaves no truncated jar behind.
pub fn copying_name(name: &str) -> (r: String)
    ensures
        r@ == name@ + ".part"@,
{
    let mut r = String::new();
    push_str(&mut r, name);
    push_str(&mut r, ".part");
    r
}

/// The position of the first record for the item on a build with these versions.
pub open spec fn last_staged_spec(
    staged: Seq<Staged>,
    item: u32,
    liquidbounce: Seq<char>,
    minecraft: Seq<char>,
) -> Option<int>
    decreases staged.len(),
{
    if staged.len() == 0 {
        None
    } else {
        match last_staged_spec(staged.drop_last(), item, liquidbounce, minecraft) {
            Some(k) => Some(k),
            None => if staged.last().is_for_spec(item, liquidbounce, minecraft) {
                Some(staged.len() - 1)
            } else {
                None
            },
        }
    }
}

pub proof fn lemma_last_staged(staged: Seq<Staged>, item: u32, liquidbounce: Seq<char>, minecraft: Seq<char>)
    ensures
        match last_staged_spec(staged, item, liquidbounce, minecraft) {
            Some(k) => {
                &&& 0 <= k < staged.len()
                &&& staged[k].is_for_spec(item, liquidbounce, minecraft)
                &&& forall|j: int| 0 <= j < k ==> !(#[trigger] staged[j]).is_for_spec(item, liquidbounce, minecraft)
            },
            None => forall|j: int| 0 <= j < staged.len() ==> !(#[trigger] staged[j]).is_for_spec(item, liquidbounce, minecraft),
        },
    decreases staged.len(),
{
    if staged.len() > 0 {
        lemma_last_staged(staged.drop_last(), item, liquidbounce, minecraft);
        assert forall|j: int| 0 <= j < staged.len() - 1 implies #[trigger] staged[j] == staged.drop_last()[j] by {}
    }
}

/// The revision staged for the item on a build with these versions last time.
pub fn last_staged<'a>(
    staged: &'a Vec<Staged>,
    item: u32,
    liquidbounce: &str,
    minecraft: &str,
) -> (r: Option<&'a Staged>)
    ensures
        match last_staged_spec(staged@, item, liquidbounce@, minecraft@) {
            Some(k) => r matches Some(s) && *s == staged@[k],
            None => r is None,
        },
{
    proof {
        lemma_last_staged(staged@, item, liquidbounce@, minecraft@);
    }
    let mut i: usize = 0;
    while i < staged.len()
        invariant
            i <= staged.len(),
            forall|j: int| 0 <= j < i ==> !(#[trigger] staged@[j]).is_for_spec(item, liquidbounce@, minecraft@),
            match last_staged_spec(staged@, item, liquidbounce@, minecraft@) {
                Some(k) => {
                    &&& 0 <= k < staged.len()
                    &&& staged@[k].is_for_spec(item, liquidbounce@, minecraft@)
                    &&& forall|j: int| 0 <= j < k ==> !(#[trigger] staged@[j]).is_for_spec(item, liquidbounce@, minecraft@)
                },
                None => forall|j: int| 0 <= j < staged.len() ==> !(#[trigger] staged@[j]).is_for_spec(item, liquidbounce@, minecraft@),
            },
        decreases staged.len() - i,
    {
        if staged[i].is_for(item, liquidbounce, minecraft) {
            return Some(&staged[i]);
        }
        i = i + 1;
    }
    None
}

/// The records not for the item on a build with these versions, in order.
pub open spec fn others(staged: Seq<Staged>, item: u32, liquidbounce: Seq<char>, minecraft: Seq<char>) -> Seq<Staged>
    decreases staged.len(),
{
    if staged.len() == 0 {
        Seq::empty()
    } else {
        let front = others(staged.drop_last(), item, liquidbounce, minecraft);
        if staged.last().is_for_spec(item, liquidbounce, minecraft) {
            front
        } else {
            front.push(staged.last())
        }
    }
}

/// The records after `staged` is remembered: the one for the same item and build replaced,
/// the new one last.
pub open spec fn remember_spec(remembered: Seq<Staged>, staged: Staged) -> Seq<Staged> {
    others(remembered, staged.item, staged.liquidbounce@, staged.minecraft@).push(staged)
}

pub proof fn lemma_others(staged: Seq<Staged>, item: u32, liquidbounce: Seq<char>, minecraft: Seq<char>)
    ensures
        forall|j: int| 0 <= j < others(staged, item, liquidbounce, minecraft).len()
            ==> !(#[trigger] others(staged, item, liquidbounce, minecraft)[j]).is_for_spec(item, liquidbounce, minecraft),
        forall|j: int| 0 <= j < others(staged, item, liquidbounce, minecraft).len()
            ==> staged.contains(#[trigger] others(staged, item, liquidbounce, minecraft)[j]),
        others(staged, item, liquidbounce, minecraft).len() <= staged.len(),
    decreases staged.len(),
{
    if staged.len() > 0 {
        lemma_others(staged.drop_last(), item, liquidbounce, minecraft);
        let front = others(staged.drop_last(), item, liquidbounce, minecraft);
        assert forall|j: int| 0 <= j < front.len() implies staged.contains(#[trigger] front[j]) by {
            assert(staged.drop_last().contains(front[j]));
            let k = choose|k: int| 0 <= k < staged.drop_last().len() && staged.drop_last()[k] == front[j];
            assert(staged[k] == front[j]);
        }
        assert(staged[staged.len() - 1] == staged.last());
    }
}

/// Remembers that `staged` went to its build, in place of what went to that build before.
pub fn remember(remembered: &mut Vec<Staged>, staged: Staged)
    ensures
        final(remembered)@ == remember_spec(old(remembered)@, staged),
{
    let ghost all = remembered@;
    let mut kept: Vec<Staged> = Vec::new();
    let mut i: usize = 0;
    while i < remembered.len()
        invariant
            remembered@ == all,
            i <= remembered.len(),
            kept@ == others(all.take(i as int), staged.item, staged.liquidbounce@, staged.minecraft@),
        decreases remembered.len() - i,
    {
        assert(all.take(i + 1).drop_last() =~= all.take(i as int));
        if !remembered[i].is_for(staged.item, staged.liquidbounce.as_str(), staged.minecraft.as_str()) {
            kept.push(remembered[i].duplicate());
        }
        i = i + 1;
    }
    assert(all.take(all.len() as int) =~= all);
    kept.push(staged);
    *remembered = kept;
}

/// No two records are for the same item on a build with the same versions.
pub open spec fn one_per_build(staged: Seq<Staged>) -> bool {
    forall|i: int, j: int| 0 <= i < j < staged.len() ==> !(#[trigger] staged[i]).is_for_spec(
        (#[trigger] staged[j]).item,
        staged[j].liquidbounce@,
        staged[j].minecraft@,
    )
}

proof fn lemma_others_subsequence(staged: Seq<Staged>, item: u32, liquidbounce: Seq<char>, minecraft: Seq<char>)
    requires
        one_per_build(staged),
    ensures
        one_per_build(others(staged, item, liquidbounce, minecraft)),
    decreases staged.len(),
{
    if staged.len() > 0 {
        let rest = staged.drop_last();
        assert(one_per_build(rest)) by {
            assert forall|i: int, j: int| 0 <= i < j < rest.len() implies !(#[trigger] rest[i]).is_for_spec(
                (#[trigger] rest[j]).item,
                rest[j].liquidbounce@,
                rest[j].minecraft@,
            ) by {
                assert(rest[i] == staged[i] && rest[j] == staged[j]);
            }
        }
        lemma_others_subsequence(rest, item, liquidbounce, minecraft);
        lemma_others(rest, item, liquidbounce, minecraft);
        let front = others(rest, item, liquidbounce, minecraft);
        let last = staged.last();
        if !last.is_for_spec(item, liquidbounce, minecraft) {
            let after = front.push(last);
            assert forall|i: int, j: int| 0 <= i < j < after.len() implies !(#[trigger] after[i]).is_for_spec(
                (#[trigger] after[j]).item,
                after[j].liquidbounce@,
                after[j].minecraft@,
            ) by {
                if j == after.len() - 1 {
                    assert(rest.contains(front[i]));
                    let k = choose|k: int| 0 <= k < rest.len() && rest[k] == front[i];
                    assert(staged[k] == front[i]);
                    assert(staged[staged.len() - 1] == last);
                } else {
                    assert(after[i] == front[i] && after[j] == front[j]);
                }
            }
        }
    }
}

/// Remembering keeps one record for each item and build: the one remembered replaces the one
/// before it.
pub proof fn law_remember_keeps_one_record_per_build(remembered: Seq<Staged>, staged: Staged)
    requires
        one_per_build(remembered),
    ensures
        one_per_build(remember_spec(remembered, staged)),
{
    let front = others(remembered, staged.item, staged.liquidbounce@, staged.minecraft@);
    lemma_others_subsequence(remembered, staged.item, staged.liquidbounce@, staged.minecraft@);
    lemma_others(remembered, staged.item, staged.liquidbounce@, staged.minecraft@);
    let after = front.push(staged);
    assert forall|i: int, j: int| 0 <= i < j < after.len() implies !(#[trigger] after[i]).is_for_spec(
        (#[trigger] after[j]).item,
        after[j].liquidbounce@,
        after[j].minecraft@,
    ) by {
        if j == after.len() - 1 {
            assert(after[i] == front[i]);
        } else {
            assert(after[i] == front[i] && after[j] == front[j]);
        }
    }
}

/// After a revision is remembered for a build, it is the one found for that build, and no
/// other record for the build is left.
pub proof fn law_remember_then_last_staged(remembered: Seq<Staged>, staged: Staged)
    ensures
        ({
            let after = remember_spec(remembered, staged);
            &&& last_staged_spec(after, staged.item, staged.liquidbounce@, staged.minecraft@)
                == Some(after.len() - 1)
            &&& after.last() == staged
        }),
{
    let after = remember_spec(remembered, staged);
    let front = others(remembered, staged.item, staged.liquidbounce@, staged.minecraft@);
    lemma_others(remembered, staged.item, staged.liquidbounce@, staged.minecraft@);
    lemma_last_staged(front, staged.item, staged.liquidbounce@, staged.minecraft@);
    assert(after.drop_last() =~= front);
}

/// Remembering keeps what was staged for every other item or build.
pub proof fn law_remember_keeps_other_builds(
    remembered: Seq<Staged>,
    staged: Staged,
    item: u32,
    liquidbounce: Seq<char>,
    minecraft: Seq<char>,
)
    requires
        !staged.is_for_spec(item, liquidbounce, minecraft),
    ensures
        match last_staged_spec(remembered, item, liquidbounce, minecraft) {
            Some(k) => last_staged_spec(remember_spec(remembered, staged), item, liquidbounce, minecraft)
                matches Some(j) && remember_spec(remembered, staged)[j] == remembered[k],
            None => last_staged_spec(remember_spec(remembered, staged), item, liquidbounce, minecraft) is None,
        },
{
    let after = remember_spec(remembered, staged);
    let front = others(remembered, staged.item, staged.liquidbounce@, staged.minecraft@);
    assert(after.drop_last() =~= front);
    lemma_others_find(remembered, staged, item, liquidbounce, minecraft);
    lemma_last_staged(front, item, liquidbounce, minecraft);
    if let Some(j) = last_staged_spec(front, item, liquidbounce, minecraft) {
        assert(after[j] == front[j]);
    }
}

proof fn lemma_others_find(
    remembered: Seq<Staged>,
    staged: Staged,
    item: u32,
    liquidbounce: Seq<char>,
    minecraft: Seq<char>,
)
    requires
        !staged.is_for_spec(item, liquidbounce, minecraft),
    ensures
        ({
            let front = others(remembered, staged.item, staged.liquidbounce@, staged.minecraft@);
            match last_staged_spec(remembered, item, liquidbounce, minecraft) {
                Some(k) => last_staged_spec(front, item, liquidbounce, minecraft) matches Some(j)
                    && front[j] == remembered[k],
                None => last_staged_spec(front, item, liquidbounce, minecraft) is None,
            }
        }),
    decreases remembered.len(),
{
    if remembered.len() > 0 {
        let rest = remembered.drop_last();
        lemma_others_find(rest, staged, item, liquidbounce, minecraft);
        let front = others(rest, staged.item, staged.liquidbounce@, staged.minecraft@);
        let last = remembered.last();
        if !last.is_for_spec(staged.item, staged.liquidbounce@, staged.minecraft@) {
            assert(front.push(last).drop_last() =~= front);
            lemma_last_staged(front, item, liquidbounce, minecraft);
            if let Some(j) = last_staged_spec(front, item, liquidbounce, minecraft) {
                assert(front.push(last)[j] == front[j]);
            }
        }
        if let Some(k) = last_staged_spec(rest, item, liquidbounce, minecraft) {
            lemma_last_staged(rest, item, liquidbounce, minecraft);
            assert(rest[k] == remembered[k]);
        }
    }
}

/// The add-ons among the subscriptions, in order.
pub open spec fn addons_spec(items: Seq<SubscribedItem>) -> Seq<SubscribedItem>
    decreases items.len(),
{
    if items.len() == 0 {
        Seq::empty()
    } else if items.last().item_type == ItemType::Addon {
        addons_spec(items.drop_last()).push(items.last())
    } else {
        addons_spec(items.drop_last())
    }
}

/// Keeps the add-ons of the subscriptions, in order.
pub fn addons(items: Vec<SubscribedItem>) -> (r: Vec<SubscribedItem>)
    ensures
        r@ == addons_spec(items@),
{
    let ghost all = items@;
    let mut rest = items;
    let mut kept: Vec<SubscribedItem> = Vec::new();
    let ghost mut k: int = 0;
    assert(kept@ =~= addons_spec(all.take(0)));
    while rest.len() > 0
        invariant
            0 <= k <= all.len(),
            rest@ == all.skip(k),
            kept@ == addons_spec(all.take(k)),
        decreases rest.len(),
    {
        let item = rest.remove(0);
        assert(item == all[k]);
        assert(all.take(k + 1).drop_last() =~= all.take(k));
        if item.item_type == ItemType::Addon {
            kept.push(item);
        }
        proof {
            k = k + 1;
        }
        assert(rest@ =~= all.skip(k));
    }
    assert(all.take(all.len() as int) =~= all);
    kept
}

/// The names of the items, each after a `, ` but the first.
pub open spec fn joined_names(items: Seq<SubscribedItem>) -> Seq<char>
    decreases items.len(),
{
    if items.len() == 0 {
        Seq::empty()
    } else if items.len() == 1 {
        items[0].name@
    } else {
        joined_names(items.drop_last()) + ", "@ + items.last().name@
    }
}

/// What the launch logs when the build predates add-ons.
pub fn predates_addons_notice(addons: &Vec<SubscribedItem>) -> (r: String)
    ensures
        r@ == "This build predates add-ons, so "@ + joined_names(addons@) + " will not load."@,
{
    let mut names = String::new();
    let mut i: usize = 0;
    while i < addons.len()
        invariant
            i <= addons.len(),
            names@ == joined_names(addons@.take(i as int)),
        decreases addons.len() - i,
    {
        assert(addons@.take(i + 1).drop_last() =~= addons@.take(i as int));
        if i > 0 {
            push_str(&mut names, ", ");
        }
        push_str(&mut names, addons[i].name.as_str());
        i = i + 1;
        assert(i == 1 ==> addons@.take(i as int)[0] == addons@[0]);
        assert(names@ =~= joined_names(addons@.take(i as int)));
    }
    assert(addons@.take(addons@.len() as int) =~= addons@);
    let mut r = String::new();
    push_str(&mut r, "This build predates add-ons, so ");
    push_str(&mut r, names.as_str());
    push_str(&mut r, " will not load.");
    r
}

/// What staging logs when the marketplace cannot be asked: that there is nothing to stage,
/// or which version is staged as last time.
pub open spec fn lookup_failed_notice_spec(name: Seq<char>, last: Option<Staged>) -> Seq<char> {
    match last {
        None => "Could not look up "@ + name + "."@,
        Some(last) => "Could not look up "@ + name + ", staging "@ + display_version_spec(
            last.version@,
        ) + " as last time."@,
    }
}

/// The revision to stage for `item`, and the one to fall back on when installing it fails: the
/// one `pick` chooses from what the marketplace answered (`looked_up`), or without an answer the
/// one staged for the build's versions last time, with no fallback. With it, the line to log:
/// what `pick` tells, or without an answer that the item could not be looked up, and whether
/// the last one is taken.
pub fn choose_staged(
    build: &Build,
    item: &SubscribedItem,
    looked_up: Option<(&Vec<Revision>, Option<&Revision>)>,
    installed: Option<u32>,
    remembered: &Vec<Staged>,
) -> (r: (Option<(Staged, Option<Staged>)>, Option<String>))
    ensures
        match looked_up {
            Some((fitting, _)) => match r.0 {
                None => fitting@.len() == 0,
                Some((target, fallback)) => {
                    &&& fitting@.len() > 0
                    &&& target.item == item.id && target.revision == fitting@[0].id
                    &&& target.liquidbounce@ == build.lb_version@
                    &&& target.minecraft@ == build.mc_version@
                    &&& target.version@ == fitting@[0].version@
                    &&& match installed {
                        Some(id) => match first_with_id(fitting@, id) {
                            Some(k) => fallback matches Some(f) && f.revision == fitting@[k].id
                                && f.version@ == fitting@[k].version@ && f.item == item.id
                                && f.liquidbounce@ == build.lb_version@ && f.minecraft@
                                == build.mc_version@,
                            None => fallback is None,
                        },
                        None => fallback is None,
                    }
                },
            },
            None => match last_staged_spec(remembered@, item.id, build.lb_version@, build.mc_version@) {
                None => r.0 is None,
                Some(k) => r.0 == Some::<(Staged, Option<Staged>)>((remembered@[k], None)),
            },
        },
        match looked_up {
            Some((fitting, newest)) => match (r.1, pick_notice_spec(item.name@, build.lb_version@, fitting@, newest)) {
                (Some(m), Some(expected)) => m@ == expected,
                (None, None) => true,
                _ => false,
            },
            None => r.1 matches Some(m) && m@ == lookup_failed_notice_spec(
                item.name@,
                match last_staged_spec(remembered@, item.id, build.lb_version@, build.mc_version@) {
                    Some(k) => Some(remembered@[k]),
                    None => None,
                },
            ),
        },
{
    match looked_up {
        Some((fitting, newest)) => {
            let (picked, notice) = pick(item, build.lb_version.as_str(), fitting, newest, installed);
            match picked {
                None => (None, notice),
                Some((target, fallback)) => {
                    let staged = Staged::for_build(build, item.id, target);
                    let fallback = match fallback {
                        Some(f) => Some(Staged::for_build(build, item.id, f)),
                        None => None,
                    };
                    (Some((staged, fallback)), notice)
                },
            }
        },
        None => {
            let last = last_staged(remembered, item.id, build.lb_version.as_str(), build.mc_version.as_str());
            let mut message = String::new();
            push_str(&mut message, "Could not look up ");
            push_str(&mut message, item.name.as_str());
            match last {
                None => {
                    push_str(&mut message, ".");
                    (None, Some(message))
                },
                Some(last) => {
                    push_str(&mut message, ", staging ");
                    let version = display_version(last.version.as_str());
                    push_str(&mut message, version.as_str());
                    push_str(&mut message, " as last time.");
                    (Some((last.duplicate(), None)), Some(message))
                },
            }
        },
    }
}

/// The label shown while an add-on is installed for staging.
pub fn installing_label(name: &str) -> (r: String)
    ensures
        r@ == "Installing add-on "@ + name@,
{
    let mut r = String::new();
    push_str(&mut r, "Installing add-on ");
    push_str(&mut r, name);
    r
}

/// What is logged when an add-on ends up with nothing to stage.
pub fn not_installed_message(name: &str) -> (r: String)
    ensures
        r@ == "Could not install "@ + name@ + "."@,
{
    let mut r = String::new();
    push_str(&mut r, "Could not install ");
    push_str(&mut r, name);
    push_str(&mut r, ".");
    r
}

/// Whether the revision to stage is installed already, so that its jar is taken as it is (and
/// installed again only where that fails).
pub fn reuses_installed(installed: Option<u32>, target: &Staged) -> (r: bool)
    ensures
        r == (installed == Some(target.revision)),
{
    match installed {
        Some(id) => id == target.revision,
        None => false,
    }
}

/// The revision staged after installing the chosen one: it, where installing went well, else
/// the fallback, if any.
pub fn after_install(installed_ok: bool, target: Staged, fallback: Option<Staged>) -> (r: Option<Staged>)
    ensures
        installed_ok ==> r == Some(target),
        !installed_ok ==> r == fallback,
{
    if installed_ok {
        Some(target)
    } else {
        fallback
    }
}

} // verus!
