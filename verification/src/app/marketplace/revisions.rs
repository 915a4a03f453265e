//! Which revision of an item fits a build, and how the launcher words it.

use vstd::prelude::*;
use super::api::{LiquidBounceRange, Revision};
use super::SubscribedItem;
use crate::app::client_api::Build;
use crate::utils::text::{chars_of, push_str};

verus! {

/// Days from 1970-01-01 to the given day of the proleptic Gregorian calendar.
pub open spec fn days_from_civil(year: int, month: int, day: int) -> int {
    let y = if month <= 2 { year - 1 } else { year };
    let era = y / 400;
    let year_of_era = y - era * 400;
    let shifted_month = if month > 2 { month - 3 } else { month + 9 };
    let day_of_year = (153 * shifted_month + 2) / 5 + day - 1;
    let day_of_era = year_of_era * 365 + year_of_era / 4 - year_of_era / 100 + day_of_year;
    era * 146097 + day_of_era - 719468
}

/// Seconds since the epoch at the given time of day, in UTC.
pub open spec fn unix_seconds(year: int, month: int, day: int, hour: int, minute: int, second: int) -> int {
    days_from_civil(year, month, day) * 86400 + hour * 3600 + minute * 60 + second
}

/// Seconds since the epoch at the given UTC time.
pub fn utc_seconds(year: i64, month: i64, day: i64, hour: i64, minute: i64, second: i64) -> (r: i64)
    requires
        1 <= year <= 9999,
        1 <= month <= 12,
        1 <= day <= 31,
        0 <= hour < 24,
        0 <= minute < 60,
        0 <= second < 60,
    ensures
        r == unix_seconds(year as int, month as int, day as int, hour as int, minute as int, second as int),
{
    let y: i64 = if month <= 2 { year - 1 } else { year };
    let era: i64 = y / 400;
    assert(0 <= era <= 25);
    let year_of_era: i64 = y - era * 400;
    assert(0 <= year_of_era < 400);
    let shifted_month: i64 = if month > 2 { month - 3 } else { month + 9 };
    let day_of_year: i64 = (153 * shifted_month + 2) / 5 + day - 1;
    let day_of_era: i64 = year_of_era * 365 + year_of_era / 4 - year_of_era / 100 + day_of_year;
    let days: i64 = era * 146097 + day_of_era - 719468;
    days * 86400 + hour * 3600 + minute * 60 + second
}

/// A build's date is its commit date, and LiquidBounce brought add-ons with the commit of
/// 2026-09-14 17:38:44 UTC. The version cannot tell: 0.40.1 builds exist on both sides of it.
pub open spec fn supports_addons_spec(build: Build) -> bool {
    build.date >= unix_seconds(2026, 9, 14, 17, 38, 44)
}

/// Whether the build loads add-ons.
pub fn supports_addons(build: &Build) -> (r: bool)
    ensures
        r == supports_addons_spec(*build),
{
    build.date >= utc_seconds(2026, 9, 14, 17, 38, 44)
}

/// Whether a character is an ASCII digit.
pub open spec fn is_digit(c: char) -> bool {
    '0' <= c && c <= '9'
}

/// Versions read `v1.0.0` whether or not the marketplace names them so.
pub open spec fn display_version_spec(version: Seq<char>) -> Seq<char> {
    if version.len() > 0 && is_digit(version[0]) {
        "v"@ + version
    } else {
        version
    }
}

/// The version as the launcher shows it.
pub fn display_version(version: &str) -> (r: String)
    ensures
        r@ == display_version_spec(version@),
{
    let chars = chars_of(version);
    let mut r = String::new();
    if chars.len() > 0 && '0' <= chars[0] && chars[0] <= '9' {
        push_str(&mut r, "v");
    }
    push_str(&mut r, version);
    r
}

/// A version shown once is shown the same again: `v` is put in front of a leading digit only.
pub proof fn law_display_version_is_idempotent(version: Seq<char>)
    ensures
        display_version_spec(display_version_spec(version)) == display_version_spec(version),
{
    reveal_strlit("v");
    if version.len() > 0 && is_digit(version[0]) {
        assert(("v"@ + version)[0] == 'v');
    }
}

/// A build dated after one that supports add-ons supports them as well.
pub proof fn law_later_builds_support_addons(earlier: Build, later: Build)
    requires
        supports_addons_spec(earlier),
        earlier.date <= later.date,
    ensures
        supports_addons_spec(later),
{
}

/// `LiquidBounce v0.39.0 - 0.40.0`, the builds a revision fits.
pub open spec fn range_label_spec(range: LiquidBounceRange) -> Seq<char> {
    if range.min@ == range.max@ {
        "LiquidBounce v"@ + range.min@
    } else {
        "LiquidBounce v"@ + range.min@ + " - "@ + range.max@
    }
}

pub fn range_label(range: &LiquidBounceRange) -> (r: String)
    ensures
        r@ == range_label_spec(*range),
{
    let mut r = String::new();
    push_str(&mut r, "LiquidBounce v");
    push_str(&mut r, range.min.as_str());
    if range.min != range.max {
        push_str(&mut r, " - ");
        push_str(&mut r, range.max.as_str());
    }
    r
}

/// `Extras is not for LiquidBounce v0.40.1.`
pub open spec fn no_version_spec(name: Seq<char>, liquidbounce: Seq<char>) -> Seq<char> {
    name + " is not for LiquidBounce "@ + display_version_spec(liquidbounce) + "."@
}

pub fn no_version(name: &str, liquidbounce: &str) -> (r: String)
    ensures
        r@ == no_version_spec(name@, liquidbounce@),
{
    let mut r = String::new();
    push_str(&mut r, name);
    push_str(&mut r, " is not for LiquidBounce ");
    let version = display_version(liquidbounce);
    push_str(&mut r, version.as_str());
    push_str(&mut r, ".");
    r
}

/// `v1.1.0 needs LiquidBounce v0.41.0`, what a revision needs; nothing where no build fits it.
pub open spec fn needs_spec(revision: Revision) -> Option<Seq<char>> {
    match revision.liquidbounce {
        Some(range) => Some(display_version_spec(revision.version@) + " needs "@ + range_label_spec(range)),
        None => None,
    }
}

pub fn needs(revision: &Revision) -> (r: Option<String>)
    ensures
        match (r, needs_spec(*revision)) {
            (Some(x), Some(y)) => x@ == y,
            (None, None) => true,
            _ => false,
        },
{
    match &revision.liquidbounce {
        Some(range) => {
            let mut r = display_version(revision.version.as_str());
            push_str(&mut r, " needs ");
            let label = range_label(range);
            push_str(&mut r, label.as_str());
            Some(r)
        },
        None => None,
    }
}

/// `Extras stays on v1.0.0: v1.1.0 needs LiquidBounce v0.41.0.`, or without the range the
/// newest fits no build: `Extras stays on v1.0.0.`
pub open spec fn held_back_spec(name: Seq<char>, target: Revision, newest: Revision) -> Seq<char> {
    let stays = name + " stays on "@ + display_version_spec(target.version@);
    match needs_spec(newest) {
        Some(needed) => stays + ": "@ + needed + "."@,
        None => stays + "."@,
    }
}

pub fn held_back(name: &str, target: &Revision, newest: &Revision) -> (r: String)
    ensures
        r@ == held_back_spec(name@, *target, *newest),
{
    let mut r = String::new();
    push_str(&mut r, name);
    push_str(&mut r, " stays on ");
    let stays = display_version(target.version.as_str());
    push_str(&mut r, stays.as_str());
    match needs(newest) {
        Some(needed) => {
            push_str(&mut r, ": ");
            push_str(&mut r, needed.as_str());
            push_str(&mut r, ".");
        },
        None => {
            push_str(&mut r, ".");
        },
    }
    r
}

/// The first position of a revision with the given id.
pub open spec fn first_with_id(revisions: Seq<Revision>, id: u32) -> Option<int>
    decreases revisions.len(),
{
    if revisions.len() == 0 {
        None
    } else {
        match first_with_id(revisions.drop_last(), id) {
            Some(k) => Some(k),
            None => if revisions.last().id == id {
                Some(revisions.len() - 1)
            } else {
                None
            },
        }
    }
}

pub proof fn lemma_first_with_id(revisions: Seq<Revision>, id: u32)
    ensures
        match first_with_id(revisions, id) {
            Some(k) => 0 <= k < revisions.len() && revisions[k].id == id && forall|j: int|
                0 <= j < k ==> #[trigger] revisions[j].id != id,
            None => forall|j: int| 0 <= j < revisions.len() ==> #[trigger] revisions[j].id != id,
        },
    decreases revisions.len(),
{
    if revisions.len() > 0 {
        lemma_first_with_id(revisions.drop_last(), id);
        assert forall|j: int| 0 <= j < revisions.len() - 1 implies #[trigger] revisions[j]
            == revisions.drop_last()[j] by {}
    }
}

/// The position of the first revision with the given id.
fn position_of_id(revisions: &Vec<Revision>, id: u32) -> (r: Option<usize>)
    ensures
        match r {
            Some(k) => first_with_id(revisions@, id) == Some(k as int),
            None => first_with_id(revisions@, id) is None,
        },
{
    proof {
        lemma_first_with_id(revisions@, id);
    }
    let mut i: usize = 0;
    while i < revisions.len()
        invariant
            i <= revisions.len(),
            forall|j: int| 0 <= j < i ==> #[trigger] revisions@[j].id != id,
            match first_with_id(revisions@, id) {
                Some(k) => 0 <= k < revisions.len() && revisions@[k].id == id && forall|j: int|
                    0 <= j < k ==> #[trigger] revisions@[j].id != id,
                None => forall|j: int| 0 <= j < revisions.len() ==> #[trigger] revisions@[j].id != id,
            },
        decreases revisions.len() - i,
    {
        if revisions[i].id == id {
            return Some(i);
        }
        i = i + 1;
    }
    None
}

/// What picking logs: that nothing fits, or that the newest revision is held back.
pub open spec fn pick_notice_spec(
    name: Seq<char>,
    liquidbounce: Seq<char>,
    fitting: Seq<Revision>,
    newest: Option<&Revision>,
) -> Option<Seq<char>> {
    if fitting.len() == 0 {
        Some(no_version_spec(name, liquidbounce))
    } else {
        match newest {
            Some(n) => if n.id != fitting[0].id {
                Some(held_back_spec(name, fitting[0], *n))
            } else {
                None
            },
            None => None,
        }
    }
}

/// What picking a revision for `item` logs, if anything.
pub fn pick_notice(
    item: &SubscribedItem,
    liquidbounce: &str,
    fitting: &Vec<Revision>,
    newest: Option<&Revision>,
) -> (r: Option<String>)
    ensures
        match (r, pick_notice_spec(item.name@, liquidbounce@, fitting@, newest)) {
            (Some(m), Some(expected)) => m@ == expected,
            (None, None) => true,
            _ => false,
        },
{
    if fitting.len() == 0 {
        return Some(no_version(item.name.as_str(), liquidbounce));
    }
    match newest {
        Some(n) => {
            if n.id != fitting[0].id {
                Some(held_back(item.name.as_str(), &fitting[0], n))
            } else {
                None
            }
        },
        None => None,
    }
}

/// The newest revision that fits, and the installed one if it may stand in when installing that
/// fails; with the line to log: that nothing fits, or that the newest revision is held back,
/// as `pick_notice` words it. Nothing else is logged, and the progress bar does not move.
pub fn pick<'a>(
    item: &SubscribedItem,
    liquidbounce: &str,
    fitting: &'a Vec<Revision>,
    newest: Option<&Revision>,
    installed: Option<u32>,
) -> (r: (Option<(&'a Revision, Option<&'a Revision>)>, Option<String>))
    ensures
        match r.0 {
            None => fitting@.len() == 0,
            Some((target, fallback)) => {
                &&& fitting@.len() > 0
                &&& *target == fitting@[0]
                &&& match installed {
                    None => fallback is None,
                    Some(id) => match first_with_id(fitting@, id) {
                        None => fallback is None,
                        Some(k) => fallback matches Some(f) && *f == fitting@[k],
                    },
                }
            },
        },
        match (r.1, pick_notice_spec(item.name@, liquidbounce@, fitting@, newest)) {
            (Some(m), Some(expected)) => m@ == expected,
            (None, None) => true,
            _ => false,
        },
{
    let notice = pick_notice(item, liquidbounce, fitting, newest);
    if fitting.len() == 0 {
        return (None, notice);
    }
    let target = &fitting[0];
    let fallback = match installed {
        None => None,
        Some(id) => match position_of_id(fitting, id) {
            Some(k) => {
                proof {
                    lemma_first_with_id(fitting@, id);
                }
                Some(&fitting[k])
            },
            None => None,
        },
    };
    (Some((target, fallback)), notice)
}

/// The revision that installing an add-on for the build takes: the newest that fits. Says why
/// there is none: nothing published, or nothing for the build.
pub fn install_target(
    build: &Build,
    item: &SubscribedItem,
    fitting: &Vec<Revision>,
    newest: Option<&Revision>,
) -> (r: Result<u32, String>)
    ensures
        fitting@.len() > 0 ==> r == Ok::<u32, String>(fitting@[0].id),
        fitting@.len() == 0 ==> match (r, newest) {
            (Err(message), None) => message@ == item.name@ + " has nothing published yet."@,
            (Err(message), Some(_)) => message@ == no_version_spec(item.name@, build.lb_version@),
            _ => false,
        },
{
    if fitting.len() > 0 {
        return Ok(fitting[0].id);
    }
    match newest {
        None => {
            let mut message = item.name.clone();
            push_str(&mut message, " has nothing published yet.");
            Err(message)
        },
        Some(_) => Err(no_version(item.name.as_str(), build.lb_version.as_str())),
    }
}

} // verus!
