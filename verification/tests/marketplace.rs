use std::cell::RefCell;
use std::collections::HashSet;

use liquidlauncher::app::client_api::{Build, SubsystemSpecificData};
use liquidlauncher::app::client_api::{PaginatedResponse, Pagination};
use liquidlauncher::app::marketplace::api::{
    items_query, linked_items, Item, Linked, LiquidBounceRange, Revision, RevisionPages,
};
use liquidlauncher::app::marketplace::revisions::{
    display_version, no_version, pick, range_label, supports_addons, utc_seconds,
};
use liquidlauncher::app::marketplace::staging::{
    after_install, choose_staged, installing_label, last_staged, not_installed_message, remember,
    reuses_installed,
    Staged,
};
use liquidlauncher::app::marketplace::view::{not_for, tag, Tag};
use liquidlauncher::app::marketplace::{
    game_running, game_started, Edit, ItemType, Queued, Session, SubscribedItem,
};
use liquidlauncher::minecraft::java::JavaDistribution;

fn build(build_id: u32, lb_version: &str, date: i64) -> Build {
    Build {
        build_id,
        commit_id: String::new(),
        branch: "nextgen".to_owned(),
        subsystem: "fabric".to_owned(),
        lb_version: lb_version.to_owned(),
        mc_version: "26.2".to_owned(),
        release: build_id == 16941,
        date,
        message: String::new(),
        url: String::new(),
        jre_distribution: JavaDistribution::Temurin,
        jre_version: 25,
        subsystem_specific_data: SubsystemSpecificData {
            fabric_api_version: "0.153.0+26.2".to_owned(),
            fabric_loader_version: "0.19.3".to_owned(),
            kotlin_version: "2.4.0".to_owned(),
            kotlin_mod_version: "1.13.12+kotlin.2.4.0".to_owned(),
        },
    }
}

fn an_edit_undoes_the_opposite_one() {
    let item = |id| {
        Edit::Add(SubscribedItem {
            name: format!("Item {id}"),
            id,
            item_type: ItemType::Theme,
        })
    };
    let edits = |queued: &Queued| -> Vec<(u32, bool)> {
        queued
            .entries()
            .iter()
            .map(|(id, edit)| (*id, matches!(edit, Edit::Add(_))))
            .collect()
    };

    let mut queued = Queued::new();
    queued.push(1, item(1));
    queued.push(1, item(1));
    queued.push(2, Edit::Remove);
    assert_eq!(edits(&queued), [(1, true), (2, false)]);

    queued.push(1, Edit::Remove);
    queued.push(2, item(2));
    assert_eq!(edits(&queued), []);
}

#[test]
fn an_edit_while_the_game_runs_undoes_the_opposite_one() {
    an_edit_undoes_the_opposite_one();
}

#[test]
fn edits_wait_while_the_game_runs_and_apply_once_it_exits() {
    let mut session = Session::new();
    assert!(!game_running(&session));
    assert!(!session.queue_while_running(7, Edit::Remove));
    game_started(&mut session);
    assert!(game_running(&session));
    assert!(session.queue_while_running(7, Edit::Remove));
    assert!(session.queued().removing(7));
    assert_eq!(session.queued().len(), 1);
    let queued = session.game_exited();
    assert_eq!(queued.len(), 1);
    assert!(!game_running(&session));
    assert_eq!(session.game_exited().len(), 0);
}

#[test]
fn hands_over_the_queued_edits_in_ascending_item_id() {
    let mut session = Session::new();
    game_started(&mut session);
    let extras = SubscribedItem { name: "Extras".to_owned(), id: 781, item_type: ItemType::Addon };
    assert!(session.queue_while_running(900, Edit::Remove));
    assert!(session.queue_while_running(781, Edit::Add(extras)));
    assert!(session.queue_while_running(12, Edit::Remove));
    game_started(&mut session);
    assert_eq!(session.queued().len(), 3);
    let edits: Vec<(u32, Option<String>)> = session
        .game_exited()
        .edits()
        .into_iter()
        .map(|(id, edit)| match edit {
            Edit::Add(item) => (id, Some(item.name)),
            Edit::Remove => (id, None),
        })
        .collect();
    assert_eq!(edits, [(12, None), (781, Some("Extras".to_owned())), (900, None)]);
    assert!(!game_running(&session));
    assert!(!session.queue_while_running(5, Edit::Remove));
    assert!(session.game_exited().edits().is_empty());
    game_started(&mut session);
    assert!(game_running(&session));
}

#[test]
fn marks_an_addon_that_has_nothing_for_the_build() {
    assert_eq!(not_for(true, None, "0.40.1"), None);
    assert_eq!(not_for(true, Some(true), "0.40.1"), None);
    assert_eq!(
        not_for(true, Some(false), "0.40.1").as_deref(),
        Some("v0.40.1")
    );
    assert_eq!(not_for(false, None, "0.40.0").as_deref(), Some("v0.40.0"));
}

#[test]
fn tags_the_installed_revision_and_those_not_for_the_build() {
    let fitting = HashSet::from([1, 2]);
    let not_for = || {
        Some(Tag::NotFor {
            liquidbounce: "v0.40.1".to_owned(),
        })
    };
    assert_eq!(
        tag(2, Some(2), Some(&fitting), "0.40.1"),
        Some(Tag::Installed)
    );
    assert_eq!(tag(1, Some(2), Some(&fitting), "0.40.1"), None);
    assert_eq!(tag(3, Some(2), Some(&fitting), "0.40.1"), not_for());
    assert_eq!(
        tag(3, Some(3), Some(&fitting), "0.40.1"),
        Some(Tag::Installed)
    );
    assert_eq!(tag(3, None, None, "0.40.1"), None);
    assert_eq!(tag(1, None, Some(&HashSet::new()), "0.40.1"), not_for());
}

/// What picking logs, line by line.
struct Log(RefCell<Vec<String>>);

fn picks_the_newest() {
    let revision = |id, range: Option<(&str, &str)>| Revision {
        id,
        version: format!("1.{id}.0"),
        created_at: None,
        liquidbounce: range.map(|(min, max)| LiquidBounceRange {
            min: min.to_owned(),
            max: max.to_owned(),
        }),
    };
    let item = SubscribedItem {
        name: "Extras".to_owned(),
        id: 781,
        item_type: ItemType::Addon,
    };
    let log = Log(Default::default());
    let pick = |fitting: &Vec<Revision>, newest, installed| {
        let (picked, notice) = pick(&item, "0.40.1", fitting, newest, installed);
        log.0.borrow_mut().extend(notice);
        picked.map(|(target, fallback)| (target.id, fallback.map(|fallback| fallback.id)))
    };

    let fitting = vec![
        revision(2, Some(("0.40.0", "0.40.1"))),
        revision(1, Some(("0.40.1", "0.40.1"))),
    ];
    let newer = revision(3, Some(("0.41.0", "0.41.2")));
    let unfit = revision(4, None);
    assert_eq!(
        pick(&fitting, Some(&fitting[0]), Some(1)),
        Some((2, Some(1)))
    );
    assert_eq!(pick(&fitting, Some(&newer), Some(3)), Some((2, None)));
    assert_eq!(pick(&fitting, Some(&unfit), None), Some((2, None)));
    assert_eq!(pick(&vec![], Some(&newer), Some(3)), None);
    assert_eq!(pick(&vec![], None, None), None);

    assert_eq!(
        log.0.into_inner(),
        [
            "Extras stays on v1.2.0: v1.3.0 needs LiquidBounce v0.41.0 - 0.41.2.",
            "Extras stays on v1.2.0.",
            "Extras is not for LiquidBounce v0.40.1.",
            "Extras is not for LiquidBounce v0.40.1.",
        ]
    );
}

#[test]
fn marketplace_picks_the_newest_revision_that_fits() {
    picks_the_newest();
}

#[test]
fn revisions_picks_the_newest_revision_that_fits() {
    picks_the_newest();
}

fn reads_the_ranges() {
    let revisions = vec![
        Revision {
            id: 19,
            version: "1.0.1".to_owned(),
            created_at: Some(utc_seconds(2026, 9, 20, 10, 0, 0)),
            liquidbounce: Some(LiquidBounceRange {
                min: "0.40.0".to_owned(),
                max: "0.40.1".to_owned(),
            }),
        },
        Revision {
            id: 5,
            version: "1.1.0".to_owned(),
            created_at: None,
            liquidbounce: Some(LiquidBounceRange {
                min: "0.41.0".to_owned(),
                max: "0.41.0".to_owned(),
            }),
        },
        Revision { id: 4, version: "1.0.0".to_owned(), created_at: None, liquidbounce: None },
        Revision { id: 3, version: "1.0.0".to_owned(), created_at: None, liquidbounce: None },
    ];
    let ranges: Vec<_> = revisions
        .iter()
        .map(|revision| revision.liquidbounce.as_ref().map(range_label))
        .collect();
    assert_eq!(
        ranges,
        [
            Some("LiquidBounce v0.40.0 - 0.40.1".to_owned()),
            Some("LiquidBounce v0.41.0".to_owned()),
            None,
            None
        ]
    );
}

#[test]
fn marketplace_reads_the_builds_a_revision_fits() {
    reads_the_ranges();
}

#[test]
fn revisions_reads_the_builds_a_revision_fits() {
    reads_the_ranges();
}

fn only_addon_builds() {
    // Release 0.40.0, the last nightly before add-ons, the commit that brought them, the first
    // nightly after it.
    for (build_id, lb_version, date, expected) in [
        (16941, "0.40.0", utc_seconds(2026, 8, 21, 3, 16, 52), false),
        (17221, "0.40.1", utc_seconds(2026, 9, 14, 12, 35, 25), false),
        (0, "0.40.1", utc_seconds(2026, 9, 14, 17, 38, 44), true),
        (17223, "0.40.1", utc_seconds(2026, 9, 14, 18, 8, 10), true),
    ] {
        let build = build(build_id, lb_version, date);
        assert_eq!(supports_addons(&build), expected, "build {build_id}");
    }
}

#[test]
fn marketplace_only_builds_with_the_addon_system_get_addons() {
    only_addon_builds();
}

#[test]
fn revisions_only_builds_with_the_addon_system_get_addons() {
    only_addon_builds();
}

#[test]
fn reads_utc_times_as_seconds_since_the_epoch() {
    assert_eq!(utc_seconds(1970, 1, 1, 0, 0, 0), 0);
    assert_eq!(utc_seconds(2026, 9, 14, 17, 38, 44), 1789407524);
    assert_eq!(utc_seconds(2000, 3, 1, 0, 0, 0), 951868800);
}

#[test]
fn words_versions_and_missing_revisions() {
    assert_eq!(display_version("1.0.0"), "v1.0.0");
    assert_eq!(display_version("v1.0.0"), "v1.0.0");
    assert_eq!(display_version(""), "");
    assert_eq!(no_version("Extras", "0.40.1"), "Extras is not for LiquidBounce v0.40.1.");
}

fn stages_the_same() {
    let staged = |item, minecraft: &str, revision| Staged {
        item,
        liquidbounce: "0.40.1".to_owned(),
        minecraft: minecraft.to_owned(),
        revision,
        version: format!("1.{revision}.0"),
    };
    let mut last = vec![];
    remember(&mut last, staged(1, "26.2", 1));
    remember(&mut last, staged(1, "26.3", 2));
    remember(&mut last, staged(3, "26.2", 19));
    remember(&mut last, staged(1, "26.2", 3));
    assert_eq!(last.len(), 3);

    let revision = |item, liquidbounce, minecraft| {
        last_staged(&last, item, liquidbounce, minecraft).map(|staged| staged.revision)
    };
    assert_eq!(revision(1, "0.40.1", "26.2"), Some(3));
    assert_eq!(revision(1, "0.40.1", "26.3"), Some(2));
    assert_eq!(revision(3, "0.40.1", "26.2"), Some(19));
    assert_eq!(revision(3, "0.40.1", "26.3"), None);
    assert_eq!(revision(1, "0.41.0", "26.3"), None);
}

#[test]
fn marketplace_stages_what_fit_the_same_build_last_time() {
    stages_the_same();
}

#[test]
fn staging_stages_what_fit_the_same_build_last_time() {
    stages_the_same();
}

fn revision(id: u32) -> Revision {
    Revision { id, version: format!("1.{id}"), created_at: None, liquidbounce: None }
}

#[test]
fn gathers_every_page_of_fitting_revisions() {
    let build = build(17371, "0.40.1", 0);
    let mut pages = RevisionPages::new();
    let query = pages.query(&build);
    assert_eq!(
        query,
        [
            ("minecraft".to_owned(), "26.2".to_owned()),
            ("liquidbounce".to_owned(), "0.40.1".to_owned()),
            ("page".to_owned(), "1".to_owned()),
            ("limit".to_owned(), "50".to_owned()),
        ]
    );
    let first = PaginatedResponse {
        items: vec![revision(9), revision(8)],
        pagination: Pagination { current: 1, pages: 2, items: 3 },
    };
    assert!(!pages.take(first));
    assert!(!pages.is_done());
    assert_eq!(pages.query(&build)[2].1, "2");
    let second = PaginatedResponse {
        items: vec![revision(7)],
        pagination: Pagination { current: 2, pages: 2, items: 3 },
    };
    assert!(pages.take(second));
    assert!(pages.is_done());
    let ids: Vec<u32> = pages.into_revisions().iter().map(|r| r.id).collect();
    assert_eq!(ids, [9, 8, 7]);

    // No pages at all ends after the first.
    let mut none = RevisionPages::new();
    assert!(none.take(PaginatedResponse { items: vec![], pagination: Pagination { current: 1, pages: 0, items: 0 } }));
}

#[test]
fn lists_items_of_one_type() {
    assert_eq!(
        items_query("Theme", Some("dark"), 20, "nextgen"),
        [
            ("limit".to_owned(), "20".to_owned()),
            ("branch".to_owned(), "nextgen".to_owned()),
            ("type".to_owned(), "Theme".to_owned()),
            ("q".to_owned(), "dark".to_owned()),
        ]
    );
    assert_eq!(items_query("Addon", None, 5, "nextgen").len(), 3);
}

#[test]
fn reads_what_an_item_needs() {
    let needed = Item {
        id: 771,
        name: "ScriptAPI".to_owned(),
        item_type: ItemType::Addon,
        description: "The JavaScript Script API for LiquidBounce.".to_owned(),
        author: String::new(),
        downloads: 0,
        updated_at: None,
    };
    let items = linked_items(vec![Linked { item: needed }]);
    assert_eq!(items.len(), 1);
    assert_eq!(items[0].id, 771);
    assert_eq!(items[0].item_type, ItemType::Addon);
}

#[test]
fn installs_what_is_not_installed_yet_and_falls_back() {
    let staged = |revision: u32| Staged {
        item: 781,
        liquidbounce: "0.40.1".to_owned(),
        minecraft: "26.2".to_owned(),
        revision,
        version: format!("1.{revision}.0"),
    };
    assert!(reuses_installed(Some(3), &staged(3)));
    assert!(!reuses_installed(Some(2), &staged(3)));
    assert!(!reuses_installed(None, &staged(3)));
    assert_eq!(after_install(true, staged(3), Some(staged(2))).unwrap().revision, 3);
    assert_eq!(after_install(false, staged(3), Some(staged(2))).unwrap().revision, 2);
    assert!(after_install(false, staged(3), None).is_none());
    assert_eq!(installing_label("Extras"), "Installing add-on Extras");
    assert_eq!(not_installed_message("Extras"), "Could not install Extras.");
}

#[test]
fn lists_the_items_waiting_to_be_added() {
    let item = |id: u32| SubscribedItem { name: format!("Item {id}"), id, item_type: ItemType::Theme };
    let mut queued = Queued::new();
    queued.push(3, Edit::Add(item(3)));
    queued.push(2, Edit::Remove);
    queued.push(1, Edit::Add(item(1)));
    let mut ids: Vec<u32> = queued.adding().iter().map(|item| item.id).collect();
    ids.sort();
    assert_eq!(ids, [1, 3]);
}

#[test]
fn tells_why_an_addon_is_staged_as_it_is() {
    let build = build(17371, "0.40.1", 0);
    let item = SubscribedItem { name: "Extras".to_owned(), id: 781, item_type: ItemType::Addon };
    let last = Staged {
        item: 781,
        liquidbounce: "0.40.1".to_owned(),
        minecraft: "26.2".to_owned(),
        revision: 2,
        version: "1.2.0".to_owned(),
    };
    let (chosen, notice) = choose_staged(&build, &item, None, None, &vec![last]);
    assert_eq!(chosen.unwrap().0.revision, 2);
    assert_eq!(notice.as_deref(), Some("Could not look up Extras, staging v1.2.0 as last time."));
    let (chosen, notice) = choose_staged(&build, &item, None, None, &vec![]);
    assert!(chosen.is_none());
    assert_eq!(notice.as_deref(), Some("Could not look up Extras."));
    let (chosen, notice) = choose_staged(&build, &item, Some((&vec![], None)), None, &vec![]);
    assert!(chosen.is_none());
    assert_eq!(notice.as_deref(), Some("Extras is not for LiquidBounce v0.40.1."));
}
