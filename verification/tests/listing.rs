use std::collections::{HashMap, HashSet};

use liquidlauncher::app::marketplace::api::{Item, LiquidBounceRange, Revision};
use liquidlauncher::app::marketplace::listing::{
    browse_fit, browse_item, browse_type_name, check_plan, checked_fits, detail_kind, file_row,
    fitting_ids, library_lists, library_row, needed_by_candidates, needed_ids, subscribed_ids, version_lookup,
    version_row, version_rows,
    CheckPlan, VersionLookup,
};
use liquidlauncher::app::marketplace::revisions::needs;
use liquidlauncher::app::marketplace::view::{failed, BrowseFit, Library, Notice, Tag};
use liquidlauncher::app::marketplace::{Edit, ItemType, Queued, SubscribedItem};

fn revision(id: u32, version: &str, range: Option<(&str, &str)>) -> Revision {
    Revision {
        id,
        version: version.to_owned(),
        created_at: None,
        liquidbounce: range.map(|(min, max)| LiquidBounceRange { min: min.to_owned(), max: max.to_owned() }),
    }
}

fn subscribed(id: u32, name: &str, item_type: ItemType) -> SubscribedItem {
    SubscribedItem { name: name.to_owned(), id, item_type }
}

#[test]
fn lists_only_addons_themes_and_scripts() {
    assert_eq!(browse_type_name(ItemType::Addon), Ok("Addon"));
    assert_eq!(browse_type_name(ItemType::Script), Ok("Script"));
    assert_eq!(browse_type_name(ItemType::Config), Err("Config is not listed here".to_owned()));
    assert_eq!(detail_kind(ItemType::Theme), Ok((false, true)));
    assert_eq!(detail_kind(ItemType::Addon), Ok((true, false)));
    assert_eq!(detail_kind(ItemType::Other), Err("Other is not shown here".to_owned()));
}

#[test]
fn tells_how_a_listed_addon_fits_the_build() {
    let fitting = vec![revision(9, "1.3.0", Some(("0.40.0", "0.40.1"))), revision(8, "1.2.0", None)];
    assert!(browse_fit(false, true, Some(&fitting)).is_none());
    assert!(matches!(browse_fit(true, false, Some(&fitting)), Some(BrowseFit::NoVersion)));
    assert!(matches!(browse_fit(true, true, None), Some(BrowseFit::Unknown)));
    assert!(matches!(browse_fit(true, true, Some(&vec![])), Some(BrowseFit::NoVersion)));
    assert!(matches!(
        browse_fit(true, true, Some(&fitting)),
        Some(BrowseFit::Fits { version, liquidbounce: Some(range) })
            if version == "v1.3.0" && range == "LiquidBounce v0.40.0 - 0.40.1"
    ));

    let item = Item {
        id: 781,
        name: "Extras".to_owned(),
        item_type: ItemType::Addon,
        description: "# Extras\n\nMore **modules** for the [ClickGUI](https://x.y).".to_owned(),
        author: "1zun4".to_owned(),
        downloads: 12,
        updated_at: None,
    };
    let row = browse_item(item, Some(BrowseFit::NoVersion), true, Some("Sep 26".to_owned()));
    assert!(!row.installable);
    assert!(row.subscribed);
    assert_eq!(row.summary, "More modules for the ClickGUI.");
    assert_eq!(row.date.as_deref(), Some("Sep 26"));
}

#[test]
fn counts_the_items_that_stay_subscribed() {
    let items = vec![subscribed(1, "A", ItemType::Theme), subscribed(2, "B", ItemType::Addon)];
    let mut queued = Queued::new();
    queued.push(2, Edit::Remove);
    assert_eq!(subscribed_ids(&items, &queued), [1]);
    let others = needed_by_candidates(&items, &queued, 1);
    assert!(others.is_empty());
    let others = needed_by_candidates(&items, &Queued::new(), 1);
    assert_eq!(others.len(), 1);
    assert_eq!(others[0].id, 2);
}

#[test]
fn lists_the_versions_of_an_item() {
    let fitting = vec![revision(9, "1.3.0", None)];
    let set = fitting_ids(true, true, &fitting).unwrap();
    assert_eq!(set, HashSet::from([9]));
    assert!(fitting_ids(true, false, &fitting).unwrap().is_empty());
    assert!(fitting_ids(false, true, &fitting).is_none());

    let old = revision(8, "1.2.0", Some(("0.39.0", "0.39.0")));
    let row = version_row(&old, false, Some("Aug 2".to_owned()), Some(9), Some(&set), "0.40.1");
    assert_eq!(row.label, "v1.2.0");
    assert_eq!(row.liquidbounce.as_deref(), Some("LiquidBounce v0.39.0"));
    assert_eq!(row.date.as_deref(), Some("Aug 2"));
    assert_eq!(row.tag, Some(Tag::NotFor { liquidbounce: "v0.40.1".to_owned() }));

    // A theme's versions are its builds, named by their dates.
    let theme = revision(3, "17371", None);
    let row = version_row(&theme, true, Some("Sep 23".to_owned()), Some(3), None, "0.40.1");
    assert_eq!(row.label, "Sep 23");
    assert!(row.date.is_none());
    assert_eq!(row.tag, Some(Tag::Installed));
}

#[test]
fn checks_the_library_items_with_the_marketplace() {
    assert_eq!(check_plan(ItemType::Addon, true), CheckPlan::Ask);
    assert_eq!(check_plan(ItemType::Addon, false), CheckPlan::NoneFit);
    assert_eq!(check_plan(ItemType::Script, true), CheckPlan::AnyFits);
    assert_eq!(check_plan(ItemType::Theme, true), CheckPlan::NotChecked);
    assert!(checked_fits(None));
    assert!(!checked_fits(Some(&vec![])));

    let fetched = vec![revision(9, "1.3.0", None), revision(8, "1.2.0", None)];
    assert_eq!(version_lookup(None, &fetched), VersionLookup::Nothing);
    assert_eq!(version_lookup(Some(8), &fetched), VersionLookup::Found("1.2.0".to_owned()));
    assert_eq!(version_lookup(Some(7), &fetched), VersionLookup::Ask(7));
}

#[test]
fn puts_each_row_in_the_list_of_its_kind() {
    let extras = subscribed(781, "Extras", ItemType::Addon);
    let row = library_row(&extras, None, Some((false, Some("1.2.0".to_owned()))), true, "0.40.1", false, vec!["Scripts".to_owned()]);
    assert_eq!(row.version.as_deref(), Some("v1.2.0"));
    assert_eq!(row.not_for.as_deref(), Some("v0.40.1"));
    assert_eq!(row.needed_by, ["Scripts"]);

    let theme = subscribed(5, "Beautify", ItemType::Theme);
    let row_theme = library_row(&theme, Some("2.0".to_owned()), None, false, "0.40.1", true, vec![]);
    assert_eq!(row_theme.version.as_deref(), Some("v2.0"));
    assert!(row_theme.not_for.is_none());
    assert!(row_theme.removed);

    let mut library = Library {
        minecraft: None,
        liquidbounce: None,
        selection: None,
        notice: Notice::Checking,
        addons: vec![],
        themes: vec![],
        scripts: vec![],
    };
    file_row(&mut library, ItemType::Addon, row);
    file_row(&mut library, ItemType::Theme, row_theme);
    assert_eq!(library.addons.len(), 1);
    assert_eq!(library.themes.len(), 1);
    assert!(library.scripts.is_empty());
}

#[test]
fn tells_the_first_failure_to_reach_the_marketplace() {
    let mut offline = None;
    failed(&mut offline, "error sending request");
    failed(&mut offline, "timed out");
    assert_eq!(offline.as_deref(), Some("unable to check the marketplace: error sending request"));
}

#[test]
fn tells_what_a_held_back_revision_needs() {
    let newest = revision(10, "1.3.0", Some(("0.41.0", "0.41.2")));
    assert_eq!(needs(&newest).as_deref(), Some("v1.3.0 needs LiquidBounce v0.41.0 - 0.41.2"));
    assert_eq!(needs(&revision(11, "1.4.0", None)), None);
}

#[test]
fn keeps_what_is_installed_of_what_an_item_needs() {
    let item = |id: u32, item_type: ItemType| Item {
        id,
        name: format!("Item {id}"),
        item_type,
        description: String::new(),
        author: String::new(),
        downloads: 0,
        updated_at: None,
    };
    let needed = vec![item(771, ItemType::Addon), item(5, ItemType::Theme), item(12, ItemType::Script)];
    assert_eq!(needed_ids(&needed), [771, 12]);
}

#[test]
fn fills_the_library_lists_from_what_was_found_of_each_item() {
    let items = vec![
        subscribed(781, "Extras", ItemType::Addon),
        subscribed(5, "Beautify", ItemType::Theme),
        subscribed(9, "Scripts", ItemType::Script),
        subscribed(12, "Radar", ItemType::Addon),
    ];
    let found = vec![
        (Some("1.1.0".to_owned()), Some(Ok((false, Some("1.2.0".to_owned()))))),
        (Some("2.0".to_owned()), None),
        (None, Some(Err("error sending request".to_owned()))),
        (Some("0.9".to_owned()), Some(Err("timed out".to_owned()))),
    ];
    let mut needs = HashMap::new();
    needs.insert(9, vec![781]);
    needs.insert(12, vec![781, 9]);
    let mut queued = Queued::new();
    queued.push(12, Edit::Remove);
    let mut library = Library {
        minecraft: None,
        liquidbounce: None,
        selection: None,
        notice: Notice::Checking,
        addons: vec![],
        themes: vec![],
        scripts: vec![],
    };
    let mut offline = None;
    library_lists(&mut library, &items, found, &needs, &queued, true, "0.40.1", &mut offline);

    assert_eq!(library.addons.len(), 2);
    let extras = &library.addons[0];
    assert_eq!((extras.id, extras.name.as_str()), (781, "Extras"));
    assert_eq!(extras.version.as_deref(), Some("v1.2.0"));
    assert_eq!(extras.not_for.as_deref(), Some("v0.40.1"));
    assert!(!extras.removed);
    assert_eq!(extras.needed_by, ["Scripts"]);
    let radar = &library.addons[1];
    assert_eq!(radar.version.as_deref(), Some("v0.9"));
    assert!(radar.not_for.is_none());
    assert!(radar.removed);
    assert!(radar.needed_by.is_empty());

    assert_eq!(library.themes.len(), 1);
    assert_eq!(library.themes[0].version.as_deref(), Some("v2.0"));
    assert_eq!(library.scripts.len(), 1);
    assert!(library.scripts[0].version.is_none());
    assert!(library.scripts[0].needed_by.is_empty());
    assert_eq!(library.notice, Notice::Checking);
    assert_eq!(offline.as_deref(), Some("unable to check the marketplace: error sending request"));
}

#[test]
fn lists_every_revision_of_an_item_in_order() {
    let set = HashSet::from([9]);
    let revisions = vec![revision(9, "1.3.0", None), revision(8, "1.2.0", Some(("0.39.0", "0.39.0")))];
    let rows = version_rows(&revisions, false, vec![None, Some("Aug 2".to_owned())], Some(8), Some(&set), "0.40.1");
    assert_eq!(rows.len(), 2);
    assert_eq!(rows[0].label, "v1.3.0");
    assert!(rows[0].date.is_none());
    assert!(rows[0].tag.is_none());
    assert_eq!(rows[1].label, "v1.2.0");
    assert_eq!(rows[1].liquidbounce.as_deref(), Some("LiquidBounce v0.39.0"));
    assert_eq!(rows[1].date.as_deref(), Some("Aug 2"));
    assert_eq!(rows[1].tag, Some(Tag::Installed));
    assert!(version_rows(&vec![], true, vec![], None, None, "0.40.1").is_empty());
}
