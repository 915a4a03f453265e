use serde_json::Value;

use liquidlauncher::app::marketplace::subscriptions::{
    read_subscriptions, subscribed_file, subscriptions_in, unsubscribed_file, with_subscription,
    without_subscription, FileError,
};
use liquidlauncher::app::marketplace::{ItemType, SubscribedItem};
use liquidlauncher::utils::json::JsonValue;

fn parsed(text: &str) -> Value {
    serde_json::from_str(text).unwrap()
}

fn written(bytes: Vec<u8>) -> String {
    String::from_utf8(bytes).unwrap()
}

fn file(subscribed: &str) -> String {
    format!(
        r#"{{"name": "marketplace", "version": 3, "value": [{{"name": "history", "value": [1, 2]}}, {{"name": "subscribed", "value": {subscribed}}}]}}"#
    )
}

const SCRIPT: &str = r#"{"name": "Scripts", "id": 12, "type": "Script", "installedRevisionId": 99, "pinned": true}"#;
const UNKNOWN: &str = r#"{"name": "Shaders", "id": 13, "type": "Shader"}"#;
const THEME: &str = r#"{"name": "Beautify", "id": 14, "type": "Theme"}"#;
const ADDON: &str = r#"{"name": "Extras", "id": 15, "type": "Addon"}"#;

fn edits_keep_unknown_types_fields_and_entries() {
    let mut text = file(&format!("[{SCRIPT}, {UNKNOWN}, \"broken\", {THEME}]"));

    text = written(unsubscribed_file(Some(&text), 14).unwrap());
    for (name, id, item_type) in [("Extras", 15, ItemType::Addon), ("Renamed", 12, ItemType::Script)] {
        let item = SubscribedItem { name: name.to_string(), id, item_type };
        text = written(subscribed_file(Some(&text), &item).unwrap());
    }

    assert_eq!(parsed(&text), parsed(&file(&format!("[{SCRIPT}, {UNKNOWN}, \"broken\", {ADDON}]"))));

    let items: Vec<_> = read_subscriptions(Some(&text))
        .unwrap()
        .into_iter()
        .map(|item| (item.id, item.item_type))
        .collect();
    assert_eq!(items, [(12, ItemType::Script), (13, ItemType::Other), (15, ItemType::Addon)]);
}

#[test]
fn subscriptions_edits_keep_unknown_types_fields_and_entries() {
    edits_keep_unknown_types_fields_and_entries();
}

#[test]
fn marketplace_edits_keep_unknown_types_fields_and_entries() {
    edits_keep_unknown_types_fields_and_entries();
}

#[test]
fn removing_each_item_in_turn_leaves_none() {
    let entries: Vec<String> =
        (1..=8).map(|id| format!(r#"{{"name": "Theme {id}", "id": {id}, "type": "Theme"}}"#)).collect();
    let mut text = format!(
        r#"{{"name": "marketplace", "value": [{{"name": "subscribed", "value": [{}]}}]}}"#,
        entries.join(", ")
    );
    assert_eq!(read_subscriptions(Some(&text)).unwrap().len(), 8);
    for id in 1..=8 {
        text = written(unsubscribed_file(Some(&text), id).unwrap());
    }
    assert!(read_subscriptions(Some(&text)).unwrap().is_empty());
}

#[test]
fn starts_the_file_where_there_is_none() {
    assert!(read_subscriptions(None).unwrap().is_empty());
    let item = SubscribedItem { name: "Extras".to_owned(), id: 781, item_type: ItemType::Addon };
    let text = written(subscribed_file(None, &item).unwrap());
    assert_eq!(
        parsed(&text),
        parsed(r#"{"name": "marketplace", "value": [{"name": "subscribed", "value": [{"name": "Extras", "id": 781, "type": "Addon"}]}]}"#)
    );
    // Subscribing again adds nothing; removing it leaves the list empty.
    let again = written(subscribed_file(Some(&text), &item).unwrap());
    assert_eq!(parsed(&again), parsed(&text));
    let removed = written(unsubscribed_file(Some(&again), 781).unwrap());
    assert_eq!(
        parsed(&removed),
        parsed(r#"{"name": "marketplace", "value": [{"name": "subscribed", "value": []}]}"#)
    );
    // Removing what is not there changes nothing else.
    let none = written(unsubscribed_file(None, 5).unwrap());
    assert_eq!(parsed(&none), parsed(&removed));
}

#[test]
fn refuses_what_is_no_json_or_has_no_list_of_values() {
    let item = SubscribedItem { name: "Extras".to_owned(), id: 1, item_type: ItemType::Addon };
    assert_eq!(read_subscriptions(Some("{not json")).err(), Some(FileError::Unparsable));
    assert_eq!(subscribed_file(Some("{not json"), &item).err(), Some(FileError::Unparsable));
    assert_eq!(subscribed_file(Some(r#"{"name": "marketplace"}"#), &item).err(), Some(FileError::UnexpectedLayout));
    assert_eq!(
        unsubscribed_file(Some(r#"{"value": [{"name": "subscribed", "value": 3}]}"#), 1).err(),
        Some(FileError::UnexpectedLayout)
    );
    // Reading such a file finds no subscriptions.
    assert!(read_subscriptions(Some(r#"{"name": "marketplace"}"#)).unwrap().is_empty());
}

#[test]
fn reads_entries_as_serde_reads_them() {
    let text = r#"{"value": [
        {"name": "other", "value": [{"name": "Nope", "id": 1, "type": "Theme"}]},
        {"name": "subscribed", "value": [
            {"name": "A", "id": 1, "type": "Theme"},
            ["B", 2, "Addon"],
            {"name": "C", "id": 3, "type": {"Script": null}},
            {"name": "D", "id": 4.0, "type": "Theme"},
            {"name": "E", "id": -5, "type": "Theme"},
            {"name": "F", "id": 4294967296, "type": "Theme"},
            {"name": "G", "id": 7},
            {"name": "H", "id": 8, "type": "Brand new"},
            ["I", 9]
        ]},
        {"name": "subscribed", "value": [{"name": "Later", "id": 10, "type": "Theme"}]}
    ]}"#;
    let items: Vec<_> = read_subscriptions(Some(text))
        .unwrap()
        .into_iter()
        .map(|item| (item.name, item.id, item.item_type))
        .collect();
    assert_eq!(
        items,
        [
            ("A".to_owned(), 1, ItemType::Theme),
            ("B".to_owned(), 2, ItemType::Addon),
            ("C".to_owned(), 3, ItemType::Script),
            ("H".to_owned(), 8, ItemType::Other),
        ]
    );
}

#[test]
fn edits_a_value_built_by_hand() {
    let root = JsonValue::Object(vec![
        ("name".to_owned(), JsonValue::Text("marketplace".to_owned())),
        ("value".to_owned(), JsonValue::Array(vec![])),
    ]);
    let item = SubscribedItem { name: "Extras".to_owned(), id: 15, item_type: ItemType::Addon };
    let added = with_subscription(Some(root), &item).unwrap();
    let items = subscriptions_in(&added);
    assert_eq!(items.len(), 1);
    assert_eq!((items[0].name.as_str(), items[0].id, items[0].item_type), ("Extras", 15, ItemType::Addon));
    let removed = without_subscription(Some(added), 15).unwrap();
    assert!(subscriptions_in(&removed).is_empty());
    assert_eq!(without_subscription(Some(JsonValue::Null), 15).err(), Some(FileError::UnexpectedLayout));
}
