//! The subscription list in `marketplace.json`. The file is the client's: the launcher reads its
//! entries and edits them one at a time, and everything it does not touch stays as the client
//! wrote it.
//!
//! The file holds an object whose `value` lists named values; the first of them named
//! `subscribed` holds the subscriptions in its own `value`, each an object with the item's
//! `name`, `id` and `type`.

use vstd::prelude::*;
use super::{ItemType, SubscribedItem};
use super::install::{all_digits, digits_value, parse_u32, parse_u32_spec};
use crate::utils::json::{
    field_at, fields_view, get, get_field, items_readable, items_view, json_parsed, json_pretty, json_view,
    lemma_field_at, lemma_field_at_first, lemma_fields_readable, lemma_fields_view, lemma_items_readable, lemma_items_view,
    lemma_put_other, lemma_put_readable, lemma_put_twice, number_text, numbers_readable, owned, parse_json,
    pretty_json, put, swap_field, JsonValue, JsonView,
};
use crate::utils::text::{chars_of, decimal, digit_char, str_eq};

verus! {

/// Why the subscriptions could not be read or edited.
#[derive(Debug, PartialEq, Eq, Structural)]
pub enum FileError {
    /// The file is no JSON.
    Unparsable,
    /// The file holds no list of named values to keep the subscriptions in, or a list of
    /// subscriptions that is none.
    UnexpectedLayout,
    /// The edited file could not be written as JSON.
    Unwritable,
}

/// An item by its name, id and kind.
pub open spec fn item_view(item: SubscribedItem) -> (Seq<char>, u32, ItemType) {
    (item.name@, item.id, item.item_type)
}

/// Items by their names, ids and kinds.
pub open spec fn item_views(items: Seq<SubscribedItem>) -> Seq<(Seq<char>, u32, ItemType)> {
    items.map_values(|i: SubscribedItem| item_view(i))
}

/// Whether a top-level value is the list of subscriptions: its `name` is `subscribed`.
pub open spec fn is_subscribed_list(entry: JsonView) -> bool {
    get(entry, "name"@) == Some(JsonView::Text("subscribed"@))
}

/// The first top-level value that is the list of subscriptions.
pub open spec fn list_at(values: Seq<JsonView>) -> Option<int>
    decreases values.len(),
{
    if values.len() == 0 {
        None
    } else {
        match list_at(values.drop_last()) {
            Some(k) => Some(k),
            None => if is_subscribed_list(values.last()) {
                Some(values.len() - 1)
            } else {
                None
            },
        }
    }
}

/// The file's top-level values: the list in its `value`.
pub open spec fn top_values(root: JsonView) -> Option<Seq<JsonView>> {
    match get(root, "value"@) {
        Some(JsonView::Array(values)) => Some(values),
        _ => None,
    }
}

/// The entries of the list of subscriptions, where the file has one.
pub open spec fn subscribed_entries(root: JsonView) -> Option<Seq<JsonView>> {
    match top_values(root) {
        Some(values) => match list_at(values) {
            Some(k) => match get(values[k], "value"@) {
                Some(JsonView::Array(entries)) => Some(entries),
                _ => None,
            },
            None => None,
        },
        None => None,
    }
}

/// The kind an item's `type` names; one this launcher does not know is `Other`.
pub open spec fn kind_named(name: Seq<char>) -> ItemType {
    if name == "Config"@ {
        ItemType::Config
    } else if name == "Theme"@ {
        ItemType::Theme
    } else if name == "Addon"@ {
        ItemType::Addon
    } else if name == "Script"@ {
        ItemType::Script
    } else {
        ItemType::Other
    }
}

/// The name a kind is written with.
pub open spec fn kind_name(kind: ItemType) -> Seq<char> {
    match kind {
        ItemType::Config => "Config"@,
        ItemType::Theme => "Theme"@,
        ItemType::Addon => "Addon"@,
        ItemType::Script => "Script"@,
        ItemType::Other => "Other"@,
    }
}

/// The kind a `type` value gives: its name as text, or an object of one field, its name, with
/// nothing (`null`) as value.
pub open spec fn kind_of(value: JsonView) -> Option<ItemType> {
    match value {
        JsonView::Text(name) => Some(kind_named(name)),
        JsonView::Object(fields) => if fields.len() == 1 && fields[0].1 == JsonView::Null {
            Some(kind_named(fields[0].0))
        } else {
            None
        },
        _ => None,
    }
}

/// The id a number's text gives, where it is written in decimal digits and fits.
pub open spec fn id_of_text(text: Seq<char>) -> Option<u32> {
    if text.len() > 0 && text[0] == '+' {
        None
    } else {
        parse_u32_spec(text)
    }
}

/// An item from its name, id and type, where each is of its kind.
pub open spec fn item_of_parts(name: JsonView, id: JsonView, kind: JsonView) -> Option<(Seq<char>, u32, ItemType)> {
    match (name, id) {
        (JsonView::Text(n), JsonView::Number(t)) => match (id_of_text(t), kind_of(kind)) {
            (Some(i), Some(k)) => Some((n, i, k)),
            _ => None,
        },
        _ => None,
    }
}

/// The item an entry stands for, as `serde` reads a `SubscribedItem` from it: an object with a
/// `name`, an `id` and a `type` (other fields ignored), or a list of exactly these three.
pub open spec fn item_from(entry: JsonView) -> Option<(Seq<char>, u32, ItemType)> {
    match entry {
        JsonView::Object(_) => match (get(entry, "name"@), get(entry, "id"@), get(entry, "type"@)) {
            (Some(n), Some(i), Some(k)) => item_of_parts(n, i, k),
            _ => None,
        },
        JsonView::Array(parts) => if parts.len() == 3 {
            item_of_parts(parts[0], parts[1], parts[2])
        } else {
            None
        },
        _ => None,
    }
}

/// The items the entries stand for, in order; an entry that stands for none is skipped.
pub open spec fn readable_items(entries: Seq<JsonView>) -> Seq<(Seq<char>, u32, ItemType)>
    decreases entries.len(),
{
    if entries.len() == 0 {
        Seq::empty()
    } else {
        let front = readable_items(entries.drop_last());
        match item_from(entries.last()) {
            Some(item) => front.push(item),
            None => front,
        }
    }
}

/// The subscriptions a file holds: none where it has no list of them.
pub open spec fn items_of(root: JsonView) -> Seq<(Seq<char>, u32, ItemType)> {
    match subscribed_entries(root) {
        Some(entries) => readable_items(entries),
        None => Seq::empty(),
    }
}

/// Whether a top-level value is the list of subscriptions.
fn is_list(entry: &JsonValue) -> (r: bool)
    ensures
        r == is_subscribed_list(json_view(*entry)),
{
    match get_field(entry, "name") {
        Some(JsonValue::Text(name)) => str_eq(name.as_str(), "subscribed"),
        _ => false,
    }
}

/// Where the list of subscriptions is among the top-level values.
fn list_position(values: &Vec<JsonValue>) -> (r: Option<usize>)
    ensures
        match list_at(items_view(values@)) {
            Some(k) => r matches Some(i) && i == k,
            None => r is None,
        },
        r matches Some(i) ==> i < values@.len(),
{
    proof {
        lemma_items_view(values@);
    }
    let ghost view = items_view(values@);
    let mut i: usize = 0;
    assert(view.take(0) =~= Seq::<JsonView>::empty());
    while i < values.len()
        invariant
            i <= values@.len(),
            view == items_view(values@),
            view.len() == values@.len(),
            forall|k: int| 0 <= k < values@.len() ==> #[trigger] view[k] == json_view(values@[k]),
            list_at(view.take(i as int)) is None,
        decreases values@.len() - i,
    {
        assert(view.take(i + 1).drop_last() =~= view.take(i as int));
        assert(view.take(i + 1).last() == view[i as int]);
        if is_list(&values[i]) {
            proof {
                lemma_list_at_prefix(view, i + 1);
            }
            return Some(i);
        }
        i = i + 1;
    }
    assert(view.take(values@.len() as int) =~= view);
    None
}

/// What `list_at` finds among the first `n` values it finds among all of them.
proof fn lemma_list_at_prefix(values: Seq<JsonView>, n: int)
    requires
        0 <= n <= values.len(),
        list_at(values.take(n)) is Some,
    ensures
        list_at(values) == list_at(values.take(n)),
    decreases values.len() - n,
{
    if n < values.len() {
        assert(values.take(n + 1).drop_last() =~= values.take(n));
        lemma_list_at_prefix(values, n + 1);
    } else {
        assert(values.take(n) =~= values);
    }
}

/// The list found is one, and none before it is.
pub proof fn lemma_list_at(values: Seq<JsonView>)
    ensures
        match list_at(values) {
            Some(k) => 0 <= k < values.len() && is_subscribed_list(values[k]) && forall|j: int|
                0 <= j < k ==> !is_subscribed_list(#[trigger] values[j]),
            None => forall|j: int| 0 <= j < values.len() ==> !is_subscribed_list(#[trigger] values[j]),
        },
    decreases values.len(),
{
    if values.len() > 0 {
        let front = values.drop_last();
        lemma_list_at(front);
        assert forall|j: int| 0 <= j < front.len() implies #[trigger] values[j] == front[j] by {}
    }
}

/// The kind a `type` names.
fn kind_named_exec(name: &str) -> (r: ItemType)
    ensures
        r == kind_named(name@),
{
    if str_eq(name, "Config") {
        ItemType::Config
    } else if str_eq(name, "Theme") {
        ItemType::Theme
    } else if str_eq(name, "Addon") {
        ItemType::Addon
    } else if str_eq(name, "Script") {
        ItemType::Script
    } else {
        ItemType::Other
    }
}

/// The kind a `type` value gives.
fn kind_of_exec(value: &JsonValue) -> (r: Option<ItemType>)
    ensures
        r == kind_of(json_view(*value)),
{
    match value {
        JsonValue::Text(name) => Some(kind_named_exec(name.as_str())),
        JsonValue::Object(fields) => {
            proof {
                lemma_fields_view(fields@);
            }
            if fields.len() == 1 {
                match &fields[0].1 {
                    JsonValue::Null => Some(kind_named_exec(fields[0].0.as_str())),
                    _ => None,
                }
            } else {
                None
            }
        },
        _ => None,
    }
}

/// The id a number's text gives.
fn id_of(text: &String) -> (r: Option<u32>)
    ensures
        r == id_of_text(text@),
{
    let chars = chars_of(text.as_str());
    if chars.len() > 0 && chars[0] == '+' {
        None
    } else {
        parse_u32(text.as_str())
    }
}

/// An item from its name, id and type.
fn item_from_parts(name: &JsonValue, id: &JsonValue, kind: &JsonValue) -> (r: Option<SubscribedItem>)
    ensures
        match item_of_parts(json_view(*name), json_view(*id), json_view(*kind)) {
            Some(x) => r matches Some(item) && item_view(item) == x,
            None => r is None,
        },
{
    match (name, id) {
        (JsonValue::Text(n), JsonValue::Number(t)) => match (id_of(t), kind_of_exec(kind)) {
            (Some(i), Some(k)) => Some(SubscribedItem { name: n.clone(), id: i, item_type: k }),
            _ => None,
        },
        _ => None,
    }
}

/// The item an entry stands for, if any.
pub fn item_of_entry(entry: &JsonValue) -> (r: Option<SubscribedItem>)
    ensures
        match item_from(json_view(*entry)) {
            Some(x) => r matches Some(item) && item_view(item) == x,
            None => r is None,
        },
{
    match entry {
        JsonValue::Object(_) => match (get_field(entry, "name"), get_field(entry, "id"), get_field(entry, "type")) {
            (Some(n), Some(i), Some(k)) => item_from_parts(n, i, k),
            _ => None,
        },
        JsonValue::Array(parts) => {
            proof {
                lemma_items_view(parts@);
            }
            if parts.len() == 3 {
                item_from_parts(&parts[0], &parts[1], &parts[2])
            } else {
                None
            }
        },
        _ => None,
    }
}

/// The subscriptions a file holds, in order: the items of the entries of its list of
/// subscriptions, an entry that stands for no item skipped; none where it has no such list.
pub fn subscriptions_in(root: &JsonValue) -> (r: Vec<SubscribedItem>)
    ensures
        item_views(r@) == items_of(json_view(*root)),
{
    let mut r: Vec<SubscribedItem> = Vec::new();
    let values = match get_field(root, "value") {
        Some(JsonValue::Array(values)) => values,
        _ => {
            assert(item_views(r@) =~= Seq::<(Seq<char>, u32, ItemType)>::empty());
            return r;
        },
    };
    proof {
        lemma_items_view(values@);
    }
    let k = match list_position(values) {
        Some(k) => k,
        None => {
            assert(item_views(r@) =~= Seq::<(Seq<char>, u32, ItemType)>::empty());
            return r;
        },
    };
    let entries = match get_field(&values[k], "value") {
        Some(JsonValue::Array(entries)) => entries,
        _ => {
            assert(item_views(r@) =~= Seq::<(Seq<char>, u32, ItemType)>::empty());
            return r;
        },
    };
    proof {
        lemma_items_view(entries@);
    }
    let ghost view = items_view(entries@);
    assert(subscribed_entries(json_view(*root)) == Some(view));
    let mut i: usize = 0;
    assert(view.take(0) =~= Seq::<JsonView>::empty());
    assert(item_views(r@) =~= Seq::<(Seq<char>, u32, ItemType)>::empty());
    while i < entries.len()
        invariant
            i <= entries@.len(),
            view == items_view(entries@),
            view.len() == entries@.len(),
            forall|j: int| 0 <= j < entries@.len() ==> #[trigger] view[j] == json_view(entries@[j]),
            item_views(r@) == readable_items(view.take(i as int)),
        decreases entries@.len() - i,
    {
        assert(view.take(i + 1).drop_last() =~= view.take(i as int));
        assert(view.take(i + 1).last() == view[i as int]);
        match item_of_entry(&entries[i]) {
            Some(item) => {
                let ghost before = r@;
                r.push(item);
                assert(item_views(r@) =~= item_views(before).push(item_view(item)));
            },
            None => {},
        }
        i = i + 1;
    }
    assert(view.take(entries@.len() as int) =~= view);
    r
}

/// An object of a `name` and a list as `value`, as the launcher writes a named value.
pub open spec fn named_list(name: Seq<char>, entries: Seq<JsonView>) -> JsonView {
    JsonView::Object(seq![("name"@, JsonView::Text(name)), ("value"@, JsonView::Array(entries))])
}

/// The file the launcher starts where there is none: named `marketplace`, with no values.
pub open spec fn new_file() -> JsonView {
    named_list("marketplace"@, Seq::empty())
}

/// The entries an edit starts from: those of the list of subscriptions, or none where the file
/// has no such list yet; `None` where the file has no list of top-level values, or its list of
/// subscriptions holds no list.
pub open spec fn editable_entries(root: JsonView) -> Option<Seq<JsonView>> {
    match top_values(root) {
        Some(values) => match list_at(values) {
            Some(k) => match get(values[k], "value"@) {
                Some(JsonView::Array(entries)) => Some(entries),
                _ => None,
            },
            None => Some(Seq::empty()),
        },
        None => None,
    }
}

/// The file with its list of subscriptions holding `entries`: the list's `value` replaced, or a
/// list named `subscribed` appended to the top-level values where there was none. Every other
/// field and value stays as it was.
pub open spec fn with_entries(root: JsonView, entries: Seq<JsonView>) -> JsonView {
    let values = top_values(root)->0;
    let changed = match list_at(values) {
        Some(k) => values.update(k, put(values[k], "value"@, JsonView::Array(entries))),
        None => values.push(named_list("subscribed"@, entries)),
    };
    put(root, "value"@, JsonView::Array(changed))
}

/// The entry the launcher writes for an item: its `name`, `id` and `type`.
pub open spec fn entry_of(item: (Seq<char>, u32, ItemType)) -> JsonView {
    JsonView::Object(
        seq![
            ("name"@, JsonView::Text(item.0)),
            ("id"@, JsonView::Number(decimal(item.1 as nat))),
            ("type"@, JsonView::Text(kind_name(item.2))),
        ],
    )
}

/// The id an entry carries: its `id`, where that is a number in decimal digits that fits.
pub open spec fn entry_id(entry: JsonView) -> Option<u32> {
    match get(entry, "id"@) {
        Some(JsonView::Number(t)) => id_of_text(t),
        _ => None,
    }
}

/// Whether an entry carries the id.
pub open spec fn has_id(entries: Seq<JsonView>, id: u32) -> bool {
    exists|i: int| 0 <= i < entries.len() && entry_id(#[trigger] entries[i]) == Some(id)
}

/// The entries after subscribing to an item: its entry appended, unless one carries its id.
pub open spec fn added(entries: Seq<JsonView>, item: (Seq<char>, u32, ItemType)) -> Seq<JsonView> {
    if has_id(entries, item.1) {
        entries
    } else {
        entries.push(entry_of(item))
    }
}

/// The entries after removing an item: every entry that carries its id taken out, the others
/// as they were, in their order.
pub open spec fn removed(entries: Seq<JsonView>, id: u32) -> Seq<JsonView>
    decreases entries.len(),
{
    if entries.len() == 0 {
        Seq::empty()
    } else {
        let front = removed(entries.drop_last(), id);
        if entry_id(entries.last()) == Some(id) {
            front
        } else {
            front.push(entries.last())
        }
    }
}

/// An edit of the list of subscriptions.
enum ListEdit<'a> {
    Add(&'a SubscribedItem),
    Remove(u32),
}

spec fn edited(entries: Seq<JsonView>, edit: ListEdit) -> Seq<JsonView> {
    match edit {
        ListEdit::Add(item) => added(entries, item_view(*item)),
        ListEdit::Remove(id) => removed(entries, id),
    }
}

fn named_list_value(name: &str, entries: Vec<JsonValue>) -> (r: JsonValue)
    ensures
        json_view(r) == named_list(name@, items_view(entries@)),
{
    let mut fields: Vec<(String, JsonValue)> = Vec::new();
    fields.push((owned("name"), JsonValue::Text(owned(name))));
    fields.push((owned("value"), JsonValue::Array(entries)));
    proof {
        lemma_fields_view(fields@);
        assert(fields_view(fields@) =~= seq![
            ("name"@, JsonView::Text(name@)),
            ("value"@, JsonView::Array(items_view(entries@))),
        ]);
    }
    JsonValue::Object(fields)
}

fn kind_text(kind: ItemType) -> (r: String)
    ensures
        r@ == kind_name(kind),
{
    match kind {
        ItemType::Config => owned("Config"),
        ItemType::Theme => owned("Theme"),
        ItemType::Addon => owned("Addon"),
        ItemType::Script => owned("Script"),
        ItemType::Other => owned("Other"),
    }
}

/// The entry the launcher writes for an item.
fn entry_value(item: &SubscribedItem) -> (r: JsonValue)
    ensures
        json_view(r) == entry_of(item_view(*item)),
        numbers_readable(json_view(r)),
{
    let id = number_text(item.id);
    let mut fields: Vec<(String, JsonValue)> = Vec::new();
    fields.push((owned("name"), JsonValue::Text(item.name.clone())));
    fields.push((owned("id"), JsonValue::Number(id)));
    fields.push((owned("type"), JsonValue::Text(kind_text(item.item_type))));
    proof {
        lemma_fields_view(fields@);
        let view = fields_view(fields@);
        assert(view =~= entry_of(item_view(*item))->Object_0);
        lemma_fields_readable(view);
        assert(numbers_readable(view[1].1));
    }
    JsonValue::Object(fields)
}

fn entry_id_exec(entry: &JsonValue) -> (r: Option<u32>)
    ensures
        r == entry_id(json_view(*entry)),
{
    match get_field(entry, "id") {
        Some(JsonValue::Number(t)) => id_of(t),
        _ => None,
    }
}

fn holds_id(entries: &Vec<JsonValue>, id: u32) -> (r: bool)
    ensures
        r == has_id(items_view(entries@), id),
{
    proof {
        lemma_items_view(entries@);
    }
    let mut i: usize = 0;
    while i < entries.len()
        invariant
            i <= entries@.len(),
            items_view(entries@).len() == entries@.len(),
            forall|k: int| 0 <= k < entries@.len() ==> #[trigger] items_view(entries@)[k] == json_view(entries@[k]),
            forall|k: int| 0 <= k < i ==> entry_id(#[trigger] items_view(entries@)[k]) != Some(id),
        decreases entries@.len() - i,
    {
        if entry_id_exec(&entries[i]) == Some(id) {
            assert(entry_id(items_view(entries@)[i as int]) == Some(id));
            return true;
        }
        i = i + 1;
    }
    false
}

/// The entries with the edit made; numbers that were readable stay so.
fn apply_edit(entries: Vec<JsonValue>, edit: &ListEdit) -> (r: Vec<JsonValue>)
    ensures
        items_view(r@) == edited(items_view(entries@), *edit),
        items_readable(items_view(entries@)) ==> items_readable(items_view(r@)),
{
    proof {
        lemma_items_view(entries@);
        lemma_items_readable(items_view(entries@));
    }
    match edit {
        ListEdit::Add(item) => {
            if holds_id(&entries, item.id) {
                entries
            } else {
                let entry = entry_value(item);
                let mut entries = entries;
                let ghost before = entries@;
                entries.push(entry);
                proof {
                    assert(entries@.drop_last() =~= before);
                    lemma_items_view(entries@);
                    lemma_items_readable(items_view(entries@));
                    assert(items_view(entries@) =~= items_view(before).push(json_view(entry)));
                }
                entries
            }
        },
        ListEdit::Remove(id) => {
            let ghost all = items_view(entries@);
            let n: usize = entries.len();
            let mut rest = entries;
            let mut kept: Vec<JsonValue> = Vec::new();
            let mut i: usize = 0;
            assert(all.take(0) =~= Seq::<JsonView>::empty());
            assert(items_view(kept@) =~= Seq::<JsonView>::empty());
            while i < n
                invariant
                    i <= n,
                    n == all.len(),
                    rest@.len() == n - i,
                    forall|k: int| 0 <= k < rest@.len() ==> #[trigger] json_view(rest@[k]) == all[k + i],
                    items_view(kept@) == removed(all.take(i as int), *id),
                    forall|k: int| 0 <= k < kept@.len() ==> exists|j: int|
                        0 <= j < i && #[trigger] json_view(kept@[k]) == all[j],
                decreases n - i,
            {
                assert(all.take(i + 1).drop_last() =~= all.take(i as int));
                assert(all.take(i + 1).last() == all[i as int]);
                let ghost rest_before = rest@;
                let entry = rest.remove(0);
                assert(json_view(entry) == all[i as int]);
                assert forall|k: int| 0 <= k < rest@.len() implies #[trigger] json_view(rest@[k]) == all[k + i + 1] by {
                    assert(rest@[k] == rest_before[k + 1]);
                }
                if entry_id_exec(&entry) != Some(*id) {
                    let ghost before = kept@;
                    kept.push(entry);
                    proof {
                        assert(kept@.drop_last() =~= before);
                        assert(items_view(kept@) =~= items_view(before).push(json_view(entry)));
                        assert forall|k: int| 0 <= k < kept@.len() implies exists|j: int|
                            0 <= j < i + 1 && #[trigger] json_view(kept@[k]) == all[j] by {
                            if k < before.len() {
                                assert(kept@[k] == before[k]);
                                let j = choose|j: int| 0 <= j < i && #[trigger] json_view(before[k]) == all[j];
                                assert(json_view(kept@[k]) == all[j]);
                            } else {
                                assert(json_view(kept@[k]) == all[i as int]);
                            }
                        }
                    }
                }
                i = i + 1;
            }
            assert(all.take(n as int) =~= all);
            proof {
                lemma_items_view(kept@);
                lemma_items_readable(items_view(kept@));
                if items_readable(all) {
                    assert forall|k: int| 0 <= k < items_view(kept@).len() implies numbers_readable(
                        #[trigger] items_view(kept@)[k],
                    ) by {
                        let j = choose|j: int| 0 <= j < n && #[trigger] json_view(kept@[k]) == all[j];
                        assert(numbers_readable(all[j]));
                    }
                }
            }
            kept
        },
    }
}

/// Makes the edit on the file's list of subscriptions, creating the list where there is none.
fn edit_list(base: JsonValue, edit: &ListEdit) -> (r: Result<JsonValue, FileError>)
    ensures
        match editable_entries(json_view(base)) {
            None => r == Err::<JsonValue, FileError>(FileError::UnexpectedLayout),
            Some(entries) => r matches Ok(v) && json_view(v) == with_entries(json_view(base), edited(entries, *edit)),
        },
        numbers_readable(json_view(base)) ==> (r matches Ok(v) ==> numbers_readable(json_view(v))),
{
    let ghost b = json_view(base);
    let (root, top) = swap_field(base, "value", JsonValue::Null);
    let mut values = match top {
        Some(JsonValue::Array(values)) => values,
        _ => {
            return Err(FileError::UnexpectedLayout);
        },
    };
    proof {
        lemma_items_view(values@);
    }
    let ghost vs = items_view(values@);
    assert(top_values(b) == Some(vs));
    assert(get(b, "value"@) is Some);
    proof {
        lemma_put_twice(b, "value"@, JsonView::Null, JsonView::Null);
        if numbers_readable(b) {
            match b {
                JsonView::Object(fields) => {
                    lemma_fields_readable(fields);
                    lemma_field_at(fields, "value"@);
                    let j = field_at(fields, "value"@)->0;
                    assert(numbers_readable(fields[j].1));
                },
                _ => {},
            }
            lemma_items_readable(vs);
        }
    }
    match list_position(&values) {
        Some(k) => {
            let ghost list_view = vs[k as int];
            let list = values.remove(k);
            assert(json_view(list) == list_view);
            let (list1, old) = swap_field(list, "value", JsonValue::Null);
            let entries = match old {
                Some(JsonValue::Array(entries)) => entries,
                _ => {
                    return Err(FileError::UnexpectedLayout);
                },
            };
            proof {
                lemma_items_view(entries@);
                lemma_put_twice(list_view, "value"@, JsonView::Null, JsonView::Null);
                if numbers_readable(b) {
                    assert(numbers_readable(list_view));
                    match list_view {
                        JsonView::Object(fields) => {
                            lemma_fields_readable(fields);
                            lemma_field_at(fields, "value"@);
                            let j = field_at(fields, "value"@)->0;
                            assert(numbers_readable(fields[j].1));
                        },
                        _ => {},
                    }
                }
            }
            let changed = apply_edit(entries, edit);
            let ghost changed_view = JsonView::Array(items_view(changed@));
            let (list2, _) = swap_field(list1, "value", JsonValue::Array(changed));
            proof {
                lemma_put_twice(list_view, "value"@, JsonView::Null, changed_view);
            }
            let ghost removed_values = values@;
            values.insert(k, list2);
            proof {
                lemma_items_view(values@);
                assert forall|j: int| 0 <= j < values@.len() implies #[trigger] items_view(values@)[j] == vs.update(
                    k as int,
                    put(list_view, "value"@, changed_view),
                )[j] by {
                    if j < k {
                        assert(values@[j] == removed_values[j]);
                    } else if j > k {
                        assert(values@[j] == removed_values[j - 1]);
                    }
                }
                assert(items_view(values@) =~= vs.update(k as int, put(list_view, "value"@, changed_view)));
                if numbers_readable(b) {
                    lemma_put_readable(list_view, "value"@, changed_view);
                    let u = vs.update(k as int, put(list_view, "value"@, changed_view));
                    lemma_items_readable(u);
                    assert forall|j: int| 0 <= j < u.len() implies numbers_readable(#[trigger] u[j]) by {
                        if j != k {
                            assert(u[j] == vs[j]);
                        }
                    }
                }
            }
        },
        None => {
            let nothing: Vec<JsonValue> = Vec::new();
            assert(items_view(nothing@) =~= Seq::<JsonView>::empty());
            let changed = apply_edit(nothing, edit);
            proof {
                lemma_items_view(changed@);
            }
            let list = named_list_value("subscribed", changed);
            let ghost before = values@;
            values.push(list);
            proof {
                assert(values@.drop_last() =~= before);
                assert(items_view(values@) =~= vs.push(json_view(list)));
                if numbers_readable(b) {
                    let u = vs.push(json_view(list));
                    lemma_items_readable(u);
                    match json_view(list) {
                        JsonView::Object(fields) => {
                            lemma_fields_readable(fields);
                        },
                        _ => {},
                    }
                    assert forall|j: int| 0 <= j < u.len() implies numbers_readable(#[trigger] u[j]) by {
                        if j < vs.len() {
                            assert(u[j] == vs[j]);
                        }
                    }
                }
            }
        },
    }
    let ghost new_top = JsonView::Array(items_view(values@));
    let (root2, _) = swap_field(root, "value", JsonValue::Array(values));
    proof {
        lemma_put_twice(b, "value"@, JsonView::Null, new_top);
        if numbers_readable(b) {
            lemma_items_readable(items_view(values@));
            lemma_put_readable(b, "value"@, new_top);
        }
    }
    Ok(root2)
}

/// A new file, as the launcher starts one.
fn new_file_value() -> (r: JsonValue)
    ensures
        json_view(r) == new_file(),
        numbers_readable(json_view(r)),
{
    let nothing: Vec<JsonValue> = Vec::new();
    assert(items_view(nothing@) =~= Seq::<JsonView>::empty());
    let r = named_list_value("marketplace", nothing);
    proof {
        let fields = json_view(r)->Object_0;
        lemma_fields_readable(fields);
        lemma_items_readable(Seq::<JsonView>::empty());
    }
    r
}

/// The file an edit starts from: the one read, or a new one where there is none.
pub open spec fn edit_base(root: Option<JsonValue>) -> JsonView {
    match root {
        Some(v) => json_view(v),
        None => new_file(),
    }
}

/// Subscribes to `item` in the file `root` (a new one where there is none): its entry is
/// appended to the list of subscriptions, which is created where there is none, unless an entry
/// carries its id already. Everything else stays as it was. A file without a list of top-level
/// values, or whose list of subscriptions holds no list, is refused.
pub fn with_subscription(root: Option<JsonValue>, item: &SubscribedItem) -> (r: Result<JsonValue, FileError>)
    ensures
        match editable_entries(edit_base(root)) {
            None => r == Err::<JsonValue, FileError>(FileError::UnexpectedLayout),
            Some(entries) => r matches Ok(v) && json_view(v) == with_entries(
                edit_base(root),
                added(entries, item_view(*item)),
            ),
        },
{
    let base = match root {
        Some(v) => v,
        None => new_file_value(),
    };
    edit_list(base, &ListEdit::Add(item))
}

/// Removes the item from the file `root` (a new one where there is none): every entry carrying
/// its id is taken out of the list of subscriptions, which is created where there is none.
/// Everything else stays as it was. A file without a list of top-level values, or whose list of
/// subscriptions holds no list, is refused.
pub fn without_subscription(root: Option<JsonValue>, item_id: u32) -> (r: Result<JsonValue, FileError>)
    ensures
        match editable_entries(edit_base(root)) {
            None => r == Err::<JsonValue, FileError>(FileError::UnexpectedLayout),
            Some(entries) => r matches Ok(v) && json_view(v) == with_entries(edit_base(root), removed(entries, item_id)),
        },
{
    let base = match root {
        Some(v) => v,
        None => new_file_value(),
    };
    edit_list(base, &ListEdit::Remove(item_id))
}

/// The file an edit starts from, given the text read, if the file exists: `None` where the text
/// is no JSON.
pub open spec fn file_base(text: Option<&str>) -> Option<JsonView> {
    match text {
        Some(t) => json_parsed(t@),
        None => Some(new_file()),
    }
}

/// The subscriptions in the file, given its text if it exists: none where there is no file.
pub fn read_subscriptions(text: Option<&str>) -> (r: Result<Vec<SubscribedItem>, FileError>)
    ensures
        match text {
            None => r matches Ok(items) && items@.len() == 0,
            Some(t) => match json_parsed(t@) {
                None => r == Err::<Vec<SubscribedItem>, FileError>(FileError::Unparsable),
                Some(root) => r matches Ok(items) && item_views(items@) == items_of(root),
            },
        },
{
    match text {
        None => Ok(Vec::new()),
        Some(t) => match parse_json(t) {
            None => Err(FileError::Unparsable),
            Some(root) => Ok(subscriptions_in(&root)),
        },
    }
}

/// Reads the file's text, if it exists, makes the edit and writes it back.
fn edit_file(text: Option<&str>, edit: &ListEdit) -> (r: Result<Vec<u8>, FileError>)
    ensures
        match file_base(text) {
            None => r == Err::<Vec<u8>, FileError>(FileError::Unparsable),
            Some(base) => match editable_entries(base) {
                None => r == Err::<Vec<u8>, FileError>(FileError::UnexpectedLayout),
                Some(entries) => r matches Ok(bytes) && bytes@ == pretty_json(with_entries(base, edited(entries, *edit))),
            },
        },
{
    let base = match text {
        None => new_file_value(),
        Some(t) => match parse_json(t) {
            None => {
                return Err(FileError::Unparsable);
            },
            Some(root) => root,
        },
    };
    let edited_root = match edit_list(base, edit) {
        Ok(v) => v,
        Err(e) => {
            return Err(e);
        },
    };
    match json_pretty(&edited_root) {
        Some(bytes) => Ok(bytes),
        None => Err(FileError::Unwritable),
    }
}

/// The file's new bytes after subscribing to `item`, given its text if it exists: as
/// `with_subscription` edits it, written by `serde_json`, pretty printed. A text that is no JSON
/// is refused.
pub fn subscribed_file(text: Option<&str>, item: &SubscribedItem) -> (r: Result<Vec<u8>, FileError>)
    ensures
        match file_base(text) {
            None => r == Err::<Vec<u8>, FileError>(FileError::Unparsable),
            Some(base) => match editable_entries(base) {
                None => r == Err::<Vec<u8>, FileError>(FileError::UnexpectedLayout),
                Some(entries) => r matches Ok(bytes) && bytes@ == pretty_json(
                    with_entries(base, added(entries, item_view(*item))),
                ),
            },
        },
{
    edit_file(text, &ListEdit::Add(item))
}

/// The file's new bytes after removing the item, given its text if it exists: as
/// `without_subscription` edits it, written by `serde_json`, pretty printed. A text that is no
/// JSON is refused.
pub fn unsubscribed_file(text: Option<&str>, item_id: u32) -> (r: Result<Vec<u8>, FileError>)
    ensures
        match file_base(text) {
            None => r == Err::<Vec<u8>, FileError>(FileError::Unparsable),
            Some(base) => match editable_entries(base) {
                None => r == Err::<Vec<u8>, FileError>(FileError::UnexpectedLayout),
                Some(entries) => r matches Ok(bytes) && bytes@ == pretty_json(with_entries(base, removed(entries, item_id))),
            },
        },
{
    edit_file(text, &ListEdit::Remove(item_id))
}

/// `n` in decimal is digits of value `n`, the first no `+`.
proof fn lemma_decimal_digits(n: nat)
    ensures
        decimal(n).len() > 0,
        all_digits(decimal(n)),
        digits_value(decimal(n)) == n,
        decimal(n)[0] != '+',
    decreases n,
{
    let d = decimal(n);
    let last = digit_char(n % 10);
    assert(last as int == 48 + n % 10);
    if n >= 10 {
        lemma_decimal_digits(n / 10);
        let front = decimal(n / 10);
        assert(d.drop_last() =~= front);
        assert(d.last() == last);
        assert(d[0] == front[0]);
        assert forall|i: int| 0 <= i < d.len() implies '0' <= #[trigger] d[i] && d[i] <= '9' by {
            if i < front.len() {
                assert(d[i] == front[i]);
            }
        }
        assert(digits_value(d) == digits_value(front) * 10 + (last as int - '0' as int));
        assert((n / 10) * 10 + n % 10 == n) by (nonlinear_arith);
    } else {
        assert(d.drop_last() =~= Seq::<char>::empty());
        assert(d[0] == last);
        assert(n % 10 == n);
        assert(digits_value(d) == digits_value(d.drop_last()) * 10 + (d.last() as int - '0' as int));
    }
}

/// The entry written for an item stands for that item, and carries its id.
pub proof fn lemma_entry_of(item: (Seq<char>, u32, ItemType))
    ensures
        item_from(entry_of(item)) == Some(item),
        entry_id(entry_of(item)) == Some(item.1),
{
    reveal_strlit("name");
    reveal_strlit("id");
    reveal_strlit("type");
    let fields = entry_of(item)->Object_0;
    assert(fields[0].0 == "name"@ && fields[1].0 == "id"@ && fields[2].0 == "type"@);
    assert("name"@ != "id"@ && "name"@ != "type"@ && "id"@ != "type"@) by {
        assert("name"@.len() == 4 && "id"@.len() == 2 && "type"@.len() == 4);
        assert("name"@[0] == 'n' && "type"@[0] == 't');
    }
    lemma_field_at_first(fields, "name"@, 0);
    lemma_field_at_first(fields, "id"@, 1);
    lemma_field_at_first(fields, "type"@, 2);
    lemma_decimal_digits(item.1 as nat);
    let t = decimal(item.1 as nat);
    assert(parse_u32_spec(t) == Some(item.1));
    lemma_kind_names(item.2);
}

/// A kind read back from the name it is written with is that kind.
proof fn lemma_kind_names(kind: ItemType)
    ensures
        kind_named(kind_name(kind)) == kind,
{
    reveal_strlit("Config");
    reveal_strlit("Theme");
    reveal_strlit("Addon");
    reveal_strlit("Script");
    reveal_strlit("Other");
    assert("Config"@[0] == 'C' && "Theme"@[0] == 'T' && "Addon"@[0] == 'A' && "Script"@[0] == 'S' && "Other"@[0]
        == 'O');
    assert("Config"@.len() == 6 && "Theme"@.len() == 5 && "Addon"@.len() == 5 && "Script"@.len() == 6
        && "Other"@.len() == 5);
    assert("Theme"@ != "Config"@);
    assert("Addon"@ != "Config"@ && "Addon"@ != "Theme"@);
    assert("Script"@ != "Config"@ && "Script"@ != "Theme"@ && "Script"@ != "Addon"@);
    assert("Other"@ != "Config"@ && "Other"@ != "Theme"@ && "Other"@ != "Addon"@ && "Other"@ != "Script"@);
}

/// A file with a list of subscriptions holding `list`, made from one it could be made from,
/// holds that list, and its subscriptions are what the list stands for.
pub proof fn lemma_with_entries(root: JsonView, list: Seq<JsonView>)
    requires
        editable_entries(root) is Some,
    ensures
        editable_entries(with_entries(root, list)) == Some(list),
        subscribed_entries(with_entries(root, list)) == Some(list),
        items_of(with_entries(root, list)) == readable_items(list),
{
    reveal_strlit("name");
    reveal_strlit("value");
    assert("name"@ != "value"@) by {
        assert("name"@.len() == 4 && "value"@.len() == 5);
    }
    let values = top_values(root)->0;
    lemma_list_at(values);
    let changed = match list_at(values) {
        Some(k) => values.update(k, put(values[k], "value"@, JsonView::Array(list))),
        None => values.push(named_list("subscribed"@, list)),
    };
    lemma_put_twice(root, "value"@, JsonView::Array(changed), JsonView::Array(changed));
    let new_root = with_entries(root, list);
    assert(get(new_root, "value"@) == Some(JsonView::Array(changed)));
    assert(top_values(new_root) == Some(changed));
    match list_at(values) {
        Some(k) => {
            let old_list = values[k];
            lemma_put_twice(old_list, "value"@, JsonView::Array(list), JsonView::Array(list));
            lemma_put_other(old_list, "value"@, JsonView::Array(list), "name"@);
            assert(changed[k] == put(old_list, "value"@, JsonView::Array(list)));
            assert(is_subscribed_list(changed[k]));
            assert(get(changed[k], "value"@) == Some(JsonView::Array(list)));
            lemma_list_at(changed);
            match list_at(changed) {
                Some(k2) => {
                    if k2 < k {
                        assert(changed[k2] == values[k2]);
                    }
                    if k2 > k {
                        assert(!is_subscribed_list(changed[k]));
                    }
                },
                None => {
                    assert(!is_subscribed_list(changed[k]));
                },
            }
            assert(list_at(changed) == Some(k));
        },
        None => {
            let fresh = named_list("subscribed"@, list);
            let f = fresh->Object_0;
            lemma_field_at_first(f, "name"@, 0);
            lemma_field_at_first(f, "value"@, 1);
            assert(is_subscribed_list(fresh));
            assert(get(fresh, "value"@) == Some(JsonView::Array(list)));
            lemma_list_at(changed);
            let n = values.len() as int;
            assert(changed[n] == fresh);
            match list_at(changed) {
                Some(k2) => {
                    if k2 < n {
                        assert(changed[k2] == values[k2]);
                    }
                },
                None => {
                    assert(!is_subscribed_list(changed[n]));
                },
            }
            assert(list_at(changed) == Some(n));
        },
    }
}

/// Subscribing to an item no entry carries the id of, then reading the file, gives the
/// subscriptions read before with the item last.
pub proof fn law_reading_after_subscribing(root: JsonView, item: (Seq<char>, u32, ItemType))
    requires
        editable_entries(root) is Some,
        !has_id(editable_entries(root)->0, item.1),
    ensures
        items_of(with_entries(root, added(editable_entries(root)->0, item))) == items_of(root).push(item),
{
    let entries = editable_entries(root)->0;
    lemma_with_entries(root, added(entries, item));
    lemma_entry_of(item);
    assert(entries.push(entry_of(item)).drop_last() =~= entries);
    let values = top_values(root)->0;
    match list_at(values) {
        Some(_) => {},
        None => {
            assert(readable_items(entries) =~= Seq::<(Seq<char>, u32, ItemType)>::empty());
        },
    }
}

/// Subscribing to an item twice is subscribing once: the second time finds its entry.
pub proof fn law_subscribing_twice_adds_once(entries: Seq<JsonView>, item: (Seq<char>, u32, ItemType))
    ensures
        added(added(entries, item), item) == added(entries, item),
{
    if !has_id(entries, item.1) {
        lemma_entry_of(item);
        let once = entries.push(entry_of(item));
        assert(entry_id(once[entries.len() as int]) == Some(item.1));
    }
}

/// The items without those of one id, the others in their order.
pub open spec fn items_without(items: Seq<(Seq<char>, u32, ItemType)>, id: u32) -> Seq<(Seq<char>, u32, ItemType)>
    decreases items.len(),
{
    if items.len() == 0 {
        Seq::empty()
    } else {
        let front = items_without(items.drop_last(), id);
        if items.last().1 == id {
            front
        } else {
            front.push(items.last())
        }
    }
}

/// What the entries left after removing an item stand for: what they stood for before, without
/// the item. An entry written as a list of its parts carries no `id` field, so removing leaves
/// it; such entries are left out here.
pub proof fn lemma_removed_items(entries: Seq<JsonView>, id: u32)
    requires
        forall|i: int| 0 <= i < entries.len() ==> !(#[trigger] entries[i] is Array),
    ensures
        readable_items(removed(entries, id)) == items_without(readable_items(entries), id),
    decreases entries.len(),
{
    if entries.len() > 0 {
        let front = entries.drop_last();
        assert forall|i: int| 0 <= i < front.len() implies !(#[trigger] front[i] is Array) by {
            assert(front[i] == entries[i]);
        }
        lemma_removed_items(front, id);
        let e = entries.last();
        assert(!(entries[entries.len() - 1] is Array));
        let kept = removed(front, id);
        if let Some(x) = item_from(e) {
            assert(entry_id(e) == Some(x.1));
            let before = readable_items(front);
            assert(before.push(x).drop_last() =~= before);
        }
        if entry_id(e) != Some(id) {
            assert(removed(entries, id) == kept.push(e));
            assert(kept.push(e).drop_last() =~= kept);
        }
    }
}

/// Removing an item, then reading the file, gives the subscriptions read before without it,
/// where no entry is written as a list of its parts.
pub proof fn law_reading_after_removing(root: JsonView, id: u32)
    requires
        editable_entries(root) is Some,
        forall|i: int|
            0 <= i < editable_entries(root)->0.len() ==> !(#[trigger] editable_entries(root)->0[i] is Array),
    ensures
        items_of(with_entries(root, removed(editable_entries(root)->0, id))) == items_without(items_of(root), id),
{
    let entries = editable_entries(root)->0;
    lemma_with_entries(root, removed(entries, id));
    lemma_removed_items(entries, id);
    let values = top_values(root)->0;
    match list_at(values) {
        Some(_) => {},
        None => {
            assert(readable_items(entries) =~= Seq::<(Seq<char>, u32, ItemType)>::empty());
        },
    }
}

/// An edit of the subscriptions leaves the rest of the file as the client wrote it: every field
/// of the file but `value`, every top-level value but the list of subscriptions, and every field
/// of that list but its own `value`.
pub proof fn law_edits_keep_the_rest(root: JsonView, list: Seq<JsonView>, key: Seq<char>)
    requires
        editable_entries(root) is Some,
        key != "value"@,
    ensures
        get(with_entries(root, list), key) == get(root, key),
        top_values(with_entries(root, list)) matches Some(changed) && ({
            let values = top_values(root)->0;
            &&& forall|j: int|
                0 <= j < values.len() && list_at(values) != Some(j) ==> #[trigger] changed[j] == values[j]
            &&& list_at(values) matches Some(k) ==> get(changed[k], key) == get(values[k], key)
        }),
{
    let values = top_values(root)->0;
    let changed = match list_at(values) {
        Some(k) => values.update(k, put(values[k], "value"@, JsonView::Array(list))),
        None => values.push(named_list("subscribed"@, list)),
    };
    lemma_put_twice(root, "value"@, JsonView::Array(changed), JsonView::Array(changed));
    lemma_put_other(root, "value"@, JsonView::Array(changed), key);
    lemma_list_at(values);
    assert(top_values(with_entries(root, list)) == Some(changed));
    match list_at(values) {
        Some(k) => {
            lemma_put_other(values[k], "value"@, JsonView::Array(list), key);
            assert(changed[k] == put(values[k], "value"@, JsonView::Array(list)));
        },
        None => {
            assert forall|j: int| 0 <= j < values.len() implies #[trigger] changed[j] == values[j] by {}
        },
    }
}

} // verus!
