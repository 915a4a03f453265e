//! JSON values, as the files the launcher shares with LiquidBounce hold them: read and written by
//! `serde_json`, looked into and edited here.

use vstd::prelude::*;
use crate::utils::text::{decimal, push_str, str_eq};

verus! {

#[verifier::external_type_specification]
#[verifier::external_body]
pub struct ExJsonValue(serde_json::Value);

/// A JSON value. A number is kept as the text `serde_json` writes for it; an object's fields
/// are kept in the order they were read.
pub enum JsonValue {
    Null,
    Bool(bool),
    Number(String),
    Text(String),
    Array(Vec<JsonValue>),
    Object(Vec<(String, JsonValue)>),
}

/// A JSON value by its texts.
pub ghost enum JsonView {
    Null,
    Bool(bool),
    Number(Seq<char>),
    Text(Seq<char>),
    Array(Seq<JsonView>),
    Object(Seq<(Seq<char>, JsonView)>),
}

/// A JSON value by its texts.
pub open spec fn json_view(v: JsonValue) -> JsonView
    decreases v,
{
    match v {
        JsonValue::Null => JsonView::Null,
        JsonValue::Bool(b) => JsonView::Bool(b),
        JsonValue::Number(t) => JsonView::Number(t@),
        JsonValue::Text(t) => JsonView::Text(t@),
        JsonValue::Array(items) => JsonView::Array(items_view(items@)),
        JsonValue::Object(fields) => JsonView::Object(fields_view(fields@)),
    }
}

/// Values by their texts.
pub open spec fn items_view(items: Seq<JsonValue>) -> Seq<JsonView>
    decreases items,
{
    if items.len() == 0 {
        Seq::empty()
    } else {
        items_view(items.drop_last()).push(json_view(items.last()))
    }
}

/// Fields by their texts.
pub open spec fn fields_view(fields: Seq<(String, JsonValue)>) -> Seq<(Seq<char>, JsonView)>
    decreases fields,
{
    if fields.len() == 0 {
        Seq::empty()
    } else {
        fields_view(fields.drop_last()).push((fields.last().0@, json_view(fields.last().1)))
    }
}

pub proof fn lemma_items_view(s: Seq<JsonValue>)
    ensures
        items_view(s).len() == s.len(),
        forall|i: int| 0 <= i < s.len() ==> #[trigger] items_view(s)[i] == json_view(s[i]),
    decreases s.len(),
{
    if s.len() > 0 {
        lemma_items_view(s.drop_last());
    }
}

pub proof fn lemma_fields_view(s: Seq<(String, JsonValue)>)
    ensures
        fields_view(s).len() == s.len(),
        forall|i: int| 0 <= i < s.len() ==> #[trigger] fields_view(s)[i] == (s[i].0@, json_view(s[i].1)),
    decreases s.len(),
{
    if s.len() > 0 {
        lemma_fields_view(s.drop_last());
    }
}

/// What `serde_json` reads from a text, if the text is JSON.
pub uninterp spec fn json_parsed(text: Seq<char>) -> Option<JsonView>;

/// Whether `serde_json` reads a text as a number.
pub uninterp spec fn json_number(text: Seq<char>) -> bool;

/// The bytes `serde_json` writes for a value, pretty printed.
pub uninterp spec fn pretty_json(value: JsonView) -> Seq<u8>;

/// Whether `serde_json` reads the text of every number of a value.
pub open spec fn numbers_readable(v: JsonView) -> bool
    decreases v,
{
    match v {
        JsonView::Number(t) => json_number(t),
        JsonView::Array(items) => items_readable(items),
        JsonView::Object(fields) => fields_readable(fields),
        _ => true,
    }
}

pub open spec fn items_readable(items: Seq<JsonView>) -> bool
    decreases items,
{
    items.len() == 0 || (items_readable(items.drop_last()) && numbers_readable(items.last()))
}

pub open spec fn fields_readable(fields: Seq<(Seq<char>, JsonView)>) -> bool
    decreases fields,
{
    fields.len() == 0 || (fields_readable(fields.drop_last()) && numbers_readable(fields.last().1))
}

/// Converts a value of `serde_json` one for one: a number to the text it writes for it, an
/// object's fields in its order.
#[verifier::external_body]
fn json_of(value: serde_json::Value) -> JsonValue {
    match value {
        serde_json::Value::Null => JsonValue::Null,
        serde_json::Value::Bool(b) => JsonValue::Bool(b),
        serde_json::Value::Number(n) => JsonValue::Number(n.to_string()),
        serde_json::Value::String(t) => JsonValue::Text(t),
        serde_json::Value::Array(items) => JsonValue::Array(items.into_iter().map(json_of).collect()),
        serde_json::Value::Object(fields) => JsonValue::Object(fields.into_iter().map(|(k, v)| (k, json_of(v))).collect()),
    }
}

/// Converts a value back one for one; `None` where a number's text is not one `serde_json`
/// reads.
#[verifier::external_body]
fn value_of(value: &JsonValue) -> Option<serde_json::Value> {
    Some(match value {
        JsonValue::Null => serde_json::Value::Null,
        JsonValue::Bool(b) => serde_json::Value::Bool(*b),
        JsonValue::Number(t) => serde_json::Value::Number(t.parse().ok()?),
        JsonValue::Text(t) => serde_json::Value::String(t.clone()),
        JsonValue::Array(items) => serde_json::Value::Array(items.iter().map(value_of).collect::<Option<_>>()?),
        JsonValue::Object(fields) => serde_json::Value::Object(
            fields.iter().map(|(k, v)| Some((k.clone(), value_of(v)?))).collect::<Option<_>>()?,
        ),
    })
}

/// Trusted: `serde_json::from_str` into a `serde_json::Value`, converted one for one. What it
/// reads is named, not stated; every number it reads has a text it reads again, since it keeps
/// the text it writes.
#[verifier::external_body]
pub(crate) fn parse_json(text: &str) -> (r: Option<JsonValue>)
    ensures
        match r {
            Some(v) => json_parsed(text@) == Some(json_view(v)) && numbers_readable(json_view(v)),
            None => json_parsed(text@) is None,
        },
{
    match serde_json::from_str::<serde_json::Value>(text) {
        Ok(value) => Some(json_of(value)),
        Err(_) => None,
    }
}

/// Trusted: `serde_json::to_vec_pretty` of the value converted back. What it writes is named,
/// not stated. Writing a value cannot fail; converting it back fails only on a number whose text
/// `serde_json` does not read.
#[verifier::external_body]
pub(crate) fn json_pretty(value: &JsonValue) -> (r: Option<Vec<u8>>)
    ensures
        r matches Some(bytes) ==> bytes@ == pretty_json(json_view(*value)),
        numbers_readable(json_view(*value)) ==> r is Some,
{
    match value_of(value) {
        Some(v) => serde_json::to_vec_pretty(&v).ok(),
        None => None,
    }
}

/// Trusted: the text `serde_json` writes for a number made from `n` (`Number::from` and
/// `to_string`): `n` in decimal, which it reads again.
#[verifier::external_body]
pub(crate) fn number_text(n: u32) -> (r: String)
    ensures
        r@ == decimal(n as nat),
        json_number(r@),
{
    serde_json::Number::from(n).to_string()
}

/// Every value of a list has readable numbers.
pub proof fn lemma_items_readable(items: Seq<JsonView>)
    ensures
        items_readable(items) == forall|i: int| 0 <= i < items.len() ==> numbers_readable(#[trigger] items[i]),
    decreases items.len(),
{
    if items.len() > 0 {
        let front = items.drop_last();
        lemma_items_readable(front);
        if items_readable(items) {
            assert forall|i: int| 0 <= i < items.len() implies numbers_readable(#[trigger] items[i]) by {
                if i < front.len() {
                    assert(front[i] == items[i]);
                }
            }
        }
        if forall|i: int| 0 <= i < items.len() ==> numbers_readable(#[trigger] items[i]) {
            assert(numbers_readable(items[items.len() - 1]));
            assert forall|i: int| 0 <= i < front.len() implies numbers_readable(#[trigger] front[i]) by {
                assert(front[i] == items[i]);
            }
        }
    }
}

/// Every field of an object has readable numbers.
pub proof fn lemma_fields_readable(fields: Seq<(Seq<char>, JsonView)>)
    ensures
        fields_readable(fields) == forall|i: int| 0 <= i < fields.len() ==> numbers_readable(#[trigger] fields[i].1),
    decreases fields.len(),
{
    if fields.len() > 0 {
        let front = fields.drop_last();
        lemma_fields_readable(front);
        if fields_readable(fields) {
            assert forall|i: int| 0 <= i < fields.len() implies numbers_readable(#[trigger] fields[i].1) by {
                if i < front.len() {
                    assert(front[i] == fields[i]);
                }
            }
        }
        if forall|i: int| 0 <= i < fields.len() ==> numbers_readable(#[trigger] fields[i].1) {
            assert(numbers_readable(fields[fields.len() - 1].1));
            assert forall|i: int| 0 <= i < front.len() implies numbers_readable(#[trigger] front[i].1) by {
                assert(front[i] == fields[i]);
            }
        }
    }
}

/// A field named `key` with none of that name before it is the one `field_at` finds.
pub proof fn lemma_field_at_first(fields: Seq<(Seq<char>, JsonView)>, key: Seq<char>, i: int)
    requires
        0 <= i < fields.len(),
        fields[i].0 == key,
        forall|j: int| 0 <= j < i ==> #[trigger] fields[j].0 != key,
    ensures
        field_at(fields, key) == Some(i),
{
    lemma_field_at(fields, key);
    match field_at(fields, key) {
        Some(k) => {
            if k < i {
                assert(fields[k].0 != key);
            } else if k > i {
                assert(fields[i].0 != key);
            }
        },
        None => {
            assert(fields[i].0 != key);
        },
    }
}

/// Giving a field a value whose numbers are readable keeps them readable.
pub proof fn lemma_put_readable(v: JsonView, key: Seq<char>, value: JsonView)
    requires
        numbers_readable(v),
        numbers_readable(value),
    ensures
        numbers_readable(put(v, key, value)),
{
    match v {
        JsonView::Object(fields) => {
            lemma_fields_readable(fields);
            match field_at(fields, key) {
                Some(i) => {
                    lemma_field_at(fields, key);
                    let updated = fields.update(i, (key, value));
                    lemma_fields_readable(updated);
                    assert forall|j: int| 0 <= j < updated.len() implies numbers_readable(#[trigger] updated[j].1) by {
                        if j != i {
                            assert(updated[j] == fields[j]);
                        }
                    }
                },
                None => {},
            }
        },
        _ => {},
    }
}

/// Giving a field a value and then another is giving it the other; the field then holds it.
pub proof fn lemma_put_twice(v: JsonView, key: Seq<char>, first: JsonView, second: JsonView)
    requires
        get(v, key) is Some,
    ensures
        put(put(v, key, first), key, second) == put(v, key, second),
        get(put(v, key, first), key) == Some(first),
{
    match v {
        JsonView::Object(fields) => {
            lemma_field_at(fields, key);
            let i = field_at(fields, key)->0;
            lemma_field_at_update(fields, i, first, key);
            assert(fields.update(i, (key, first)).update(i, (key, second)) =~= fields.update(i, (key, second)));
        },
        _ => {},
    }
}

/// Giving a field a value leaves every field of another name as it was.
pub proof fn lemma_put_other(v: JsonView, key: Seq<char>, value: JsonView, other: Seq<char>)
    requires
        get(v, key) is Some,
        other != key,
    ensures
        get(put(v, key, value), other) == get(v, other),
{
    match v {
        JsonView::Object(fields) => {
            lemma_field_at(fields, key);
            let i = field_at(fields, key)->0;
            lemma_field_at_update(fields, i, value, other);
            lemma_field_at(fields, other);
            match field_at(fields, other) {
                Some(j) => {
                    assert(j != i);
                },
                None => {},
            }
        },
        _ => {},
    }
}

/// The first field named `key`.
pub open spec fn field_at(fields: Seq<(Seq<char>, JsonView)>, key: Seq<char>) -> Option<int>
    decreases fields.len(),
{
    if fields.len() == 0 {
        None
    } else {
        match field_at(fields.drop_last(), key) {
            Some(i) => Some(i),
            None => if fields.last().0 == key {
                Some(fields.len() - 1)
            } else {
                None
            },
        }
    }
}

/// The value of an object's first field named `key`; `None` for what is no object.
pub open spec fn get(v: JsonView, key: Seq<char>) -> Option<JsonView> {
    match v {
        JsonView::Object(fields) => match field_at(fields, key) {
            Some(i) => Some(fields[i].1),
            None => None,
        },
        _ => None,
    }
}

/// An object with its first field named `key` given `value`; anything else as it is.
pub open spec fn put(v: JsonView, key: Seq<char>, value: JsonView) -> JsonView {
    match v {
        JsonView::Object(fields) => match field_at(fields, key) {
            Some(i) => JsonView::Object(fields.update(i, (key, value))),
            None => v,
        },
        _ => v,
    }
}

/// What `field_at` finds in the first `n` fields it finds in all of them.
pub proof fn lemma_field_at_prefix(fields: Seq<(Seq<char>, JsonView)>, key: Seq<char>, n: int)
    requires
        0 <= n <= fields.len(),
        field_at(fields.take(n), key) is Some,
    ensures
        field_at(fields, key) == field_at(fields.take(n), key),
    decreases fields.len() - n,
{
    if n < fields.len() {
        assert(fields.take(n + 1).drop_last() =~= fields.take(n));
        lemma_field_at_prefix(fields, key, n + 1);
    } else {
        assert(fields.take(n) =~= fields);
    }
}

/// The field found is named `key`, and none before it is.
pub proof fn lemma_field_at(fields: Seq<(Seq<char>, JsonView)>, key: Seq<char>)
    ensures
        match field_at(fields, key) {
            Some(i) => 0 <= i < fields.len() && fields[i].0 == key && forall|j: int|
                0 <= j < i ==> #[trigger] fields[j].0 != key,
            None => forall|j: int| 0 <= j < fields.len() ==> #[trigger] fields[j].0 != key,
        },
    decreases fields.len(),
{
    if fields.len() > 0 {
        let front = fields.drop_last();
        lemma_field_at(front, key);
        assert forall|j: int| 0 <= j < front.len() implies #[trigger] fields[j] == front[j] by {}
    }
}

/// Giving a field of the same name a value keeps where every name is found.
pub proof fn lemma_field_at_update(fields: Seq<(Seq<char>, JsonView)>, i: int, value: JsonView, key: Seq<char>)
    requires
        0 <= i < fields.len(),
    ensures
        field_at(fields.update(i, (fields[i].0, value)), key) == field_at(fields, key),
{
    let updated = fields.update(i, (fields[i].0, value));
    lemma_field_at(fields, key);
    lemma_field_at(updated, key);
    match (field_at(fields, key), field_at(updated, key)) {
        (Some(a), Some(b)) => {
            if a < b {
                assert(updated[a].0 == fields[a].0);
            } else if b < a {
                assert(updated[b].0 == fields[b].0);
            }
        },
        (Some(a), None) => {
            assert(updated[a].0 == fields[a].0);
        },
        (None, Some(b)) => {
            assert(updated[b].0 == fields[b].0);
        },
        (None, None) => {},
    }
}

/// An owned copy of a text.
pub(crate) fn owned(s: &str) -> (r: String)
    ensures
        r@ == s@,
{
    let mut r = String::new();
    push_str(&mut r, s);
    r
}

/// Where the first field named `key` is.
pub fn field_position(fields: &Vec<(String, JsonValue)>, key: &str) -> (r: Option<usize>)
    ensures
        match field_at(fields_view(fields@), key@) {
            Some(i) => r matches Some(k) && k == i,
            None => r is None,
        },
        r matches Some(i) ==> i < fields@.len() && fields@[i as int].0@ == key@,
{
    proof {
        lemma_fields_view(fields@);
        lemma_field_at(fields_view(fields@), key@);
    }
    let mut i: usize = 0;
    assert(fields_view(fields@).take(0) =~= Seq::<(Seq<char>, JsonView)>::empty());
    while i < fields.len()
        invariant
            i <= fields@.len(),
            fields_view(fields@).len() == fields@.len(),
            forall|k: int| 0 <= k < fields@.len() ==> #[trigger] fields_view(fields@)[k] == (fields@[k].0@, json_view(fields@[k].1)),
            field_at(fields_view(fields@).take(i as int), key@) is None,
        decreases fields@.len() - i,
    {
        let ghost v = fields_view(fields@);
        assert(v.take(i + 1).drop_last() =~= v.take(i as int));
        assert(v.take(i + 1).last() == v[i as int]);
        if str_eq(fields[i].0.as_str(), key) {
            proof {
                lemma_field_at_prefix(v, key@, i + 1);
            }
            return Some(i);
        }
        i = i + 1;
    }
    assert(fields_view(fields@).take(fields@.len() as int) =~= fields_view(fields@));
    None
}

/// The value of an object's first field named `key`.
pub fn get_field<'a>(v: &'a JsonValue, key: &str) -> (r: Option<&'a JsonValue>)
    ensures
        match get(json_view(*v), key@) {
            Some(x) => r matches Some(y) && json_view(*y) == x,
            None => r is None,
        },
{
    match v {
        JsonValue::Object(fields) => {
            proof {
                lemma_fields_view(fields@);
            }
            assert(json_view(*v) == JsonView::Object(fields_view(fields@)));
            match field_position(fields, key) {
                Some(i) => {
                    assert(fields_view(fields@)[i as int].1 == json_view(fields@[i as int].1));
                    Some(&fields[i].1)
                },
                None => None,
            }
        },
        _ => None,
    }
}

/// Gives an object's first field named `key` the value `value`, and hands back the value it had;
/// anything else stays as it is.
pub fn swap_field(v: JsonValue, key: &str, value: JsonValue) -> (r: (JsonValue, Option<JsonValue>))
    ensures
        json_view(r.0) == put(json_view(v), key@, json_view(value)),
        match get(json_view(v), key@) {
            Some(x) => r.1 matches Some(y) && json_view(y) == x,
            None => r.1 is None,
        },
{
    match v {
        JsonValue::Object(fields) => {
            proof {
                lemma_fields_view(fields@);
            }
            assert(json_view(JsonValue::Object(fields)) == JsonView::Object(fields_view(fields@)));
            match field_position(&fields, key) {
                Some(i) => {
                    let mut fields = fields;
                    let ghost before = fields@;
                    let (name, old) = fields.remove(i);
                    assert(fields_view(before)[i as int].1 == json_view(old));
                    fields.insert(i, (name, value));
                    proof {
                        assert(fields@ =~= before.update(i as int, (name, value)));
                        lemma_fields_view(fields@);
                        assert(fields_view(fields@) =~= fields_view(before).update(
                            i as int,
                            (key@, json_view(value)),
                        ));
                    }
                    assert(json_view(JsonValue::Object(fields)) == JsonView::Object(fields_view(fields@)));
                    (JsonValue::Object(fields), Some(old))
                },
                None => (JsonValue::Object(fields), None),
            }
        },
        other => (other, None),
    }
}

} // verus!
