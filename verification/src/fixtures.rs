use vstd::prelude::*;
use crate::error::{AppError, is_error};
use crate::json::{
    Json, JsonNumber, JsonValue, entries_model, get_array, get_str, get_u64, items_model, json_str,
    json_u64, lemma_items_model, lemma_items_model_push, push_entry, set_entry_in, set_member,
};
use crate::redact::clone_json;
use crate::text::{concat, decimal, decimal_chars, str_eq, str_le, string_of, text_le};

verus! {

/// The member `key` of the fixture document, or `fixture.missing`.
pub fn fixture_value(fixture: &JsonValue, key: &str) -> (r: Result<JsonValue, AppError>)
    ensures
        match fixture@.get(key@) {
            Some(v) => r matches Ok(x) && x@ == v,
            None => r matches Err(e) && is_error(e, "fixture.missing"@, "Missing fixture key "@ + key@),
        },
{
    match fixture.get(key) {
        Some(v) => Ok(clone_json(v)),
        None => {
            let m = concat("Missing fixture key ", key);
            Err(AppError::new("fixture.missing", m.as_str()))
        },
    }
}

/// The fixture that answers for `id`: its entry under `scoped_key`, else
/// the shared `fallback_key` entry.
pub open spec fn pick_fixture(data: Json, scoped_key: Seq<char>, fallback_key: Seq<char>, id: Seq<char>) -> Option<Json> {
    match data.get(scoped_key) {
        Some(group) => match group.get(id) {
            Some(x) => Some(x),
            None => data.get(fallback_key),
        },
        None => data.get(fallback_key),
    }
}

/// Whether a row belongs to the window `[from, to]`: rows without a text
/// `date` always do.
pub open spec fn in_window(row: Json, from: Seq<char>, to: Seq<char>) -> bool {
    match get_str(row, "date"@) {
        Some(d) => text_le(from, d) && text_le(d, to),
        None => true,
    }
}

/// The rows that belong to the window, in order.
pub open spec fn rows_in_window(rows: Seq<Json>, from: Seq<char>, to: Seq<char>) -> Seq<Json>
    decreases rows.len(),
{
    if rows.len() == 0 {
        Seq::empty()
    } else if in_window(rows.last(), from, to) {
        rows_in_window(rows.drop_last(), from, to).push(rows.last())
    } else {
        rows_in_window(rows.drop_last(), from, to)
    }
}

/// A fixture narrowed to a date window: when it has a `data` array, the
/// rows outside the window are dropped and `count` is set to the number left.
pub open spec fn spec_scope_to_window(value: Json, from: Seq<char>, to: Seq<char>) -> Json {
    match value.get("data"@) {
        Some(Json::Array(rows)) => {
            let kept = rows_in_window(rows, from, to);
            set_member(
                set_member(value, "data"@, Json::Array(kept)),
                "count"@,
                Json::Number(JsonNumber::PosInt(kept.len() as u64)),
            )
        },
        _ => value,
    }
}

fn row_in_window(row: &JsonValue, from: &str, to: &str) -> (r: bool)
    ensures
        r == in_window(row@, from@, to@),
{
    match row.get("date") {
        Some(d) => match d.as_str() {
            Some(date) => str_le(from, date) && str_le(date, to),
            None => true,
        },
        None => true,
    }
}

/// The rows of `rows` within `[from, to]`, in order.
pub fn keep_rows_in_window(rows: &Vec<JsonValue>, from: &str, to: &str) -> (r: Vec<JsonValue>)
    ensures
        items_model(r@) == rows_in_window(items_model(rows@), from@, to@),
{
    let mut out: Vec<JsonValue> = Vec::new();
    let mut i: usize = 0;
    proof {
        lemma_items_model(rows@);
        assert(rows@.take(0) =~= Seq::<JsonValue>::empty());
    }
    while i < rows.len()
        invariant
            i <= rows@.len(),
            items_model(rows@).len() == rows@.len(),
            forall|j: int| 0 <= j < rows@.len() ==> #[trigger] items_model(rows@)[j] == rows@[j]@,
            items_model(out@) == rows_in_window(items_model(rows@.take(i as int)), from@, to@),
        decreases rows@.len() - i,
    {
        proof {
            let t = rows@.take(i + 1);
            assert(t.drop_last() =~= rows@.take(i as int));
            lemma_items_model_push(rows@.take(i as int), rows@[i as int]);
            assert(t =~= rows@.take(i as int).push(rows@[i as int]));
            assert(items_model(t).drop_last() =~= items_model(rows@.take(i as int)));
        }
        if row_in_window(&rows[i], from, to) {
            let x = clone_json(&rows[i]);
            proof {
                lemma_items_model_push(out@, x);
            }
            out.push(x);
        }
        i = i + 1;
    }
    assert(rows@.take(rows@.len() as int) =~= rows@);
    out
}

/// The fixture for `id` (from `scoped_key`, else `fallback_key`) narrowed
/// to the dates `[from, to]`, or `fixture.missing`.
pub fn fixture_scoped_value(
    data: &JsonValue,
    scoped_key: &str,
    fallback_key: &str,
    id: &str,
    from: &str,
    to: &str,
) -> (r: Result<JsonValue, AppError>)
    ensures
        match pick_fixture(data@, scoped_key@, fallback_key@, id@) {
            Some(v) => r matches Ok(x) && x@ == spec_scope_to_window(v, from@, to@),
            None => r matches Err(e) && is_error(e, "fixture.missing"@, "Missing fixture for "@ + id@),
        },
{
    let picked = match data.get(scoped_key) {
        Some(group) => match group.get(id) {
            Some(x) => Some(x),
            None => data.get(fallback_key),
        },
        None => data.get(fallback_key),
    };
    let value = match picked {
        Some(v) => clone_json(v),
        None => {
            let m = concat("Missing fixture for ", id);
            return Err(AppError::new("fixture.missing", m.as_str()));
        },
    };
    let rows = match value.get("data") {
        Some(JsonValue::Array(rows)) => Some(keep_rows_in_window(rows, from, to)),
        _ => None,
    };
    match rows {
        Some(kept) => {
            match value {
                JsonValue::Object(entries) => {
                    let mut entries = entries;
                    let n = kept.len();
                    proof {
                        lemma_items_model(kept@);
                    }
                    set_entry_in(&mut entries, "data", JsonValue::Array(kept));
                    set_entry_in(&mut entries, "count", json_u64(n as u64));
                    Ok(JsonValue::Object(entries))
                },
                other => Ok(other),
            }
        },
        None => Ok(value),
    }
}

/// The rows of a collection response, or `fixture.invalid` when it has no
/// `data` array.
pub fn collection_items(value: &JsonValue) -> (r: Result<Vec<JsonValue>, AppError>)
    ensures
        match get_array(value@, "data"@) {
            Some(items) => r matches Ok(v) && items_model(v@) == items,
            None => r matches Err(e) && is_error(e, "fixture.invalid"@, "Collection response has no data[]"@),
        },
{
    match value.get("data") {
        Some(d) => match d.as_array() {
            Some(items) => {
                let c = clone_json(d);
                match c {
                    JsonValue::Array(v) => Ok(v),
                    _ => Err(AppError::new("fixture.invalid", "Collection response has no data[]")),
                }
            },
            None => Err(AppError::new("fixture.invalid", "Collection response has no data[]")),
        },
        None => Err(AppError::new("fixture.invalid", "Collection response has no data[]")),
    }
}

/// Whether one of the `fields` of `item` holds the text `id`.
pub open spec fn item_has_id(item: Json, id: Seq<char>, fields: Seq<&str>) -> bool {
    exists|f: int| 0 <= f < fields.len() && get_str(item, fields[f]@) == Some(id)
}

/// Whether `i` is the first item that has `id` in one of `fields`.
pub open spec fn is_first_with_id(items: Seq<Json>, id: Seq<char>, fields: Seq<&str>, i: int) -> bool {
    0 <= i < items.len() && item_has_id(items[i], id, fields) && forall|j: int|
        0 <= j < i ==> !item_has_id(items[j], id, fields)
}

/// The answer for one item of a collection: the collection's `type`
/// (`object` when it has none) and the item.
pub open spec fn spec_found(collection: Json, item: Json) -> Json {
    Json::Object(
        seq![
            ("type"@, match collection.get("type"@) {
                Some(t) => t,
                None => Json::Str("object"@),
            }),
            ("data"@, item),
        ],
    )
}

fn has_id(item: &JsonValue, id: &str, id_fields: &[&str]) -> (r: bool)
    ensures
        r == item_has_id(item@, id@, id_fields@),
{
    let mut f: usize = 0;
    while f < id_fields.len()
        invariant
            f <= id_fields@.len(),
            forall|g: int| 0 <= g < f ==> get_str(item@, id_fields@[g]@) != Some(id@),
        decreases id_fields@.len() - f,
    {
        match item.get(id_fields[f]) {
            Some(v) => match v.as_str() {
                Some(s) => {
                    if str_eq(s, id) {
                        return true;
                    }
                },
                None => {},
            },
            None => {},
        }
        f = f + 1;
    }
    false
}

/// The first item of a fixture collection whose identifier fields hold
/// `id`, or `fixture.invalid` / `not.found`.
pub fn find_in_collection(collection: &JsonValue, id: &str, id_fields: &[&str]) -> (r: Result<JsonValue, AppError>)
    ensures
        match get_array(collection@, "data"@) {
            None => r matches Err(e) && is_error(e, "fixture.invalid"@, "Fixture collection has no data[]"@),
            Some(items) => if exists|i: int| is_first_with_id(items, id@, id_fields@, i) {
                r matches Ok(x) && x@ == spec_found(
                    collection@,
                    items[choose|i: int| is_first_with_id(items, id@, id_fields@, i)],
                )
            } else {
                r matches Err(e) && is_error(e, "not.found"@, id@ + " was not found in fixture data"@)
            },
        },
{
    let items = match collection.get("data") {
        Some(d) => match d.as_array() {
            Some(items) => items,
            None => {
                return Err(AppError::new("fixture.invalid", "Fixture collection has no data[]"));
            },
        },
        None => {
            return Err(AppError::new("fixture.invalid", "Fixture collection has no data[]"));
        },
    };
    let ghost m = items_model(items@);
    proof {
        lemma_items_model(items@);
    }
    let mut i: usize = 0;
    while i < items.len()
        invariant
            i <= items@.len(),
            m == items_model(items@),
            m.len() == items@.len(),
            get_array(collection@, "data"@) == Some(m),
            forall|j: int| 0 <= j < items@.len() ==> #[trigger] m[j] == items@[j]@,
            forall|j: int| 0 <= j < i ==> !item_has_id(m[j], id@, id_fields@),
        decreases items@.len() - i,
    {
        if has_id(&items[i], id, id_fields) {
            proof {
                assert(is_first_with_id(m, id@, id_fields@, i as int));
                let c = choose|c: int| is_first_with_id(m, id@, id_fields@, c);
                if c < i {
                    assert(!item_has_id(m[c], id@, id_fields@));
                } else if c > i {
                    assert(!item_has_id(m[i as int], id@, id_fields@));
                }
            }
            let kind = match collection.get("type") {
                Some(t) => clone_json(t),
                None => json_str("object"),
            };
            let mut entries: Vec<(String, JsonValue)> = Vec::new();
            push_entry(&mut entries, "type", kind);
            push_entry(&mut entries, "data", clone_json(&items[i]));
            assert(entries_model(entries@) =~= seq![
                ("type"@, match collection@.get("type"@) {
                    Some(t) => t,
                    None => Json::Str("object"@),
                }),
                ("data"@, m[i as int]),
            ]);
            return Ok(JsonValue::Object(entries));
        }
        i = i + 1;
    }
    let m = concat(id, " was not found in fixture data");
    Err(AppError::new("not.found", m.as_str()))
}

/// The one-line summary of a command's data for people.
pub open spec fn spec_summarize(command: Seq<char>, data: Json) -> Seq<char> {
    match get_u64(data, "count"@) {
        Some(count) => command + ": "@ + decimal(count as nat) + " item(s)"@,
        None => match get_array(data, "data"@) {
            Some(rows) => command + ": "@ + decimal(rows.len()) + " item(s)"@,
            None => match data.get("data"@) {
                Some(Json::Object(entries)) => {
                    let inner = Json::Object(entries);
                    let named = match inner.get("name"@) {
                        Some(n) => Some(n),
                        None => match inner.get("roomName"@) {
                            Some(n) => Some(n),
                            None => inner.get("roomTypeName"@),
                        },
                    };
                    match named {
                        Some(Json::Str(name)) => command + ": "@ + name,
                        _ => command + ": "@ + "ok"@,
                    }
                },
                _ => command + ": "@ + "ok"@,
            },
        },
    }
}

/// A count, a number of rows, a name, or `ok`, after the command's name.
pub fn summarize(command: &str, data: &JsonValue) -> (r: String)
    ensures
        r@ == spec_summarize(command@, data@),
{
    let mut head = String::from_str(command);
    head.append(": ");
    match data.get("count") {
        Some(c) => match c.as_u64() {
            Some(count) => {
                let digits = decimal_chars(count);
                let d = string_of(digits.as_slice());
                head.append(d.as_str());
                head.append(" item(s)");
                return head;
            },
            None => {},
        },
        None => {},
    }
    match data.get("data") {
        Some(d) => {
            match d.as_array() {
                Some(rows) => {
                    proof {
                        lemma_items_model(rows@);
                    }
                    let digits = decimal_chars(rows.len() as u64);
                    let t = string_of(digits.as_slice());
                    head.append(t.as_str());
                    head.append(" item(s)");
                    return head;
                },
                None => {},
            }
            match d {
                JsonValue::Object(_) => {
                    let named = match d.get("name") {
                        Some(n) => Some(n),
                        None => match d.get("roomName") {
                            Some(n) => Some(n),
                            None => d.get("roomTypeName"),
                        },
                    };
                    match named {
                        Some(n) => match n.as_str() {
                            Some(name) => {
                                head.append(name);
                                return head;
                            },
                            None => {},
                        },
                        None => {},
                    }
                },
                _ => {},
            }
        },
        None => {},
    }
    head.append("ok");
    head
}

} // verus!
