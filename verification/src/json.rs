use vstd::prelude::*;
use crate::text::{chars_of, same_chars};

verus! {

/// A JSON number as it was read: a non-negative integer, a negative
/// integer, or a floating-point number carried by its IEEE-754 bits.
#[derive(Clone, Copy, PartialEq, Eq, Debug)]
pub enum JsonNumber {
    PosInt(u64),
    NegInt(i64),
    Float(u64),
}

/// A JSON document held by the library.
#[derive(Debug, PartialEq)]
pub enum JsonValue {
    Null,
    Bool(bool),
    Number(JsonNumber),
    Str(String),
    Array(Vec<JsonValue>),
    Object(Vec<(String, JsonValue)>),
}

/// The mathematical model of a JSON document.
pub enum Json {
    Null,
    Bool(bool),
    Number(JsonNumber),
    Str(Seq<char>),
    Array(Seq<Json>),
    Object(Seq<(Seq<char>, Json)>),
}

/// The models of the items of an array, in order.
pub open spec fn items_model(items: Seq<JsonValue>) -> Seq<Json>
    decreases items,
{
    if items.len() == 0 {
        Seq::empty()
    } else {
        items_model(items.drop_last()).push(json_model(items.last()))
    }
}

/// The models of the members of an object, in order.
pub open spec fn entries_model(entries: Seq<(String, JsonValue)>) -> Seq<(Seq<char>, Json)>
    decreases entries,
{
    if entries.len() == 0 {
        Seq::empty()
    } else {
        entries_model(entries.drop_last()).push((entries.last().0@, json_model(entries.last().1)))
    }
}

/// The model of a JSON document.
pub open spec fn json_model(v: JsonValue) -> Json
    decreases v,
{
    match v {
        JsonValue::Null => Json::Null,
        JsonValue::Bool(b) => Json::Bool(b),
        JsonValue::Number(n) => Json::Number(n),
        JsonValue::Str(s) => Json::Str(s@),
        JsonValue::Array(items) => Json::Array(items_model(items@)),
        JsonValue::Object(entries) => Json::Object(entries_model(entries@)),
    }
}

/// The model of each item is the item's model.
pub proof fn lemma_items_model(items: Seq<JsonValue>)
    ensures
        items_model(items).len() == items.len(),
        forall|i: int| 0 <= i < items.len() ==> #[trigger] items_model(items)[i] == json_model(items[i]),
    decreases items.len(),
{
    if items.len() > 0 {
        lemma_items_model(items.drop_last());
    }
}

/// The model of each member is its name and its value's model.
pub proof fn lemma_entries_model(entries: Seq<(String, JsonValue)>)
    ensures
        entries_model(entries).len() == entries.len(),
        forall|i: int|
            0 <= i < entries.len() ==> #[trigger] entries_model(entries)[i] == (
                entries[i].0@,
                json_model(entries[i].1),
            ),
    decreases entries.len(),
{
    if entries.len() > 0 {
        lemma_entries_model(entries.drop_last());
    }
}

/// Pushing an item pushes its model.
pub proof fn lemma_items_model_push(items: Seq<JsonValue>, v: JsonValue)
    ensures
        items_model(items.push(v)) == items_model(items).push(json_model(v)),
{
    assert(items.push(v).drop_last() =~= items);
}

/// Pushing a member pushes its model.
pub proof fn lemma_entries_model_push(entries: Seq<(String, JsonValue)>, e: (String, JsonValue))
    ensures
        entries_model(entries.push(e)) == entries_model(entries).push((e.0@, json_model(e.1))),
{
    assert(entries.push(e).drop_last() =~= entries);
}

impl View for JsonValue {
    type V = Json;

    open spec fn view(&self) -> Json {
        json_model(*self)
    }
}

/// Whether index `i` holds the first entry named `key`.
pub open spec fn is_key_at(entries: Seq<(Seq<char>, Json)>, key: Seq<char>, i: int) -> bool {
    0 <= i < entries.len() && entries[i].0 == key && forall|j: int|
        0 <= j < i ==> entries[j].0 != key
}

/// The value of the first entry named `key`, if any.
pub open spec fn lookup(entries: Seq<(Seq<char>, Json)>, key: Seq<char>) -> Option<Json> {
    if exists|i: int| is_key_at(entries, key, i) {
        Some(entries[choose|i: int| is_key_at(entries, key, i)].1)
    } else {
        None
    }
}

/// The first entry of a name is what `lookup` finds.
pub proof fn lemma_lookup_at(entries: Seq<(Seq<char>, Json)>, key: Seq<char>, i: int)
    requires
        is_key_at(entries, key, i),
    ensures
        lookup(entries, key) == Some(entries[i].1),
{
    let k = choose|k: int| is_key_at(entries, key, k);
    assert(is_key_at(entries, key, k));
    if k < i {
        assert(entries[k].0 != key);
    } else if k > i {
        assert(entries[i].0 != key);
    }
}

/// A name that no entry has is found nowhere.
pub proof fn lemma_lookup_none(entries: Seq<(Seq<char>, Json)>, key: Seq<char>)
    requires
        forall|j: int| 0 <= j < entries.len() ==> entries[j].0 != key,
    ensures
        lookup(entries, key) == None::<Json>,
{
}

proof fn lemma_first_key(entries: Seq<(Seq<char>, Json)>, key: Seq<char>, j: int)
    requires
        0 <= j < entries.len(),
        entries[j].0 == key,
    ensures
        exists|i: int| is_key_at(entries, key, i),
    decreases j,
{
    if exists|m: int| 0 <= m < j && entries[m].0 == key {
        let m = choose|m: int| 0 <= m < j && entries[m].0 == key;
        lemma_first_key(entries, key, m);
    } else {
        assert(is_key_at(entries, key, j));
    }
}

/// After a member is set, reading it gives the value it was set to.
pub proof fn lemma_set_entry_same(entries: Seq<(Seq<char>, Json)>, key: Seq<char>, v: Json)
    ensures
        lookup(set_entry(entries, key, v), key) == Some(v),
{
    if exists|i: int| is_key_at(entries, key, i) {
        let i0 = choose|i: int| is_key_at(entries, key, i);
        let e2 = entries.update(i0, (key, v));
        assert(is_key_at(e2, key, i0));
        lemma_lookup_at(e2, key, i0);
    } else {
        let e2 = entries.push((key, v));
        assert forall|j: int| 0 <= j < entries.len() implies entries[j].0 != key by {
            if entries[j].0 == key {
                lemma_first_key(entries, key, j);
            }
        }
        assert(is_key_at(e2, key, entries.len() as int));
        lemma_lookup_at(e2, key, entries.len() as int);
    }
}

/// Setting a member leaves every other member as it was.
pub proof fn lemma_set_entry_other(entries: Seq<(Seq<char>, Json)>, key: Seq<char>, v: Json, other: Seq<char>)
    requires
        other != key,
    ensures
        lookup(set_entry(entries, key, v), other) == lookup(entries, other),
{
    let e2 = set_entry(entries, key, v);
    if exists|i: int| is_key_at(entries, key, i) {
        let i0 = choose|i: int| is_key_at(entries, key, i);
        assert(e2 == entries.update(i0, (key, v)));
        assert(forall|j: int| 0 <= j < entries.len() ==> #[trigger] e2[j].0 == entries[j].0);
        if exists|i: int| is_key_at(entries, other, i) {
            let i1 = choose|i: int| is_key_at(entries, other, i);
            assert(i1 != i0);
            assert(is_key_at(e2, other, i1));
            lemma_lookup_at(e2, other, i1);
            lemma_lookup_at(entries, other, i1);
        } else {
            assert forall|j: int| 0 <= j < e2.len() implies e2[j].0 != other by {
                if entries[j].0 == other {
                    lemma_first_key(entries, other, j);
                }
            }
            lemma_lookup_none(e2, other);
        }
    } else {
        assert(e2 == entries.push((key, v)));
        if exists|i: int| is_key_at(entries, other, i) {
            let i1 = choose|i: int| is_key_at(entries, other, i);
            assert(is_key_at(e2, other, i1));
            lemma_lookup_at(e2, other, i1);
            lemma_lookup_at(entries, other, i1);
        } else {
            assert forall|j: int| 0 <= j < e2.len() implies e2[j].0 != other by {
                if j < entries.len() && entries[j].0 == other {
                    lemma_first_key(entries, other, j);
                }
            }
            lemma_lookup_none(e2, other);
        }
    }
}

impl Json {
    /// The member `key` of an object, as `Value::get` with a string gives it.
    pub open spec fn get(self, key: Seq<char>) -> Option<Json> {
        match self {
            Json::Object(entries) => lookup(entries, key),
            _ => None,
        }
    }

    /// The text of a string.
    pub open spec fn as_str(self) -> Option<Seq<char>> {
        match self {
            Json::Str(s) => Some(s),
            _ => None,
        }
    }

    /// The value of a boolean.
    pub open spec fn as_bool(self) -> Option<bool> {
        match self {
            Json::Bool(b) => Some(b),
            _ => None,
        }
    }

    /// The items of an array.
    pub open spec fn as_array(self) -> Option<Seq<Json>> {
        match self {
            Json::Array(items) => Some(items),
            _ => None,
        }
    }

    /// `Value::as_u64`: only a non-negative integer answers.
    pub open spec fn as_u64(self) -> Option<u64> {
        match self {
            Json::Number(JsonNumber::PosInt(n)) => Some(n),
            _ => None,
        }
    }

    /// `Value::as_i64`: an integer that fits in `i64` answers.
    pub open spec fn as_i64(self) -> Option<i64> {
        match self {
            Json::Number(JsonNumber::PosInt(n)) => if n <= i64::MAX {
                Some(n as i64)
            } else {
                None
            },
            Json::Number(JsonNumber::NegInt(n)) => Some(n),
            _ => None,
        }
    }
}

/// The member `key` of `v` read as text.
pub open spec fn get_str(v: Json, key: Seq<char>) -> Option<Seq<char>> {
    match v.get(key) {
        Some(x) => x.as_str(),
        None => None,
    }
}

/// The member `key` of `v` read as a boolean.
pub open spec fn get_bool(v: Json, key: Seq<char>) -> Option<bool> {
    match v.get(key) {
        Some(x) => x.as_bool(),
        None => None,
    }
}

/// The member `key` of `v` read as a non-negative integer.
pub open spec fn get_u64(v: Json, key: Seq<char>) -> Option<u64> {
    match v.get(key) {
        Some(x) => x.as_u64(),
        None => None,
    }
}

/// The member `key` of `v` read as a signed integer.
pub open spec fn get_i64(v: Json, key: Seq<char>) -> Option<i64> {
    match v.get(key) {
        Some(x) => x.as_i64(),
        None => None,
    }
}

/// The member `key` of `v` read as an array.
pub open spec fn get_array(v: Json, key: Seq<char>) -> Option<Seq<Json>> {
    match v.get(key) {
        Some(x) => x.as_array(),
        None => None,
    }
}

impl JsonValue {
    /// The member `key` of an object; nothing for any other value.
    pub fn get(&self, key: &str) -> (r: Option<&JsonValue>)
        ensures
            match r {
                Some(x) => self@.get(key@) == Some(x@),
                None => self@.get(key@) is None,
            },
    {
        match self {
            JsonValue::Object(entries) => {
                let k = chars_of(key);
                let mut i: usize = 0;
                proof {
                    lemma_entries_model(entries@);
                }
                while i < entries.len()
                    invariant
                        i <= entries@.len(),
                        k@ == key@,
                        self@ == Json::Object(entries_model(entries@)),
                        entries_model(entries@).len() == entries@.len(),
                        forall|j: int|
                            0 <= j < entries@.len() ==> #[trigger] entries_model(entries@)[j] == (
                                entries@[j].0@,
                                json_model(entries@[j].1),
                            ),
                        forall|j: int| 0 <= j < i ==> entries@[j].0@ != key@,
                    decreases entries@.len() - i,
                {
                    let name = chars_of(entries[i].0.as_str());
                    if same_chars(&name, &k) {
                        proof {
                            let m = entries_model(entries@);
                            assert(m[i as int] == (entries@[i as int].0@, json_model(entries@[i as int].1)));
                            assert forall|j: int| 0 <= j < i implies m[j].0 != key@ by {
                                assert(m[j] == (entries@[j].0@, json_model(entries@[j].1)));
                            }
                            assert(is_key_at(m, key@, i as int));
                            lemma_lookup_at(m, key@, i as int);
                            assert(self@ == Json::Object(m));
                            assert(m[i as int].1 == entries@[i as int].1@);
                        }
                        return Some(&entries[i].1);
                    }
                    i = i + 1;
                }
                proof {
                    let m = entries_model(entries@);
                    assert forall|j: int| 0 <= j < m.len() implies m[j].0 != key@ by {
                        assert(m[j] == (entries@[j].0@, json_model(entries@[j].1)));
                    }
                    lemma_lookup_none(m, key@);
                }
                None
            },
            _ => None,
        }
    }

    /// The text of a JSON string.
    pub fn as_str(&self) -> (r: Option<&str>)
        ensures
            match r {
                Some(s) => self@.as_str() == Some(s@),
                None => self@.as_str() is None,
            },
    {
        match self {
            JsonValue::Str(s) => Some(s.as_str()),
            _ => None,
        }
    }

    /// The value of a JSON boolean.
    pub fn as_bool(&self) -> (r: Option<bool>)
        ensures
            r == self@.as_bool(),
    {
        match self {
            JsonValue::Bool(b) => Some(*b),
            _ => None,
        }
    }

    /// A non-negative integer.
    pub fn as_u64(&self) -> (r: Option<u64>)
        ensures
            r == self@.as_u64(),
    {
        match self {
            JsonValue::Number(JsonNumber::PosInt(n)) => Some(*n),
            _ => None,
        }
    }

    /// An integer that fits in `i64`.
    pub fn as_i64(&self) -> (r: Option<i64>)
        ensures
            r == self@.as_i64(),
    {
        match self {
            JsonValue::Number(JsonNumber::PosInt(n)) => if *n <= 0x7fff_ffff_ffff_ffff {
                Some(*n as i64)
            } else {
                None
            },
            JsonValue::Number(JsonNumber::NegInt(n)) => Some(*n),
            _ => None,
        }
    }

    /// The items of a JSON array.
    pub fn as_array(&self) -> (r: Option<&Vec<JsonValue>>)
        ensures
            match r {
                Some(items) => self@.as_array() == Some(items_model(items@)),
                None => self@.as_array() is None,
            },
    {
        match self {
            JsonValue::Array(items) => Some(items),
            _ => None,
        }
    }
}


/// `entries` with the member `key` set to `v`: the first entry of that name
/// takes the value, or a new entry is added at the end.
pub open spec fn set_entry(entries: Seq<(Seq<char>, Json)>, key: Seq<char>, v: Json) -> Seq<(Seq<char>, Json)> {
    if exists|i: int| is_key_at(entries, key, i) {
        entries.update(choose|i: int| is_key_at(entries, key, i), (key, v))
    } else {
        entries.push((key, v))
    }
}

/// An object with member `key` set to `v`, as `value[key] = v` does on an object.
pub open spec fn set_member(value: Json, key: Seq<char>, v: Json) -> Json {
    match value {
        Json::Object(entries) => Json::Object(set_entry(entries, key, v)),
        other => other,
    }
}

/// A JSON text.
pub fn json_str(s: &str) -> (r: JsonValue)
    ensures
        r@ == Json::Str(s@),
{
    JsonValue::Str(String::from_str(s))
}

/// A JSON non-negative integer.
pub fn json_u64(n: u64) -> (r: JsonValue)
    ensures
        r@ == Json::Number(JsonNumber::PosInt(n)),
{
    JsonValue::Number(JsonNumber::PosInt(n))
}

/// Adds the entry `key: v` at the end of an object's entries.
pub fn push_entry(entries: &mut Vec<(String, JsonValue)>, key: &str, v: JsonValue)
    ensures
        entries_model(final(entries)@) == entries_model(old(entries)@).push((key@, v@)),
        final(entries)@.len() == old(entries)@.len() + 1,
{
    let k = String::from_str(key);
    proof {
        lemma_entries_model_push(entries@, (k, v));
    }
    entries.push((k, v));
}

/// Sets the member `key` of an object's entries to `v`.
pub fn set_entry_in(entries: &mut Vec<(String, JsonValue)>, key: &str, v: JsonValue)
    ensures
        entries_model(final(entries)@) == set_entry(entries_model(old(entries)@), key@, v@),
{
    let k = chars_of(key);
    let ghost m = entries_model(entries@);
    proof {
        lemma_entries_model(entries@);
    }
    let mut i: usize = 0;
    while i < entries.len()
        invariant
            i <= entries@.len(),
            k@ == key@,
            entries@ == old(entries)@,
            m == entries_model(entries@),
            m.len() == entries@.len(),
            forall|j: int| 0 <= j < entries@.len() ==> #[trigger] m[j] == (entries@[j].0@, entries@[j].1@),
            forall|j: int| 0 <= j < i ==> m[j].0 != key@,
        decreases entries@.len() - i,
    {
        let name = chars_of(entries[i].0.as_str());
        if same_chars(&name, &k) {
            proof {
                assert(is_key_at(m, key@, i as int));
                let c = choose|c: int| is_key_at(m, key@, c);
                if c < i {
                    assert(m[c].0 != key@);
                } else if c > i {
                    assert(m[i as int].0 != key@);
                }
                assert(c == i);
                assert(set_entry(m, key@, v@) == m.update(i as int, (key@, v@)));
            }
            let new_key = String::from_str(key);
            let ghost old_entries = entries@;
            entries.set(i, (new_key, v));
            proof {
                lemma_entries_model(entries@);
                assert(entries_model(entries@) =~= m.update(i as int, (key@, v@))) by {
                    assert forall|j: int| 0 <= j < entries@.len() implies entries_model(entries@)[j]
                        == m.update(i as int, (key@, v@))[j] by {
                        if j != i {
                            assert(entries@[j] == old_entries[j]);
                        }
                    }
                }
            }
            return;
        }
        i = i + 1;
    }
    proof {
        assert(!exists|j: int| is_key_at(m, key@, j));
    }
    push_entry(entries, key, v);
}

} // verus!
