use vstd::prelude::*;
use vstd::string::StringSliceAdditionalSpecFns;
use vstd::utf8::{decode_utf8, encode_utf8, encode_utf8_decode_utf8, is_char_boundary};
use crate::json::{Json, JsonValue, items_model, entries_model, lemma_items_model, lemma_entries_model, lemma_items_model_push, lemma_entries_model_push};
use crate::text::{chars_of, contains_str, has_infix, has_prefix, lowercase, matches_at, string_of, to_lowercase};

verus! {

/// Whether `redact` can cut `s`: either it is at most eight bytes long, or
/// its fourth and its last-but-four bytes both end a character.
pub open spec fn redactable(s: Seq<char>) -> bool {
    let b = encode_utf8(s);
    b.len() <= 8 || (is_char_boundary(b, 4) && is_char_boundary(b, b.len() - 4))
}

/// What `redact` shows of a secret: eight stars for a value of at most eight
/// bytes, else its first four bytes, three dots and its last four bytes.
pub open spec fn spec_redact(s: Seq<char>) -> Seq<char> {
    let b = encode_utf8(s);
    if b.len() <= 8 {
        "********"@
    } else {
        decode_utf8(b.take(4)) + "..."@ + decode_utf8(b.skip(b.len() - 4))
    }
}

/// The form of a secret that may be shown.
pub fn redact(value: &str) -> (r: String)
    requires
        redactable(value@),
    ensures
        r@ == spec_redact(value@),
{
    let bytes = value.as_bytes();
    let n = bytes.len();
    if n <= 8 {
        return String::from_str("********");
    }
    let (head, _) = value.split_at(4);
    let (_, tail) = value.split_at(n - 4);
    proof {
        encode_utf8_decode_utf8(head@);
        encode_utf8_decode_utf8(tail@);
        assert(value.spec_bytes().subrange(0, 4) =~= value.spec_bytes().take(4));
        assert(value.spec_bytes().subrange(n - 4, value.spec_bytes().len() as int) =~= value.spec_bytes().skip(n - 4));
    }
    let mut r = String::from_str(head);
    r.append("...");
    r.append(tail);
    r
}

/// The credential name that `s` begins with, with the name it is shown
/// under: `api_key`, `access_token` or `Authorization`.
pub open spec fn credential_at(s: Seq<char>) -> Option<(Seq<char>, Seq<char>)> {
    if has_prefix(s, "api_key"@) {
        Some(("api_key"@, "api_key_redacted"@))
    } else if has_prefix(s, "access_token"@) {
        Some(("access_token"@, "access_token_redacted"@))
    } else if has_prefix(s, "Authorization"@) {
        Some(("Authorization"@, "Authorization-Redacted"@))
    } else {
        None
    }
}

/// Whether `c` belongs to a run of separators (`seps`) between a name and
/// its value, or to a run of value characters: a value ends at a quote, a
/// comma, a closing bracket, `&`, `;` or the end of a line.
pub open spec fn in_run(c: char, seps: bool) -> bool {
    if seps {
        c == '"' || c == '\'' || c == ':' || c == '=' || c == ' ' || c == '\t'
    } else {
        !(c == '"' || c == '\'' || c == ',' || c == '}' || c == ']' || c == ')' || c == '&' || c == ';' || c
            == '\n' || c == '\r')
    }
}

/// The length of the run of separators (`seps`) or value characters that
/// `s` begins with.
pub open spec fn run_len(s: Seq<char>, seps: bool) -> nat
    decreases s.len(),
{
    if s.len() > 0 && in_run(s[0], seps) {
        1 + run_len(s.drop_first(), seps)
    } else {
        0
    }
}

/// A run is no longer than the text it starts.
pub proof fn lemma_run_len(s: Seq<char>, seps: bool)
    ensures
        run_len(s, seps) <= s.len(),
    decreases s.len(),
{
    if s.len() > 0 && in_run(s[0], seps) {
        lemma_run_len(s.drop_first(), seps);
    }
}

/// A message with its credentials hidden: each `api_key`, `access_token`
/// and `Authorization` is shown marked as redacted, and when separators
/// (quotes, `:`, `=`, blanks) follow it, the value after them is replaced by
/// `[redacted]`.
pub open spec fn spec_redact_sensitive_string(s: Seq<char>) -> Seq<char>
    decreases s.len(),
{
    if s.len() == 0 {
        Seq::empty()
    } else {
        match credential_at(s) {
            Some((name, shown)) => {
                let rest = s.skip(name.len() as int);
                let a = run_len(rest, true);
                let b = if a > 0 {
                    run_len(rest.skip(a as int), false)
                } else {
                    0
                };
                proof {
                    reveal_strlit("api_key");
                    reveal_strlit("access_token");
                    reveal_strlit("Authorization");
                    assert(0 < name.len() <= s.len());
                    lemma_run_len(rest, true);
                    lemma_run_len(rest.skip(a as int), false);
                }
                shown + rest.take(a as int) + (if b > 0 {
                    "[redacted]"@
                } else {
                    Seq::empty()
                }) + spec_redact_sensitive_string(rest.skip((a + b) as int))
            },
            None => seq![s[0]] + spec_redact_sensitive_string(s.drop_first()),
        }
    }
}

fn run_end(cs: &Vec<char>, start: usize, seps: bool) -> (r: usize)
    requires
        start <= cs@.len(),
    ensures
        r == start + run_len(cs@.skip(start as int), seps),
        r <= cs@.len(),
{
    let mut j = start;
    while j < cs.len()
        invariant
            start <= j <= cs@.len(),
            run_len(cs@.skip(start as int), seps) == (j - start) + run_len(cs@.skip(j as int), seps),
        decreases cs@.len() - j,
    {
        let c = cs[j];
        let member = if seps {
            c == '"' || c == '\'' || c == ':' || c == '=' || c == ' ' || c == '\t'
        } else {
            !(c == '"' || c == '\'' || c == ',' || c == '}' || c == ']' || c == ')' || c == '&' || c == ';' || c
                == '\n' || c == '\r')
        };
        assert(cs@.skip(j as int)[0] == c);
        if !member {
            return j;
        }
        assert(cs@.skip(j as int).drop_first() =~= cs@.skip(j + 1));
        j = j + 1;
    }
    assert(cs@.skip(j as int).len() == 0);
    j
}

fn credential_in(cs: &Vec<char>, i: usize) -> (r: Option<(usize, &'static str)>)
    requires
        i < cs@.len(),
    ensures
        match credential_at(cs@.skip(i as int)) {
            Some((name, shown)) => r matches Some((n, sh)) && n == name.len() && sh@ == shown,
            None => r is None,
        },
{
    proof {
        reveal_strlit("api_key");
        reveal_strlit("access_token");
        reveal_strlit("Authorization");
    }
    let ghost t = cs@.skip(i as int);
    let a = chars_of("api_key");
    let b = chars_of("access_token");
    let c = chars_of("Authorization");
    let ma = matches_at(cs, &a, i);
    let mb = matches_at(cs, &b, i);
    let mc = matches_at(cs, &c, i);
    assert(ma == has_prefix(t, "api_key"@)) by {
        if i + 7 <= cs@.len() {
            assert(t.take(7) =~= cs@.subrange(i as int, i + 7));
        }
    }
    assert(mb == has_prefix(t, "access_token"@)) by {
        if i + 12 <= cs@.len() {
            assert(t.take(12) =~= cs@.subrange(i as int, i + 12));
        }
    }
    assert(mc == has_prefix(t, "Authorization"@)) by {
        if i + 13 <= cs@.len() {
            assert(t.take(13) =~= cs@.subrange(i as int, i + 13));
        }
    }
    if ma {
        Some((7, "api_key_redacted"))
    } else if mb {
        Some((12, "access_token_redacted"))
    } else if mc {
        Some((13, "Authorization-Redacted"))
    } else {
        None
    }
}

proof fn lemma_unfold_credential(t: Seq<char>, name: Seq<char>, shown: Seq<char>)
    requires
        t.len() > 0,
        credential_at(t) == Some((name, shown)),
    ensures
        ({
            let rest = t.skip(name.len() as int);
            let a = run_len(rest, true);
            let b = if a > 0 {
                run_len(rest.skip(a as int), false)
            } else {
                0
            };
            spec_redact_sensitive_string(t) == shown + rest.take(a as int) + (if b > 0 {
                "[redacted]"@
            } else {
                Seq::empty()
            }) + spec_redact_sensitive_string(rest.skip((a + b) as int))
        }),
{
}

/// Writes the shown form of the credential at `i`, its separators and the
/// mark of its value, and gives the position after them.
fn hide_credential(cs: &Vec<char>, i: usize, n: usize, shown: &str, out: &mut Vec<char>) -> (next: usize)
    requires
        i < cs@.len(),
        credential_at(cs@.skip(i as int)) matches Some((name, sh)) && n == name.len() && sh == shown@,
    ensures
        i < next <= cs@.len(),
        final(out)@ + spec_redact_sensitive_string(cs@.skip(next as int)) == old(out)@
            + spec_redact_sensitive_string(cs@.skip(i as int)),
{
    let ghost t = cs@.skip(i as int);
    proof {
        reveal_strlit("api_key");
        reveal_strlit("access_token");
        reveal_strlit("Authorization");
        let (name, sh) = credential_at(t)->0;
        assert(0 < name.len() <= t.len());
        assert(t.len() == cs@.len() - i);
        assert(n == name.len());
        lemma_unfold_credential(t, name, sh);
    }
    let len = cs.len();
    assert(i + n <= len);
    let start = i + n;
    let a_end = run_end(cs, start, true);
    let b_end = if a_end > start {
        run_end(cs, a_end, false)
    } else {
        a_end
    };
    proof {
        let rest = t.skip(n as int);
        assert(rest =~= cs@.skip(start as int));
        assert(rest.skip(a_end - start) =~= cs@.skip(a_end as int));
        assert(rest.take(a_end - start) =~= cs@.subrange(start as int, a_end as int));
        assert(rest.skip(b_end - start) =~= cs@.skip(b_end as int));
    }
    let mut piece = chars_of(shown);
    let ghost before = out@;
    out.append(&mut piece);
    let mut k = start;
    while k < a_end
        invariant
            start <= k <= a_end <= cs@.len(),
            out@ == before + shown@ + cs@.subrange(start as int, k as int),
        decreases a_end - k,
    {
        out.push(cs[k]);
        k = k + 1;
        assert(out@ =~= before + shown@ + cs@.subrange(start as int, k as int));
    }
    if b_end > a_end {
        let mut mark = chars_of("[redacted]");
        out.append(&mut mark);
    }
    proof {
        let rest = t.skip(n as int);
        let a = run_len(rest, true);
        let b = if a > 0 {
            run_len(rest.skip(a as int), false)
        } else {
            0
        };
        assert(a == a_end - start);
        assert(b == b_end - a_end);
        assert(out@ + spec_redact_sensitive_string(cs@.skip(b_end as int)) =~= before + spec_redact_sensitive_string(t));
    }
    b_end
}

proof fn lemma_run_len_prefix(x: Seq<char>, y: Seq<char>, seps: bool)
    requires
        forall|i: int| 0 <= i < x.len() ==> in_run(#[trigger] x[i], seps),
        y.len() == 0 || !in_run(y[0], seps),
    ensures
        run_len(x + y, seps) == x.len(),
    decreases x.len(),
{
    if x.len() == 0 {
        assert(x + y =~= y);
    } else {
        assert((x + y).drop_first() =~= x.drop_first() + y);
        assert((x + y)[0] == x[0]);
        lemma_run_len_prefix(x.drop_first(), y, seps);
    }
}

/// The value written after a credential name and its separators does not
/// stand in the result: the name is shown marked, the separators stay, the
/// value becomes `[redacted]`, and the text after it is redacted in turn.
pub proof fn law_credential_value_hidden(
    name: Seq<char>,
    shown: Seq<char>,
    seps: Seq<char>,
    value: Seq<char>,
    tail: Seq<char>,
)
    requires
        credential_at(name + seps + value + tail) == Some((name, shown)),
        seps.len() > 0,
        forall|i: int| 0 <= i < seps.len() ==> in_run(#[trigger] seps[i], true),
        value.len() > 0,
        !in_run(value[0], true),
        forall|i: int| 0 <= i < value.len() ==> in_run(#[trigger] value[i], false),
        tail.len() == 0 || !in_run(tail[0], false),
    ensures
        spec_redact_sensitive_string(name + seps + value + tail) == shown + seps + "[redacted]"@
            + spec_redact_sensitive_string(tail),
{
    let s = name + seps + value + tail;
    assert(s.len() > 0);
    lemma_unfold_credential(s, name, shown);
    let rest = s.skip(name.len() as int);
    assert(rest =~= seps + (value + tail));
    lemma_run_len_prefix(seps, value + tail, true);
    assert(rest.take(seps.len() as int) =~= seps);
    assert(rest.skip(seps.len() as int) =~= value + tail);
    lemma_run_len_prefix(value, tail, false);
    assert(rest.skip((seps.len() + value.len()) as int) =~= tail);
}

/// A response body or message with its credentials hidden (see
/// `spec_redact_sensitive_string`).
pub fn redact_sensitive_string(value: &str) -> (r: String)
    ensures
        r@ == spec_redact_sensitive_string(value@),
{
    let cs = chars_of(value);
    let mut out: Vec<char> = Vec::new();
    let mut i: usize = 0;
    assert(cs@.skip(0) =~= cs@);
    while i < cs.len()
        invariant
            i <= cs@.len(),
            cs@ == value@,
            out@ + spec_redact_sensitive_string(cs@.skip(i as int)) == spec_redact_sensitive_string(value@),
        decreases cs@.len() - i,
    {
        match credential_in(&cs, i) {
            Some((n, shown)) => {
                i = hide_credential(&cs, i, n, shown, &mut out);
            },
            None => {
                let ghost t = cs@.skip(i as int);
                proof {
                    assert(t.drop_first() =~= cs@.skip(i + 1));
                    assert(t[0] == cs@[i as int]);
                }
                let ghost before = out@;
                out.push(cs[i]);
                assert(out@ + spec_redact_sensitive_string(cs@.skip(i + 1)) =~= before + spec_redact_sensitive_string(t));
                i = i + 1;
            },
        }
    }
    assert(cs@.skip(i as int).len() == 0);
    assert(out@ + spec_redact_sensitive_string(cs@.skip(i as int)) =~= out@);
    string_of(out.as_slice())
}

/// Whether a member of this name holds a secret: its lowercase form holds
/// `password`, `token` or `key`.
pub open spec fn sensitive_key(key: Seq<char>) -> bool {
    let l = lowercase(key);
    has_infix(l, "password"@) || has_infix(l, "token"@) || has_infix(l, "key"@)
}

/// Whether every text held under a secret name in `v` can be redacted.
pub open spec fn json_redactable(v: Json) -> bool
    decreases v,
{
    match v {
        Json::Array(items) => items_redactable(items),
        Json::Object(entries) => entries_redactable(entries),
        _ => true,
    }
}

/// Whether every item of an array can be redacted.
pub open spec fn items_redactable(items: Seq<Json>) -> bool
    decreases items,
{
    if items.len() == 0 {
        true
    } else {
        items_redactable(items.drop_last()) && json_redactable(items.last())
    }
}

/// Whether every member of an object can be redacted.
pub open spec fn entries_redactable(entries: Seq<(Seq<char>, Json)>) -> bool
    decreases entries,
{
    if entries.len() == 0 {
        true
    } else {
        entries_redactable(entries.drop_last()) && if sensitive_key(entries.last().0) {
            match entries.last().1 {
                Json::Str(s) => redactable(s),
                _ => true,
            }
        } else {
            json_redactable(entries.last().1)
        }
    }
}

/// `v` with every text held under a secret name redacted, at any depth;
/// a secret name that holds anything but text keeps it as it is.
pub open spec fn redacted_json(v: Json) -> Json
    decreases v,
{
    match v {
        Json::Array(items) => Json::Array(redacted_items(items)),
        Json::Object(entries) => Json::Object(redacted_entries(entries)),
        other => other,
    }
}

/// The items of an array, each redacted.
pub open spec fn redacted_items(items: Seq<Json>) -> Seq<Json>
    decreases items,
{
    if items.len() == 0 {
        Seq::empty()
    } else {
        redacted_items(items.drop_last()).push(redacted_json(items.last()))
    }
}

/// The members of an object, each redacted; a text under a secret name
/// is redacted, anything else under a secret name kept.
pub open spec fn redacted_entries(entries: Seq<(Seq<char>, Json)>) -> Seq<(Seq<char>, Json)>
    decreases entries,
{
    if entries.len() == 0 {
        Seq::empty()
    } else {
        redacted_entries(entries.drop_last()).push(
            (
                entries.last().0,
                if sensitive_key(entries.last().0) {
                    match entries.last().1 {
                        Json::Str(s) => Json::Str(spec_redact(s)),
                        other => other,
                    }
                } else {
                    redacted_json(entries.last().1)
                },
            ),
        )
    }
}

fn is_sensitive_key(key: &str) -> (r: bool)
    ensures
        r == sensitive_key(key@),
{
    let lower = to_lowercase(key);
    contains_str(lower.as_str(), "password") || contains_str(lower.as_str(), "token")
        || contains_str(lower.as_str(), "key")
}

/// A copy of the JSON value.
#[verifier::loop_isolation(false)]
pub fn clone_json(value: &JsonValue) -> (r: JsonValue)
    ensures
        r@ == value@,
    decreases value,
{
    match value {
        JsonValue::Null => JsonValue::Null,
        JsonValue::Bool(b) => JsonValue::Bool(*b),
        JsonValue::Number(n) => JsonValue::Number(*n),
        JsonValue::Str(s) => JsonValue::Str(s.clone()),
        JsonValue::Array(items) => {
            let mut out: Vec<JsonValue> = Vec::new();
            let mut i: usize = 0;
            proof {
                lemma_items_model(items@);
            }
            while i < items.len()
                invariant
                    i <= items@.len(),
                    items_model(out@) == items_model(items@.take(i as int)),
                decreases items@.len() - i,
            {
                assert(decreases_to!(*value => *items));
                assert(decreases_to!(*items => items@));
                assert(decreases_to!(items@ => items@[i as int]));
                let x = clone_json(&items[i]);
                proof {
                    lemma_items_model_push(out@, x);
                    assert(items@.take(i + 1).drop_last() =~= items@.take(i as int));
                }
                out.push(x);
                i = i + 1;
            }
            assert(items@.take(items@.len() as int) =~= items@);
            JsonValue::Array(out)
        },
        JsonValue::Object(entries) => {
            let mut out: Vec<(String, JsonValue)> = Vec::new();
            let mut i: usize = 0;
            while i < entries.len()
                invariant
                    i <= entries@.len(),
                    entries_model(out@) == entries_model(entries@.take(i as int)),
                decreases entries@.len() - i,
            {
                assert(decreases_to!(*value => *entries));
                assert(decreases_to!(*entries => entries@));
                assert(decreases_to!(entries@ => entries@[i as int]));
                assert(decreases_to!(entries@[i as int] => entries@[i as int].1));
                let x = clone_json(&entries[i].1);
                let k = entries[i].0.clone();
                proof {
                    lemma_entries_model_push(out@, (k, x));
                    assert(entries@.take(i + 1).drop_last() =~= entries@.take(i as int));
                }
                out.push((k, x));
                i = i + 1;
            }
            assert(entries@.take(entries@.len() as int) =~= entries@);
            JsonValue::Object(out)
        },
    }
}


proof fn lemma_items_redactable(items: Seq<Json>)
    ensures
        items_redactable(items) <==> forall|i: int| 0 <= i < items.len() ==> json_redactable(#[trigger] items[i]),
    decreases items.len(),
{
    if items.len() > 0 {
        lemma_items_redactable(items.drop_last());
        if items_redactable(items) {
            assert forall|i: int| 0 <= i < items.len() implies json_redactable(#[trigger] items[i]) by {
                if i < items.len() - 1 {
                    assert(items[i] == items.drop_last()[i]);
                }
            }
        }
        if forall|i: int| 0 <= i < items.len() ==> json_redactable(#[trigger] items[i]) {
            assert forall|i: int| 0 <= i < items.drop_last().len() implies json_redactable(#[trigger] items.drop_last()[i]) by {
                assert(items[i] == items.drop_last()[i]);
            }
            assert(json_redactable(items[items.len() - 1]));
        }
    }
}

/// Whether the entry with this name and value can be redacted.
pub open spec fn entry_ok(key: Seq<char>, v: Json) -> bool {
    if sensitive_key(key) {
        match v {
            Json::Str(s) => redactable(s),
            _ => true,
        }
    } else {
        json_redactable(v)
    }
}

/// The value of an entry with this name once redacted.
pub open spec fn entry_redacted(key: Seq<char>, v: Json) -> Json {
    if sensitive_key(key) {
        match v {
            Json::Str(s) => Json::Str(spec_redact(s)),
            other => other,
        }
    } else {
        redacted_json(v)
    }
}

proof fn lemma_entries_redactable(entries: Seq<(Seq<char>, Json)>)
    ensures
        entries_redactable(entries) <==> forall|i: int|
            0 <= i < entries.len() ==> entry_ok(#[trigger] entries[i].0, entries[i].1),
    decreases entries.len(),
{
    if entries.len() > 0 {
        let d = entries.drop_last();
        lemma_entries_redactable(d);
        if entries_redactable(entries) {
            assert forall|i: int| 0 <= i < entries.len() implies entry_ok(#[trigger] entries[i].0, entries[i].1) by {
                if i < entries.len() - 1 {
                    assert(entries[i] == d[i]);
                }
            }
        }
        if forall|i: int| 0 <= i < entries.len() ==> entry_ok(#[trigger] entries[i].0, entries[i].1) {
            assert forall|i: int| 0 <= i < d.len() implies entry_ok(#[trigger] d[i].0, d[i].1) by {
                assert(entries[i] == d[i]);
                assert(entry_ok(entries[i].0, entries[i].1));
            }
            let l = entries.len() - 1;
            assert(entry_ok(entries[l].0, entries[l].1));
        }
    }
}

proof fn lemma_redacted_items_push(items: Seq<Json>, v: Json)
    ensures
        redacted_items(items.push(v)) == redacted_items(items).push(redacted_json(v)),
{
    assert(items.push(v).drop_last() =~= items);
}

proof fn lemma_redacted_entries_push(entries: Seq<(Seq<char>, Json)>, e: (Seq<char>, Json))
    ensures
        redacted_entries(entries.push(e)) == redacted_entries(entries).push((e.0, entry_redacted(e.0, e.1))),
{
    assert(entries.push(e).drop_last() =~= entries);
}

/// `value` with every text held under a name that holds `password`,
/// `token` or `key` (in any case) redacted, at any depth.
#[verifier::loop_isolation(false)]
pub fn redact_sensitive_json(value: &JsonValue) -> (r: JsonValue)
    requires
        json_redactable(value@),
    ensures
        r@ == redacted_json(value@),
    decreases value,
{
    match value {
        JsonValue::Array(items) => {
            let mut out: Vec<JsonValue> = Vec::new();
            let mut i: usize = 0;
            proof {
                lemma_items_model(items@);
                lemma_items_redactable(items_model(items@));
                assert(items@.take(0) =~= Seq::<JsonValue>::empty());
            }
            while i < items.len()
                invariant
                    i <= items@.len(),
                    items_model(out@) == redacted_items(items_model(items@.take(i as int))),
                decreases items@.len() - i,
            {
                assert(decreases_to!(*value => *items));
                assert(decreases_to!(*items => items@));
                assert(decreases_to!(items@ => items@[i as int]));
                assert(items_model(items@)[i as int] == items@[i as int]@);
                let x = redact_sensitive_json(&items[i]);
                proof {
                    lemma_items_model_push(out@, x);
                    let t = items@.take(i + 1);
                    assert(t.drop_last() =~= items@.take(i as int));
                    assert(t.last() == items@[i as int]);
                    lemma_redacted_items_push(items_model(items@.take(i as int)), items@[i as int]@);
                }
                out.push(x);
                i = i + 1;
            }
            assert(items@.take(items@.len() as int) =~= items@);
            JsonValue::Array(out)
        },
        JsonValue::Object(entries) => {
            let mut out: Vec<(String, JsonValue)> = Vec::new();
            let mut i: usize = 0;
            proof {
                lemma_entries_model(entries@);
                lemma_entries_redactable(entries_model(entries@));
                assert(entries@.take(0) =~= Seq::<(String, JsonValue)>::empty());
            }
            while i < entries.len()
                invariant
                    i <= entries@.len(),
                    entries_model(out@) == redacted_entries(entries_model(entries@.take(i as int))),
                decreases entries@.len() - i,
            {
                let key = entries[i].0.clone();
                let ghost m = entries_model(entries@)[i as int];
                assert(m == (entries@[i as int].0@, entries@[i as int].1@));
                assert(entry_ok(m.0, m.1));
                let x = if is_sensitive_key(key.as_str()) {
                    match &entries[i].1 {
                        JsonValue::Str(s) => JsonValue::Str(redact(s.as_str())),
                        other => clone_json(other),
                    }
                } else {
                    assert(decreases_to!(*value => *entries));
                    assert(decreases_to!(*entries => entries@));
                    assert(decreases_to!(entries@ => entries@[i as int]));
                    assert(decreases_to!(entries@[i as int] => entries@[i as int].1));
                    redact_sensitive_json(&entries[i].1)
                };
                proof {
                    lemma_entries_model_push(out@, (key, x));
                    let t = entries@.take(i + 1);
                    assert(t.drop_last() =~= entries@.take(i as int));
                    assert(t.last() == entries@[i as int]);
                    lemma_redacted_entries_push(entries_model(entries@.take(i as int)), m);
                }
                out.push((key, x));
                i = i + 1;
            }
            assert(entries@.take(entries@.len() as int) =~= entries@);
            JsonValue::Object(out)
        },
        other => clone_json(other),
    }
}

/// Whether `redact` can cut `value` (see `redactable`).
pub fn can_redact(value: &str) -> (r: bool)
    ensures
        r == redactable(value@),
{
    let n = value.as_bytes().len();
    n <= 8 || (value.is_char_boundary(4) && value.is_char_boundary(n - 4))
}

/// Whether `redact_sensitive_json` can redact every secret text of `value`
/// (see `json_redactable`).
#[verifier::loop_isolation(false)]
pub fn json_can_redact(value: &JsonValue) -> (r: bool)
    ensures
        r == json_redactable(value@),
    decreases value,
{
    match value {
        JsonValue::Array(items) => {
            proof {
                lemma_items_model(items@);
                lemma_items_redactable(items_model(items@));
            }
            let mut i: usize = 0;
            while i < items.len()
                invariant
                    i <= items@.len(),
                    forall|j: int| 0 <= j < i ==> json_redactable(#[trigger] items_model(items@)[j]),
                decreases items@.len() - i,
            {
                assert(decreases_to!(*value => *items));
                assert(decreases_to!(*items => items@));
                assert(decreases_to!(items@ => items@[i as int]));
                if !json_can_redact(&items[i]) {
                    assert(!json_redactable(items_model(items@)[i as int]));
                    return false;
                }
                i = i + 1;
            }
            true
        },
        JsonValue::Object(entries) => {
            proof {
                lemma_entries_model(entries@);
                lemma_entries_redactable(entries_model(entries@));
            }
            let mut i: usize = 0;
            while i < entries.len()
                invariant
                    i <= entries@.len(),
                    forall|j: int|
                        0 <= j < i ==> entry_ok(#[trigger] entries_model(entries@)[j].0, entries_model(entries@)[j].1),
                decreases entries@.len() - i,
            {
                let ghost m = entries_model(entries@)[i as int];
                assert(m == (entries@[i as int].0@, entries@[i as int].1@));
                let ok = if is_sensitive_key(entries[i].0.as_str()) {
                    match &entries[i].1 {
                        JsonValue::Str(s) => can_redact(s.as_str()),
                        _ => true,
                    }
                } else {
                    assert(decreases_to!(*value => *entries));
                    assert(decreases_to!(*entries => entries@));
                    assert(decreases_to!(entries@ => entries@[i as int]));
                    assert(decreases_to!(entries@[i as int] => entries@[i as int].1));
                    json_can_redact(&entries[i].1)
                };
                if !ok {
                    assert(!entry_ok(m.0, m.1));
                    return false;
                }
                i = i + 1;
            }
            true
        },
        _ => true,
    }
}

} // verus!
