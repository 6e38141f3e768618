use vstd::prelude::*;
use vstd::utf8::{decode_utf8, encode_utf8, is_ascii_chars, is_ascii_chars_encode_utf8, valid_utf8};
use crate::config::opt_view;
use crate::error::{AppError, is_error};
use crate::text::{
    str_eq, chars_of, concat, find_char_from, first_index, is_first_index, lemma_first_index, lemma_no_index,
    replace_all, replace_seq, same_chars, slice_chars, split_all, split_once, split_ranges, string_of,
    trim_char, trim_char_both,
};

verus! {

/// Whether `c` is left as it is by URL encoding: an ASCII letter or digit,
/// or one of `-`, `.`, `_`, `~`.
pub open spec fn unreserved(c: char) -> bool {
    ('0' <= c <= '9') || ('a' <= c <= 'z') || ('A' <= c <= 'Z') || c == '-' || c == '.' || c == '_'
        || c == '~'
}

/// Whether URL encoding keeps a byte as it is: an ASCII letter or digit,
/// or one of `-`, `.`, `_`, `~`.
pub open spec fn unreserved_byte(b: u8) -> bool {
    (48 <= b <= 57) || (65 <= b <= 90) || (97 <= b <= 122) || b == 45 || b == 46 || b == 95 || b == 126
}

/// An uppercase hexadecimal digit.
pub open spec fn upper_hex(d: u8) -> char {
    if d < 10 {
        ((48 + d) as u8) as char
    } else {
        ((55 + d) as u8) as char
    }
}

/// Bytes percent-encoded: each byte that is not kept becomes `%` and its
/// two uppercase hexadecimal digits.
pub open spec fn percent_encoded(bytes: Seq<u8>) -> Seq<char>
    decreases bytes.len(),
{
    if bytes.len() == 0 {
        Seq::empty()
    } else {
        let b = bytes.last();
        percent_encoded(bytes.drop_last()) + if unreserved_byte(b) {
            seq![b as char]
        } else {
            seq!['%', upper_hex(b / 16), upper_hex(b % 16)]
        }
    }
}

/// The percent-encoding of a text: its UTF-8 bytes percent-encoded.
pub open spec fn url_encoded(s: Seq<char>) -> Seq<char> {
    percent_encoded(encode_utf8(s))
}

/// Calls `urlencoding::encode`, which percent-encodes every UTF-8 byte of
/// the text except ASCII letters, digits, `-`, `.`, `_` and `~`, writing
/// the two hexadecimal digits in uppercase.
#[verifier::external_body]
pub(crate) fn encode_path(value: &str) -> (r: String)
    ensures
        r@ == url_encoded(value@),
{
    urlencoding::encode(value).into_owned()
}

proof fn lemma_percent_encoded_kept(bytes: Seq<u8>, s: Seq<char>)
    requires
        bytes.len() == s.len(),
        forall|i: int| 0 <= i < s.len() ==> unreserved(#[trigger] s[i]) && bytes[i] == s[i] as u8,
    ensures
        percent_encoded(bytes) == s,
    decreases bytes.len(),
{
    if bytes.len() > 0 {
        let n = bytes.len() - 1;
        lemma_percent_encoded_kept(bytes.drop_last(), s.drop_last());
        let c = s[n];
        assert(unreserved(c));
        assert(bytes[n] == c as u8);
        assert((c as u8) as char == c);
        assert(percent_encoded(bytes) =~= s.drop_last() + seq![c]);
        assert(s.drop_last() + seq![c] =~= s);
    }
}

/// A text made only of unreserved characters is its own percent-encoding,
/// so such an identifier stands in a path as it is.
pub proof fn lemma_url_encoded_unreserved(s: Seq<char>)
    requires
        forall|i: int| 0 <= i < s.len() ==> unreserved(#[trigger] s[i]),
    ensures
        url_encoded(s) == s,
{
    assert(is_ascii_chars(s));
    is_ascii_chars_encode_utf8(s);
    lemma_percent_encoded_kept(encode_utf8(s), s);
}

/// The value of a hexadecimal digit, in either case.
pub open spec fn hex_value(b: u8) -> Option<u8> {
    if 48 <= b <= 57 {
        Some((b - 48) as u8)
    } else if 65 <= b <= 70 {
        Some((b - 55) as u8)
    } else if 97 <= b <= 102 {
        Some((b - 87) as u8)
    } else {
        None
    }
}

/// Bytes percent-decoded: `%` and two hexadecimal digits stand for the
/// byte they write; every other byte, a `%` not followed by two digits
/// among them, stands for itself.
pub open spec fn percent_decoded(bytes: Seq<u8>) -> Seq<u8>
    decreases bytes.len(),
{
    if bytes.len() == 0 {
        Seq::empty()
    } else if bytes[0] == 37 && bytes.len() >= 3 && hex_value(bytes[1]) is Some && hex_value(bytes[2]) is Some {
        seq![(hex_value(bytes[1])->0 * 16 + hex_value(bytes[2])->0) as u8] + percent_decoded(bytes.skip(3))
    } else {
        seq![bytes[0]] + percent_decoded(bytes.drop_first())
    }
}

/// The percent-decoding of a text: its UTF-8 bytes percent-decoded, when
/// they are UTF-8.
pub open spec fn url_decoded(s: Seq<char>) -> Option<Seq<char>> {
    let d = percent_decoded(encode_utf8(s));
    if valid_utf8(d) {
        Some(decode_utf8(d))
    } else {
        None
    }
}

/// Calls `urlencoding::decode`, which percent-decodes the UTF-8 bytes of the
/// text (`%` and two hexadecimal digits in either case give one byte; any
/// other byte is kept) and gives the text they make, or an error when they
/// are not UTF-8. The error is returned as nothing.
#[verifier::external_body]
fn url_decode(value: &str) -> (r: Option<String>)
    ensures
        opt_view(r) == url_decoded(value@),
{
    match urlencoding::decode(value) {
        Ok(decoded) => Some(decoded.into_owned()),
        Err(_) => None,
    }
}

/// A path segment once decoded, or as it is when it does not decode.
pub open spec fn spec_decode_path(s: Seq<char>) -> Seq<char> {
    match url_decoded(s) {
        Some(d) => d,
        None => s,
    }
}

/// The percent-decoded form of a path segment, or the segment itself when
/// it does not decode to UTF-8.
pub fn decode_path(value: &str) -> (r: String)
    ensures
        r@ == spec_decode_path(value@),
{
    match url_decode(value) {
        Some(d) => d,
        None => String::from_str(value),
    }
}

/// The path of one item of a collection: `/<collection>/<encoded id>`.
pub open spec fn spec_item_path(collection: Seq<char>, id: Seq<char>) -> Seq<char> {
    "/"@ + collection + "/"@ + url_encoded(id)
}

/// `/<collection>/<id>`, with the identifier percent-encoded.
pub fn item_path(collection: &str, id: &str) -> (r: String)
    ensures
        r@ == spec_item_path(collection@, id@),
{
    let mut p = String::from_str("/");
    p.append(collection);
    p.append("/");
    let e = encode_path(id);
    p.append(e.as_str());
    p
}

/// The path of an item's sub-resource: `/<collection>/<encoded id>/<child>`.
pub fn scoped_path(collection: &str, id: &str, child: &str) -> (r: String)
    ensures
        r@ == spec_item_path(collection@, id@) + "/"@ + child@,
{
    let mut p = item_path(collection, id);
    p.append("/");
    p.append(child);
    p
}

/// A raw request path split at its first `?` into path and query.
pub open spec fn spec_split_raw_path(raw: Seq<char>) -> (Seq<char>, Option<Seq<char>>) {
    match split_once(raw, '?') {
        Some((path, query)) => (path, Some(query)),
        None => (raw, None),
    }
}

/// The path and the query of a raw request path.
pub fn split_raw_path(raw_path: &str) -> (r: (String, Option<String>))
    ensures
        r.0@ == spec_split_raw_path(raw_path@).0,
        opt_view(r.1) == spec_split_raw_path(raw_path@).1,
{
    let cs = chars_of(raw_path);
    let n = cs.len();
    match find_char_from(&cs, '?', 0) {
        Some(i) => {
            proof {
                lemma_first_index(cs@, '?', i as int);
            }
            let path = slice_chars(&cs, 0, i);
            let query = slice_chars(&cs, i + 1, n);
            assert(path@ =~= raw_path@.take(i as int));
            assert(query@ =~= raw_path@.skip(i + 1));
            (string_of(path.as_slice()), Some(string_of(query.as_slice())))
        },
        None => {
            proof {
                lemma_no_index(cs@, '?');
            }
            (String::from_str(raw_path), None)
        },
    }
}

/// The identifier in a path of the form `/<collection>/<id>/<child>`
/// (slashes at either end ignored), decoded.
pub open spec fn spec_scoped_path_id(path: Seq<char>, collection: Seq<char>, child: Seq<char>) -> Option<
    Seq<char>,
> {
    let parts = split_all(trim_char(path, '/'), '/');
    if parts.len() == 3 && parts[0] == collection && parts[2] == child {
        Some(spec_decode_path(parts[1]))
    } else {
        None
    }
}

/// The decoded identifier of `/<collection>/<id>/<child>`, if `path` has
/// exactly that form.
pub fn scoped_path_id(path: &str, collection: &str, child: &str) -> (r: Option<String>)
    ensures
        opt_view(r) == spec_scoped_path_id(path@, collection@, child@),
{
    let cs = chars_of(path);
    let trimmed = trim_char_both(&cs, '/');
    let parts = split_ranges(&trimmed, '/');
    if parts.len() != 3 {
        return None;
    }
    let ghost sp = split_all(trimmed@, '/');
    let first = slice_chars(&trimmed, parts[0].0, parts[0].1);
    let last = slice_chars(&trimmed, parts[2].0, parts[2].1);
    let col = chars_of(collection);
    let ch = chars_of(child);
    assert(sp[0] == first@);
    assert(sp[2] == last@);
    if same_chars(&first, &col) && same_chars(&last, &ch) {
        let id = slice_chars(&trimmed, parts[1].0, parts[1].1);
        assert(sp[1] == id@);
        let id_text = string_of(id.as_slice());
        Some(decode_path(id_text.as_str()))
    } else {
        None
    }
}

/// Whether `name` is one of `names`.
pub open spec fn names_hold(names: Seq<&str>, name: Seq<char>) -> bool {
    exists|i: int| 0 <= i < names.len() && names[i]@ == name
}

/// The value of a `key=value` pair whose key is one of `names`, with `+`
/// read as a space and then decoded.
pub open spec fn pair_value(pair: Seq<char>, names: Seq<&str>) -> Option<Seq<char>> {
    match split_once(pair, '=') {
        Some((key, value)) => if names_hold(names, key) {
            Some(spec_decode_path(replace_all(value, "+"@, " "@)))
        } else {
            None
        },
        None => None,
    }
}

/// The value of the first of the pairs that `pair_value` answers for.
pub open spec fn first_pair_value(pairs: Seq<Seq<char>>, names: Seq<&str>) -> Option<Seq<char>>
    decreases pairs.len(),
{
    if pairs.len() == 0 {
        None
    } else {
        match pair_value(pairs[0], names) {
            Some(v) => Some(v),
            None => first_pair_value(pairs.drop_first(), names),
        }
    }
}

/// The value of the first `&`-separated pair of the query whose key is one
/// of `names`.
pub open spec fn spec_query_param(query: Option<Seq<char>>, names: Seq<&str>) -> Option<Seq<char>> {
    match query {
        Some(q) => first_pair_value(split_all(q, '&'), names),
        None => None,
    }
}

fn name_in(names: &[&str], key: &Vec<char>) -> (r: bool)
    ensures
        r == names_hold(names@, key@),
{
    let mut i: usize = 0;
    while i < names.len()
        invariant
            i <= names@.len(),
            forall|j: int| 0 <= j < i ==> names@[j]@ != key@,
        decreases names@.len() - i,
    {
        let n = chars_of(names[i]);
        if same_chars(&n, key) {
            return true;
        }
        i = i + 1;
    }
    false
}

/// The value of one `key=value` pair when its key is one of `names`.
fn query_pair_value(pair: &Vec<char>, names: &[&str]) -> (r: Option<String>)
    ensures
        opt_view(r) == pair_value(pair@, names@),
{
    let n = pair.len();
    match find_char_from(pair, '=', 0) {
        Some(i) => {
            proof {
                lemma_first_index(pair@, '=', i as int);
            }
            let key = slice_chars(pair, 0, i);
            let value = slice_chars(pair, i + 1, n);
            assert(key@ =~= pair@.take(i as int));
            assert(value@ =~= pair@.skip(i + 1));
            if name_in(names, &key) {
                let plus = chars_of("+");
                let space = chars_of(" ");
                proof {
                    reveal_strlit("+");
                }
                let spaced = replace_seq(&value, &plus, &space);
                let text = string_of(spaced.as_slice());
                Some(decode_path(text.as_str()))
            } else {
                None
            }
        },
        None => {
            proof {
                lemma_no_index(pair@, '=');
            }
            None
        },
    }
}

/// The decoded value of the first query pair whose key is one of `names`.
pub fn query_param(query: Option<&str>, names: &[&str]) -> (r: Option<String>)
    ensures
        opt_view(r) == spec_query_param(
            match query {
                Some(q) => Some(q@),
                None => None,
            },
            names@,
        ),
{
    match query {
        None => None,
        Some(q) => {
            let cs = chars_of(q);
            let ranges = split_ranges(&cs, '&');
            let ghost pairs = split_all(q@, '&');
            let mut k: usize = 0;
            assert(pairs.skip(0) =~= pairs);
            let ghost want = spec_query_param(
                match query {
                    Some(q) => Some(q@),
                    None => None,
                },
                names@,
            );
            assert(want == first_pair_value(pairs, names@));
            while k < ranges.len()
                invariant
                    want == spec_query_param(
                        match query {
                            Some(q) => Some(q@),
                            None => None,
                        },
                        names@,
                    ),
                    want == first_pair_value(pairs, names@),
                    k <= ranges@.len(),
                    cs@ == q@,
                    ranges@.len() == pairs.len(),
                    forall|m: int|
                        0 <= m < ranges@.len() ==> (#[trigger] ranges@[m]).0 <= ranges@[m].1 <= cs@.len()
                            && pairs[m] == cs@.subrange(ranges@[m].0 as int, ranges@[m].1 as int),
                    first_pair_value(pairs, names@) == first_pair_value(pairs.skip(k as int), names@),
                decreases ranges@.len() - k,
            {
                let pair = slice_chars(&cs, ranges[k].0, ranges[k].1);
                assert(pairs.skip(k as int)[0] == pair@);
                assert(pairs.skip(k as int).drop_first() =~= pairs.skip(k + 1));
                match query_pair_value(&pair, names) {
                    Some(v) => {
                        assert(pairs.skip(k as int).len() > 0);
                        assert(first_pair_value(pairs.skip(k as int), names@) == Some(v@));
                        return Some(v);
                    },
                    None => {
                        assert(first_pair_value(pairs.skip(k as int), names@) == first_pair_value(
                            pairs.skip(k + 1),
                            names@,
                        ));
                    },
                }
                k = k + 1;
            }
            None
        },
    }
}


/// Where a raw read is answered from in fixture mode.
pub enum FixtureRoute {
    /// A dated sub-resource of one item: the fixture group, the shared
    /// fallback entry, the item, and the date window.
    Scoped { scoped_key: &'static str, fallback_key: &'static str, id: String, from: String, to: String },
    /// A whole fixture entry.
    Key(&'static str),
}

/// The fixture entry that answers a plain collection path.
pub open spec fn spec_fixture_key(path: Seq<char>) -> Option<Seq<char>> {
    if path == "/property"@ {
        Some("account"@)
    } else if path == "/agents"@ {
        Some("agents"@)
    } else if path == "/room-types"@ {
        Some("room_types"@)
    } else if path == "/rooms"@ {
        Some("rooms"@)
    } else if path == "/rate-plans"@ {
        Some("rate_plans"@)
    } else if path == "/reservations"@ {
        Some("reservations"@)
    } else if path == "/reservations-inhouse"@ {
        Some("reservations_inhouse"@)
    } else if path == "/blocks"@ {
        Some("blocks"@)
    } else if path == "/webhooks"@ {
        Some("webhooks"@)
    } else {
        None
    }
}

/// The API name of a collection whose fixture entry is `key`: the entry's
/// name with `-` for `_`.
pub open spec fn api_collection(key: Seq<char>) -> Seq<char> {
    key.map_values(|c: char| if c == '_' { '-' } else { c })
}

/// The path of the collection whose fixture entry is `key`.
pub open spec fn collection_path(key: Seq<char>) -> Seq<char> {
    "/"@ + api_collection(key)
}

/// Each plain collection path is answered by the fixture entry of that same
/// collection (the property's by `account`), and each such entry answers its
/// path.
pub proof fn law_fixture_key_names_its_collection(path: Seq<char>)
    ensures
        spec_fixture_key(path) matches Some(k) ==> (path == "/property"@ && k == "account"@) || path
            == collection_path(k),
        spec_fixture_key("/property"@) == Some("account"@),
        spec_fixture_key(collection_path("agents"@)) == Some("agents"@),
        spec_fixture_key(collection_path("room_types"@)) == Some("room_types"@),
        spec_fixture_key(collection_path("rooms"@)) == Some("rooms"@),
        spec_fixture_key(collection_path("rate_plans"@)) == Some("rate_plans"@),
        spec_fixture_key(collection_path("reservations"@)) == Some("reservations"@),
        spec_fixture_key(collection_path("reservations_inhouse"@)) == Some("reservations_inhouse"@),
        spec_fixture_key(collection_path("blocks"@)) == Some("blocks"@),
        spec_fixture_key(collection_path("webhooks"@)) == Some("webhooks"@),
{
    lemma_collection_paths();
    reveal_strlit("/property");
    reveal_strlit("/agents");
    reveal_strlit("/room-types");
    reveal_strlit("/rooms");
    reveal_strlit("/rate-plans");
    reveal_strlit("/reservations");
    reveal_strlit("/reservations-inhouse");
    reveal_strlit("/blocks");
    reveal_strlit("/webhooks");
    assert("/agents"@[1] != "/blocks"@[1]);
    assert("/property"@[1] != "/webhooks"@[1]);
    assert("/room-types"@[2] != "/rate-plans"@[2]);
    assert("/property"@.len() != "/agents"@.len());
    assert("/property"@.len() != "/room-types"@.len());
    assert("/agents"@.len() != "/room-types"@.len());
    assert("/property"@.len() != "/rooms"@.len());
    assert("/agents"@.len() != "/rooms"@.len());
    assert("/room-types"@.len() != "/rooms"@.len());
    assert("/rate-plans"@.len() != "/property"@.len());
    assert("/rate-plans"@.len() != "/agents"@.len());
    assert("/rate-plans"@.len() != "/rooms"@.len());
    assert("/reservations"@.len() != "/property"@.len());
    assert("/reservations"@.len() != "/agents"@.len());
    assert("/reservations"@.len() != "/room-types"@.len());
    assert("/reservations"@.len() != "/rooms"@.len());
    assert("/reservations"@.len() != "/rate-plans"@.len());
    assert("/reservations-inhouse"@.len() != "/reservations"@.len());
    assert("/reservations-inhouse"@.len() != "/property"@.len());
    assert("/reservations-inhouse"@.len() != "/agents"@.len());
    assert("/reservations-inhouse"@.len() != "/room-types"@.len());
    assert("/reservations-inhouse"@.len() != "/rooms"@.len());
    assert("/reservations-inhouse"@.len() != "/rate-plans"@.len());
    assert("/blocks"@.len() != "/property"@.len());
    assert("/blocks"@.len() != "/room-types"@.len());
    assert("/blocks"@.len() != "/rooms"@.len());
    assert("/blocks"@.len() != "/rate-plans"@.len());
    assert("/blocks"@.len() != "/reservations"@.len());
    assert("/blocks"@.len() != "/reservations-inhouse"@.len());
    assert("/webhooks"@.len() != "/agents"@.len());
    assert("/webhooks"@.len() != "/room-types"@.len());
    assert("/webhooks"@.len() != "/rooms"@.len());
    assert("/webhooks"@.len() != "/rate-plans"@.len());
    assert("/webhooks"@.len() != "/reservations"@.len());
    assert("/webhooks"@.len() != "/reservations-inhouse"@.len());
    assert("/webhooks"@.len() != "/blocks"@.len());
}

/// The collection path of each fixture entry.
pub proof fn lemma_collection_paths()
    ensures
        collection_path("agents"@) == "/agents"@,
        collection_path("room_types"@) == "/room-types"@,
        collection_path("rooms"@) == "/rooms"@,
        collection_path("rate_plans"@) == "/rate-plans"@,
        collection_path("reservations"@) == "/reservations"@,
        collection_path("reservations_inhouse"@) == "/reservations-inhouse"@,
        collection_path("blocks"@) == "/blocks"@,
        collection_path("webhooks"@) == "/webhooks"@,
        api_collection("room_types"@) == "room-types"@,
        api_collection("rooms"@) == "rooms"@,
        api_collection("reservations"@) == "reservations"@,
        api_collection("webhooks"@) == "webhooks"@,
{
    reveal_strlit("/");
    reveal_strlit("agents");
    reveal_strlit("/agents");
    reveal_strlit("room_types");
    reveal_strlit("/room-types");
    reveal_strlit("room-types");
    reveal_strlit("rooms");
    reveal_strlit("/rooms");
    reveal_strlit("rate_plans");
    reveal_strlit("/rate-plans");
    reveal_strlit("reservations");
    reveal_strlit("/reservations");
    reveal_strlit("reservations_inhouse");
    reveal_strlit("/reservations-inhouse");
    reveal_strlit("blocks");
    reveal_strlit("/blocks");
    reveal_strlit("webhooks");
    reveal_strlit("/webhooks");
    assert(collection_path("agents"@) =~= "/agents"@);
    assert(collection_path("room_types"@) =~= "/room-types"@);
    assert(collection_path("rooms"@) =~= "/rooms"@);
    assert(collection_path("rate_plans"@) =~= "/rate-plans"@);
    assert(collection_path("reservations"@) =~= "/reservations"@);
    assert(collection_path("reservations_inhouse"@) =~= "/reservations-inhouse"@);
    assert(collection_path("blocks"@) =~= "/blocks"@);
    assert(collection_path("webhooks"@) =~= "/webhooks"@);
    assert(api_collection("room_types"@) =~= "room-types"@);
    assert(api_collection("rooms"@) =~= "rooms"@);
    assert(api_collection("reservations"@) =~= "reservations"@);
    assert(api_collection("webhooks"@) =~= "webhooks"@);
}

/// A query value, or the default when the query does not give it.
pub open spec fn or_default(v: Option<Seq<char>>, default: Seq<char>) -> Seq<char> {
    match v {
        Some(x) => x,
        None => default,
    }
}

/// Whether `r` is the fixture route of a raw read path: an inventory or a
/// rates path of one item reads that item's dated rows in the window its
/// query gives (`startDate` or `from`, `endDate` or `to`, unbounded when
/// absent); a collection path reads its entry; any other path is
/// refused with `fixture.missing`.
pub open spec fn routed(r: Result<FixtureRoute, AppError>, raw: Seq<char>) -> bool {
    let (path, query) = spec_split_raw_path(raw);
    let from = or_default(spec_query_param(query, seq!["startDate", "from"]), "0000-00-00"@);
    let to = or_default(spec_query_param(query, seq!["endDate", "to"]), "9999-99-99"@);
    match spec_scoped_path_id(path, "room-types"@, "inventory"@) {
        Some(room_type) => r matches Ok(FixtureRoute::Scoped { scoped_key, fallback_key, id, from: f, to: t })
            && scoped_key@ == "inventory_by_room_type"@ && fallback_key@ == "inventory"@ && id@ == room_type && f@
            == from && t@ == to,
        None => match spec_scoped_path_id(path, "rate-plans"@, "rates-and-restrictions"@) {
            Some(rate_plan) => r matches Ok(FixtureRoute::Scoped { scoped_key, fallback_key, id, from: f, to: t })
                && scoped_key@ == "rates_by_rate_plan"@ && fallback_key@ == "rates"@ && id@ == rate_plan && f@
                == from && t@ == to,
            None => match spec_fixture_key(path) {
                Some(key) => r matches Ok(FixtureRoute::Key(k)) && k@ == key,
                None => r matches Err(e) && is_error(e, "fixture.missing"@, "No fixture is mapped for "@ + raw),
            },
        },
    }
}

fn fixture_key(path: &str) -> (r: Option<&'static str>)
    ensures
        match r {
            Some(k) => spec_fixture_key(path@) == Some(k@),
            None => spec_fixture_key(path@) is None,
        },
{
    if str_eq(path, "/property") {
        Some("account")
    } else if str_eq(path, "/agents") {
        Some("agents")
    } else if str_eq(path, "/room-types") {
        Some("room_types")
    } else if str_eq(path, "/rooms") {
        Some("rooms")
    } else if str_eq(path, "/rate-plans") {
        Some("rate_plans")
    } else if str_eq(path, "/reservations") {
        Some("reservations")
    } else if str_eq(path, "/reservations-inhouse") {
        Some("reservations_inhouse")
    } else if str_eq(path, "/blocks") {
        Some("blocks")
    } else if str_eq(path, "/webhooks") {
        Some("webhooks")
    } else {
        None
    }
}

fn window_of(query: Option<&str>) -> (r: (String, String))
    ensures
        r.0@ == or_default(spec_query_param(opt_str_view(query), seq!["startDate", "from"]), "0000-00-00"@),
        r.1@ == or_default(spec_query_param(opt_str_view(query), seq!["endDate", "to"]), "9999-99-99"@),
{
    let start_names: [&str; 2] = ["startDate", "from"];
    let end_names: [&str; 2] = ["endDate", "to"];
    assert(start_names@ == seq!["startDate", "from"]);
    assert(end_names@ == seq!["endDate", "to"]);
    let from = match query_param(query, &start_names) {
        Some(f) => f,
        None => String::from_str("0000-00-00"),
    };
    let to = match query_param(query, &end_names) {
        Some(t) => t,
        None => String::from_str("9999-99-99"),
    };
    (from, to)
}

/// The view of an optional text slice.
pub open spec fn opt_str_view(o: Option<&str>) -> Option<Seq<char>> {
    match o {
        Some(s) => Some(s@),
        None => None,
    }
}

/// Where fixture mode answers a raw read from.
pub fn fixture_route(raw_path: &str) -> (r: Result<FixtureRoute, AppError>)
    ensures
        routed(r, raw_path@),
{
    let (path, query) = split_raw_path(raw_path);
    let q = match &query {
        Some(q) => Some(q.as_str()),
        None => None,
    };
    let (from, to) = window_of(q);
    match scoped_path_id(path.as_str(), "room-types", "inventory") {
        Some(room_type) => {
            return Ok(FixtureRoute::Scoped {
                scoped_key: "inventory_by_room_type",
                fallback_key: "inventory",
                id: room_type,
                from,
                to,
            });
        },
        None => {},
    }
    match scoped_path_id(path.as_str(), "rate-plans", "rates-and-restrictions") {
        Some(rate_plan) => {
            return Ok(FixtureRoute::Scoped {
                scoped_key: "rates_by_rate_plan",
                fallback_key: "rates",
                id: rate_plan,
                from,
                to,
            });
        },
        None => {},
    }
    match fixture_key(path.as_str()) {
        Some(k) => Ok(FixtureRoute::Key(k)),
        None => {
            let m = concat("No fixture is mapped for ", raw_path);
            Err(AppError::new("fixture.missing", m.as_str()))
        },
    }
}

} // verus!
