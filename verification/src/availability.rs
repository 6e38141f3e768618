use vstd::prelude::*;
use crate::commands::{CommandOutput, date_shaped, validate_date};
use crate::error::{AppError, is_error};
use crate::json::{
    Json, JsonNumber, JsonValue, entries_model, get_bool, get_i64, get_str, get_u64, items_model,
    json_str, json_u64, is_key_at, lemma_items_model, lemma_items_model_push, lemma_lookup_at, push_entry,
};
use crate::redact::clone_json;
use crate::text::{
    decimal, decimal_chars, string_of,
    lemma_text_lt_total, lemma_text_lt_transitive,
    str_eq, str_le, str_lt, text_le, text_lt,
};

verus! {

/// Why a quote request is refused before anything is read, or none.
pub open spec fn spec_quote_refusal(guests: u64, from: Seq<char>, to: Seq<char>) -> Option<(Seq<char>, Seq<char>)> {
    if guests == 0 {
        Some(("input.invalid"@, "--guests must be greater than zero"@))
    } else if !date_shaped(from) {
        Some(("date.invalid"@, "--from"@ + " must be formatted as YYYY-MM-DD"@))
    } else if !date_shaped(to) {
        Some(("date.invalid"@, "--to"@ + " must be formatted as YYYY-MM-DD"@))
    } else if text_le(to, from) {
        Some(("date.invalid"@, "--to must be later than --from for availability quotes"@))
    } else {
        None
    }
}

/// Checks a quote request: at least one guest, two dates `YYYY-MM-DD`, and
/// a departure after the arrival.
pub fn validate_quote(guests: u64, from: &str, to: &str) -> (r: Result<(), AppError>)
    ensures
        match spec_quote_refusal(guests, from@, to@) {
            Some((code, message)) => r matches Err(e) && is_error(e, code, message),
            None => r is Ok,
        },
{
    if guests == 0 {
        return Err(AppError::new("input.invalid", "--guests must be greater than zero"));
    }
    validate_date(from, "--from")?;
    validate_date(to, "--to")?;
    if str_le(to, from) {
        return Err(AppError::new("date.invalid", "--to must be later than --from for availability quotes"));
    }
    Ok(())
}

/// What becomes of one room type in a quote.
pub enum Screen {
    /// It sleeps fewer than the guests; such room types are counted.
    TooSmall,
    /// It is marked inactive.
    Inactive,
    /// It has no text `roomTypeId`.
    NoId,
    /// It is quoted: its identifier, its capacity, and the index of its rate
    /// plan among the rate plans, if it has one.
    Candidate { room_type_id: String, max_occupancy: u64, plan: Option<usize> },
}

/// The capacity of a room type; zero when it states none.
pub open spec fn max_occupancy(room_type: Json) -> u64 {
    match get_u64(room_type, "maxOccupancy"@) {
        Some(n) => n,
        None => 0,
    }
}

/// Whether a rate plan belongs to the room type `id` and has an identifier.
pub open spec fn plan_fits(plan: Json, id: Seq<char>) -> bool {
    get_str(plan, "roomTypeId"@) == Some(id) && get_str(plan, "ratePlanId"@) is Some
}

/// Whether `i` is the first rate plan that fits the room type `id`.
pub open spec fn is_first_plan(plans: Seq<Json>, id: Seq<char>, i: int) -> bool {
    0 <= i < plans.len() && plan_fits(plans[i], id) && forall|j: int| 0 <= j < i ==> !plan_fits(plans[j], id)
}

/// Whether `s` is what the quote makes of the room type.
pub open spec fn screened(s: Screen, room_type: Json, plans: Seq<Json>, guests: u64) -> bool {
    if max_occupancy(room_type) < guests {
        s is TooSmall
    } else if get_bool(room_type, "active"@) == Some(false) {
        s is Inactive
    } else {
        match get_str(room_type, "roomTypeId"@) {
            None => s is NoId,
            Some(id) => match s {
                Screen::Candidate { room_type_id, max_occupancy: m, plan } => {
                    &&& room_type_id@ == id
                    &&& m == max_occupancy(room_type)
                    &&& match plan {
                        Some(i) => is_first_plan(plans, id, i as int),
                        None => forall|j: int| 0 <= j < plans.len() ==> !plan_fits(plans[j], id),
                    }
                },
                _ => false,
            },
        }
    }
}

fn fits(plan: &JsonValue, id: &str) -> (r: bool)
    ensures
        r == plan_fits(plan@, id@),
{
    let same_room = match plan.get("roomTypeId") {
        Some(v) => match v.as_str() {
            Some(s) => crate::text::str_eq(s, id),
            None => false,
        },
        None => false,
    };
    let has_plan = match plan.get("ratePlanId") {
        Some(v) => v.as_str().is_some(),
        None => false,
    };
    same_room && has_plan
}

/// Decides whether a room type is quoted for `guests`, and finds its rate plan.
#[verifier::loop_isolation(false)]
pub fn screen_room_type(room_type: &JsonValue, rate_plans: &Vec<JsonValue>, guests: u64) -> (r: Screen)
    ensures
        screened(r, room_type@, items_model(rate_plans@), guests),
{
    let max = match room_type.get("maxOccupancy") {
        Some(v) => match v.as_u64() {
            Some(n) => n,
            None => 0,
        },
        None => 0,
    };
    if max < guests {
        return Screen::TooSmall;
    }
    match room_type.get("active") {
        Some(v) => if v.as_bool() == Some(false) {
            return Screen::Inactive;
        },
        None => {},
    }
    let id = match room_type.get("roomTypeId") {
        Some(v) => match v.as_str() {
            Some(s) => s,
            None => {
                return Screen::NoId;
            },
        },
        None => {
            return Screen::NoId;
        },
    };
    let ghost m = items_model(rate_plans@);
    proof {
        lemma_items_model(rate_plans@);
    }
    let mut i: usize = 0;
    while i < rate_plans.len()
        invariant
            i <= rate_plans@.len(),
            m == items_model(rate_plans@),
            m.len() == rate_plans@.len(),
            forall|j: int| 0 <= j < rate_plans@.len() ==> #[trigger] m[j] == rate_plans@[j]@,
            forall|j: int| 0 <= j < i ==> !plan_fits(m[j], id@),
        decreases rate_plans@.len() - i,
    {
        if fits(&rate_plans[i], id) {
            return Screen::Candidate { room_type_id: String::from_str(id), max_occupancy: max, plan: Some(i) };
        }
        i = i + 1;
    }
    Screen::Candidate { room_type_id: String::from_str(id), max_occupancy: max, plan: None }
}

/// Whether a room type is quoted for `guests`: it sleeps them, it is not
/// marked inactive, and it has a text identifier.
pub open spec fn quoted(room_type: Json, guests: u64) -> bool {
    max_occupancy(room_type) >= guests && get_bool(room_type, "active"@) != Some(false) && get_str(
        room_type,
        "roomTypeId"@,
    ) is Some
}

/// How many room types sleep fewer than the guests.
pub open spec fn too_small_count(room_types: Seq<Json>, guests: u64) -> nat
    decreases room_types.len(),
{
    if room_types.len() == 0 {
        0
    } else {
        too_small_count(room_types.drop_last(), guests) + if max_occupancy(room_types.last()) < guests {
            1nat
        } else {
            0nat
        }
    }
}

/// A room type that is quoted: its position among the room types, its
/// identifier and capacity, and the position of its rate plan, if any.
pub struct QuoteCandidate {
    pub room_type: usize,
    pub room_type_id: String,
    pub max_occupancy: u64,
    pub plan: Option<usize>,
}

/// How a candidate was screened.
pub open spec fn candidate_screen(c: QuoteCandidate) -> Screen {
    Screen::Candidate { room_type_id: c.room_type_id, max_occupancy: c.max_occupancy, plan: c.plan }
}

/// Whether the room type at position `i` is among the candidates.
pub open spec fn has_candidate(cs: Seq<QuoteCandidate>, i: int) -> bool {
    exists|k: int| 0 <= k < cs.len() && cs[k].room_type == i
}

/// Screens the room types of a quote (see `screen_room_type`): the quoted
/// ones in their order, and how many were too small for the guests.
pub fn quote_candidates(room_types: &Vec<JsonValue>, rate_plans: &Vec<JsonValue>, guests: u64) -> (r: (
    Vec<QuoteCandidate>,
    u64,
))
    ensures
        r.1 == too_small_count(items_model(room_types@), guests),
        forall|k: int|
            0 <= k < r.0@.len() ==> (#[trigger] r.0@[k]).room_type < room_types@.len() && quoted(
                items_model(room_types@)[r.0@[k].room_type as int],
                guests,
            ) && screened(
                candidate_screen(r.0@[k]),
                items_model(room_types@)[r.0@[k].room_type as int],
                items_model(rate_plans@),
                guests,
            ),
        forall|a: int, b: int| 0 <= a < b < r.0@.len() ==> (#[trigger] r.0@[a]).room_type < (#[trigger] r.0@[b]).room_type,
        forall|i: int|
            0 <= i < room_types@.len() && quoted(#[trigger] items_model(room_types@)[i], guests) ==> has_candidate(
                r.0@,
                i,
            ),
{
    let ghost m = items_model(room_types@);
    proof {
        lemma_items_model(room_types@);
        assert(m.take(0) =~= Seq::<Json>::empty());
    }
    let mut out: Vec<QuoteCandidate> = Vec::new();
    let mut skipped: u64 = 0;
    let mut i: usize = 0;
    while i < room_types.len()
        invariant
            i <= room_types@.len(),
            m == items_model(room_types@),
            m.len() == room_types@.len(),
            forall|j: int| 0 <= j < room_types@.len() ==> #[trigger] m[j] == room_types@[j]@,
            skipped == too_small_count(m.take(i as int), guests),
            skipped <= i,
            forall|k: int|
                0 <= k < out@.len() ==> (#[trigger] out@[k]).room_type < i && quoted(m[out@[k].room_type as int], guests)
                    && screened(candidate_screen(out@[k]), m[out@[k].room_type as int], items_model(rate_plans@), guests),
            forall|a: int, b: int| 0 <= a < b < out@.len() ==> (#[trigger] out@[a]).room_type < (#[trigger] out@[b]).room_type,
            forall|j: int| 0 <= j < i && quoted(#[trigger] m[j], guests) ==> has_candidate(out@, j),
        decreases room_types@.len() - i,
    {
        proof {
            assert(m.take(i + 1).drop_last() =~= m.take(i as int));
            assert(m.take(i + 1).last() == m[i as int]);
        }
        let screen = screen_room_type(&room_types[i], rate_plans, guests);
        let ghost old_out = out@;
        match screen {
            Screen::TooSmall => {
                skipped = skipped + 1;
            },
            Screen::Candidate { room_type_id, max_occupancy, plan } => {
                out.push(QuoteCandidate { room_type: i, room_type_id, max_occupancy, plan });
                proof {
                    assert(out@[old_out.len() as int].room_type == i);
                    assert forall|j: int| 0 <= j < i + 1 && quoted(#[trigger] m[j], guests) implies has_candidate(out@, j) by {
                        if j < i {
                            let k = choose|k: int| 0 <= k < old_out.len() && old_out[k].room_type == j;
                            assert(out@[k] == old_out[k]);
                        } else {
                            assert(out@[old_out.len() as int].room_type == j);
                        }
                    }
                }
            },
            _ => {},
        }
        proof {
            if !(screen is Candidate) {
                assert(out@ == old_out);
                assert(!quoted(m[i as int], guests));
            }
        }
        i = i + 1;
    }
    assert(m.take(room_types@.len() as int) =~= m);
    (out, skipped)
}

/// Whether a row dates a night of the stay: its `date` is a text in `[from, to)`.
pub open spec fn night_of_stay(row: Json, from: Seq<char>, to: Seq<char>) -> bool {
    match get_str(row, "date"@) {
        Some(d) => text_le(from, d) && text_lt(d, to),
        None => false,
    }
}

/// The rows that date nights of the stay, in order.
pub open spec fn stay_rows_of(rows: Seq<Json>, from: Seq<char>, to: Seq<char>) -> Seq<Json>
    decreases rows.len(),
{
    if rows.len() == 0 {
        Seq::empty()
    } else if night_of_stay(rows.last(), from, to) {
        stay_rows_of(rows.drop_last(), from, to).push(rows.last())
    } else {
        stay_rows_of(rows.drop_last(), from, to)
    }
}

fn is_night_of_stay(row: &JsonValue, from: &str, to: &str) -> (r: bool)
    ensures
        r == night_of_stay(row@, from@, to@),
{
    match row.get("date") {
        Some(d) => match d.as_str() {
            Some(date) => str_le(from, date) && str_lt(date, to),
            None => false,
        },
        None => false,
    }
}

/// The rows of `rows` that date nights of the stay `[from, to)`.
pub fn stay_rows(rows: &Vec<JsonValue>, from: &str, to: &str) -> (r: Vec<JsonValue>)
    ensures
        items_model(r@) == stay_rows_of(items_model(rows@), from@, to@),
{
    let mut out: Vec<JsonValue> = Vec::new();
    let mut i: usize = 0;
    proof {
        lemma_items_model(rows@);
        assert(rows@.take(0) =~= Seq::<JsonValue>::empty());
    }
    while i < rows.len()
        invariant
            i <= rows@.len(),
            items_model(rows@).len() == rows@.len(),
            forall|j: int| 0 <= j < rows@.len() ==> #[trigger] items_model(rows@)[j] == rows@[j]@,
            items_model(out@) == stay_rows_of(items_model(rows@.take(i as int)), from@, to@),
        decreases rows@.len() - i,
    {
        proof {
            let t = rows@.take(i + 1);
            assert(t =~= rows@.take(i as int).push(rows@[i as int]));
            lemma_items_model_push(rows@.take(i as int), rows@[i as int]);
            assert(items_model(t).drop_last() =~= items_model(rows@.take(i as int)));
        }
        if is_night_of_stay(&rows[i], from, to) {
            let x = clone_json(&rows[i]);
            proof {
                lemma_items_model_push(out@, x);
            }
            out.push(x);
        }
        i = i + 1;
    }
    assert(rows@.take(rows@.len() as int) =~= rows@);
    out
}

/// The fewest rooms free on a night of the stay, over the rows that state
/// an integer `available`; zero when none does.
pub open spec fn min_available(rows: Seq<Json>) -> i64
    decreases rows.len(),
{
    if rows.len() == 0 {
        0
    } else {
        match get_i64(rows.last(), "available"@) {
            Some(a) => if rows_with_available(rows.drop_last()) && min_available(rows.drop_last()) <= a {
                min_available(rows.drop_last())
            } else {
                a
            },
            None => min_available(rows.drop_last()),
        }
    }
}

/// Whether some row states an integer `available`.
pub open spec fn rows_with_available(rows: Seq<Json>) -> bool {
    exists|i: int| 0 <= i < rows.len() && get_i64(rows[i], "available"@) is Some
}

/// Whether stop-sell is on for some night.
pub open spec fn any_stop_sell(rows: Seq<Json>) -> bool {
    exists|i: int| 0 <= i < rows.len() && get_bool(rows[i], "stopSell"@) == Some(true)
}

/// What the rows of a stay say of a room type.
pub struct NightFacts {
    pub min_available: i64,
    pub stop_sell: bool,
    pub available: bool,
    pub nights_checked: usize,
    pub reasons: Vec<&'static str>,
}

/// The reasons a room type is not offered, in the order they are given.
pub open spec fn spec_reasons(inventory_empty: bool, min_avail: i64, stop_sell: bool, has_plan: bool) -> Seq<Seq<char>> {
    (if inventory_empty { seq!["No inventory rows returned for the stay dates"@] } else { Seq::empty() })
        + (if min_avail <= 0 { seq!["No rooms available on at least one night"@] } else { Seq::empty() })
        + (if stop_sell { seq!["Stop-sell is active on at least one night"@] } else { Seq::empty() })
        + (if !has_plan { seq!["No rate plan found for this room type"@] } else { Seq::empty() })
}

/// Whether `f` is what the stay's inventory and rate rows say.
pub open spec fn facts_of(f: NightFacts, inventory: Seq<Json>, rates: Seq<Json>, has_plan: bool) -> bool {
    &&& f.min_available == min_available(inventory)
    &&& f.stop_sell == any_stop_sell(rates)
    &&& f.available == (min_available(inventory) > 0 && !any_stop_sell(rates) && inventory.len() > 0)
    &&& f.nights_checked == (if inventory.len() >= rates.len() { inventory.len() } else { rates.len() })
    &&& f.reasons@.map_values(|s: &'static str| s@) == spec_reasons(
        inventory.len() == 0,
        min_available(inventory),
        any_stop_sell(rates),
        has_plan,
    )
}

/// Reads the nights of a stay: the fewest rooms free, stop-sell, whether the
/// room type can be offered, how many nights were checked, and why not.
pub fn night_facts(stay_inventory: &Vec<JsonValue>, stay_rates: &Vec<JsonValue>, has_plan: bool) -> (r: NightFacts)
    ensures
        facts_of(r, items_model(stay_inventory@), items_model(stay_rates@), has_plan),
{
    let ghost inv = items_model(stay_inventory@);
    let ghost rates = items_model(stay_rates@);
    proof {
        lemma_items_model(stay_inventory@);
        lemma_items_model(stay_rates@);
        assert(inv.take(0) =~= Seq::<Json>::empty());
    }
    let mut min: i64 = 0;
    let mut seen = false;
    let mut i: usize = 0;
    while i < stay_inventory.len()
        invariant
            i <= stay_inventory@.len(),
            inv == items_model(stay_inventory@),
            inv.len() == stay_inventory@.len(),
            forall|j: int| 0 <= j < stay_inventory@.len() ==> #[trigger] inv[j] == stay_inventory@[j]@,
            min == min_available(inv.take(i as int)),
            seen == rows_with_available(inv.take(i as int)),
        decreases stay_inventory@.len() - i,
    {
        let ghost t = inv.take(i + 1);
        proof {
            assert(t.drop_last() =~= inv.take(i as int));
            assert(t.last() == inv[i as int]);
        }
        match stay_inventory[i].get("available") {
            Some(v) => match v.as_i64() {
                Some(a) => {
                    if !seen || a < min {
                        min = a;
                    }
                    seen = true;
                    proof {
                        assert(rows_with_available(t)) by {
                            assert(get_i64(t[i as int], "available"@) is Some);
                        }
                    }
                },
                None => {
                    proof {
                        assert(rows_with_available(t) == rows_with_available(inv.take(i as int))) by {
                            if rows_with_available(t) {
                                let k = choose|k: int| 0 <= k < t.len() && get_i64(t[k], "available"@) is Some;
                                assert(k < i);
                                assert(t[k] == inv.take(i as int)[k]);
                            }
                            if rows_with_available(inv.take(i as int)) {
                                let k = choose|k: int| 0 <= k < i && get_i64(inv.take(i as int)[k], "available"@) is Some;
                                assert(t[k] == inv.take(i as int)[k]);
                            }
                        }
                    }
                },
            },
            None => {
                proof {
                    assert(rows_with_available(t) == rows_with_available(inv.take(i as int))) by {
                        if rows_with_available(t) {
                            let k = choose|k: int| 0 <= k < t.len() && get_i64(t[k], "available"@) is Some;
                            assert(k < i);
                            assert(t[k] == inv.take(i as int)[k]);
                        }
                        if rows_with_available(inv.take(i as int)) {
                            let k = choose|k: int| 0 <= k < i && get_i64(inv.take(i as int)[k], "available"@) is Some;
                            assert(t[k] == inv.take(i as int)[k]);
                        }
                    }
                }
            },
        }
        i = i + 1;
    }
    assert(inv.take(inv.len() as int) =~= inv);
    let mut stop = false;
    let mut k: usize = 0;
    while k < stay_rates.len()
        invariant
            k <= stay_rates@.len(),
            rates == items_model(stay_rates@),
            rates.len() == stay_rates@.len(),
            forall|j: int| 0 <= j < stay_rates@.len() ==> #[trigger] rates[j] == stay_rates@[j]@,
            stop == exists|j: int| 0 <= j < k && get_bool(rates[j], "stopSell"@) == Some(true),
        decreases stay_rates@.len() - k,
    {
        let flag = match stay_rates[k].get("stopSell") {
            Some(v) => v.as_bool() == Some(true),
            None => false,
        };
        assert(flag == (get_bool(rates[k as int], "stopSell"@) == Some(true)));
        let ghost old_stop = stop;
        if flag {
            stop = true;
        }
        proof {
            if flag {
                assert(0 <= k < k + 1 && get_bool(rates[k as int], "stopSell"@) == Some(true));
            } else {
                assert forall|j: int| 0 <= j < k + 1 && get_bool(rates[j], "stopSell"@) == Some(true) implies 0 <= j < k
                    && get_bool(rates[j], "stopSell"@) == Some(true) by {
                    if j == k {
                        assert(false);
                    }
                }
            }
        }
        k = k + 1;
    }
    let empty = stay_inventory.len() == 0;
    let available = min > 0 && !stop && !empty;
    let nights = if stay_inventory.len() >= stay_rates.len() {
        stay_inventory.len()
    } else {
        stay_rates.len()
    };
    let mut reasons: Vec<&'static str> = Vec::new();
    if empty {
        reasons.push("No inventory rows returned for the stay dates");
    }
    if min <= 0 {
        reasons.push("No rooms available on at least one night");
    }
    if stop {
        reasons.push("Stop-sell is active on at least one night");
    }
    if !has_plan {
        reasons.push("No rate plan found for this room type");
    }
    assert(reasons@.map_values(|s: &'static str| s@) =~= spec_reasons(empty, min, stop, has_plan));
    NightFacts { min_available: min, stop_sell: stop, available, nights_checked: nights, reasons }
}


/// The sort key of a quoted option: whether it is available, the rank of
/// its estimated total among all options, and its room type name.
pub open spec fn option_key(options: Seq<Json>, ranks: Seq<u64>, i: int) -> (bool, u64, Seq<char>) {
    (
        get_bool(options[i], "available"@) == Some(true),
        ranks[i],
        match get_str(options[i], "roomTypeName"@) {
            Some(n) => n,
            None => Seq::empty(),
        },
    )
}

/// Whether key `a` sorts before key `b`: available first, then the lower
/// total, then the room type name.
pub open spec fn key_lt(a: (bool, u64, Seq<char>), b: (bool, u64, Seq<char>)) -> bool {
    (a.0 && !b.0) || (a.0 == b.0 && (a.1 < b.1 || (a.1 == b.1 && text_lt(a.2, b.2))))
}

/// Whether option `x` is listed before option `y`: by key, and by the
/// order they were found in when their keys are equal.
pub open spec fn listed_before(options: Seq<Json>, ranks: Seq<u64>, x: int, y: int) -> bool {
    key_lt(option_key(options, ranks, x), option_key(options, ranks, y)) || (option_key(options, ranks, x)
        == option_key(options, ranks, y) && x < y)
}

proof fn lemma_key_lt_transitive(a: (bool, u64, Seq<char>), b: (bool, u64, Seq<char>), c: (bool, u64, Seq<char>))
    requires
        key_lt(a, b),
        key_lt(b, c),
    ensures
        key_lt(a, c),
{
    if a.0 == b.0 && b.0 == c.0 && a.1 == b.1 && b.1 == c.1 {
        lemma_text_lt_transitive(a.2, b.2, c.2);
    }
}

proof fn lemma_key_lt_total(a: (bool, u64, Seq<char>), b: (bool, u64, Seq<char>))
    requires
        a != b,
    ensures
        key_lt(a, b) || key_lt(b, a),
{
    if a.0 == b.0 && a.1 == b.1 {
        if a.2 == b.2 {
            assert(a == b);
        }
        lemma_text_lt_total(a.2, b.2);
    }
}

proof fn lemma_listed_before_transitive(options: Seq<Json>, ranks: Seq<u64>, x: int, y: int, z: int)
    requires
        listed_before(options, ranks, x, y),
        listed_before(options, ranks, y, z),
    ensures
        listed_before(options, ranks, x, z),
{
    let kx = option_key(options, ranks, x);
    let ky = option_key(options, ranks, y);
    let kz = option_key(options, ranks, z);
    if key_lt(kx, ky) && key_lt(ky, kz) {
        lemma_key_lt_transitive(kx, ky, kz);
    }
}

proof fn lemma_not_listed_before(options: Seq<Json>, ranks: Seq<u64>, x: int, y: int)
    requires
        x != y,
        !listed_before(options, ranks, x, y),
    ensures
        listed_before(options, ranks, y, x),
{
    let kx = option_key(options, ranks, x);
    let ky = option_key(options, ranks, y);
    if kx != ky {
        lemma_key_lt_total(kx, ky);
    }
}

fn option_available(option: &JsonValue) -> (r: bool)
    ensures
        r == (get_bool(option@, "available"@) == Some(true)),
{
    match option.get("available") {
        Some(v) => v.as_bool() == Some(true),
        None => false,
    }
}

fn option_name(option: &JsonValue) -> (r: &str)
    ensures
        r@ == match get_str(option@, "roomTypeName"@) {
            Some(n) => n,
            None => Seq::empty(),
        },
{
    proof {
        reveal_strlit("");
    }
    match option.get("roomTypeName") {
        Some(v) => match v.as_str() {
            Some(n) => n,
            None => "",
        },
        None => "",
    }
}

fn listed_before_exec(options: &Vec<JsonValue>, ranks: &Vec<u64>, x: usize, y: usize) -> (r: bool)
    requires
        x < options@.len(),
        y < options@.len(),
        ranks@.len() == options@.len(),
    ensures
        r == listed_before(items_model(options@), ranks@, x as int, y as int),
{
    proof {
        lemma_items_model(options@);
        reveal_strlit("");
    }
    let ax = option_available(&options[x]);
    let ay = option_available(&options[y]);
    let nx = option_name(&options[x]);
    let ny = option_name(&options[y]);
    let rx = ranks[x];
    let ry = ranks[y];
    let lt = (ax && !ay) || (ax == ay && (rx < ry || (rx == ry && str_lt(nx, ny))));
    let same = ax == ay && rx == ry && str_eq(nx, ny);
    lt || (same && x < y)
}

/// Whether index `x` occurs in `p`.
pub open spec fn lists(p: Seq<usize>, x: int) -> bool {
    exists|k: int| 0 <= k < p.len() && p[k] == x
}

/// The order in which quoted options are listed: a stable sort of their
/// indices, available options first, then by the rank of their estimated
/// total (`ranks`, lower first), then by room type name.
pub fn quote_order(options: &Vec<JsonValue>, ranks: &Vec<u64>) -> (r: Vec<usize>)
    requires
        ranks@.len() == options@.len(),
    ensures
        r@.len() == options@.len(),
        forall|k: int| 0 <= k < r@.len() ==> (#[trigger] r@[k]) < options@.len(),
        forall|x: int| 0 <= x < options@.len() ==> #[trigger] lists(r@, x),
        forall|a: int, b: int|
            0 <= a < b < r@.len() ==> listed_before(items_model(options@), ranks@, #[trigger] r@[a] as int, #[trigger] r@[b] as int),
{
    let ghost m = items_model(options@);
    let mut p: Vec<usize> = Vec::new();
    let mut i: usize = 0;
    while i < options.len()
        invariant
            i <= options@.len(),
            ranks@.len() == options@.len(),
            m == items_model(options@),
            p@.len() == i,
            forall|k: int| 0 <= k < p@.len() ==> (#[trigger] p@[k]) < i,
            forall|x: int| 0 <= x < i ==> #[trigger] lists(p@, x),
            forall|a: int, b: int|
                0 <= a < b < p@.len() ==> listed_before(m, ranks@, #[trigger] p@[a] as int, #[trigger] p@[b] as int),
        decreases options@.len() - i,
    {
        let mut pos: usize = 0;
        while pos < p.len() && !listed_before_exec(options, ranks, i, p[pos])
            invariant
                pos <= p@.len(),
                i < options@.len(),
                ranks@.len() == options@.len(),
                m == items_model(options@),
                forall|k: int| 0 <= k < p@.len() ==> (#[trigger] p@[k]) < i,
                forall|q: int| 0 <= q < pos ==> !listed_before(m, ranks@, i as int, #[trigger] p@[q] as int),
            decreases p@.len() - pos,
        {
            pos = pos + 1;
        }
        let ghost old_p = p@;
        proof {
            assert forall|q: int| 0 <= q < pos implies listed_before(m, ranks@, #[trigger] old_p[q] as int, i as int) by {
                assert(old_p[q] < i);
                lemma_not_listed_before(m, ranks@, i as int, old_p[q] as int);
            }
            if pos < old_p.len() {
                assert forall|q: int| pos <= q < old_p.len() implies listed_before(m, ranks@, i as int, #[trigger] old_p[q] as int) by {
                    if q > pos {
                        lemma_listed_before_transitive(m, ranks@, i as int, old_p[pos as int] as int, old_p[q] as int);
                    }
                }
            }
        }
        p.insert(pos, i);
        proof {
            assert(p@ == old_p.insert(pos as int, i));
            assert forall|a: int, b: int| 0 <= a < b < p@.len() implies listed_before(m, ranks@, #[trigger] p@[a] as int, #[trigger] p@[b] as int) by {
                if a < pos && b < pos {
                    assert(p@[a] == old_p[a] && p@[b] == old_p[b]);
                } else if a < pos && b == pos {
                    assert(p@[a] == old_p[a]);
                } else if a < pos {
                    assert(p@[a] == old_p[a] && p@[b] == old_p[b - 1]);
                } else if a == pos {
                    assert(p@[b] == old_p[b - 1]);
                } else {
                    assert(p@[a] == old_p[a - 1] && p@[b] == old_p[b - 1]);
                }
            }
            assert forall|x: int| 0 <= x < i + 1 implies #[trigger] lists(p@, x) by {
                if x == i {
                    assert(p@[pos as int] == x);
                } else {
                    assert(lists(old_p, x));
                    let k = choose|k: int| 0 <= k < old_p.len() && old_p[k] == x;
                    if k < pos {
                        assert(p@[k] == x);
                    } else {
                        assert(p@[k + 1] == x);
                    }
                }
            }
            assert forall|k: int| 0 <= k < p@.len() implies (#[trigger] p@[k]) < i + 1 by {
                if k < pos {
                    assert(p@[k] == old_p[k]);
                } else if k > pos {
                    assert(p@[k] == old_p[k - 1]);
                }
            }
        }
        i = i + 1;
    }
    p
}


/// The JSON of one quoted room type.
pub open spec fn spec_option(
    room_type: Json,
    id: Seq<char>,
    max: u64,
    plan: Option<Json>,
    available: bool,
    min_avail: i64,
    nights: usize,
    reasons: Seq<Seq<char>>,
    lowest: Json,
    total: Json,
    rates_empty: bool,
) -> Json {
    Json::Object(
        seq![
            ("roomTypeId"@, Json::Str(id)),
            ("roomTypeName"@, Json::Str(match get_str(room_type, "roomTypeName"@) {
                Some(n) => n,
                None => id,
            })),
            ("maxOccupancy"@, Json::Number(JsonNumber::PosInt(max))),
            ("ratePlanId"@, match plan {
                Some(p) => match get_str(p, "ratePlanId"@) {
                    Some(pid) => Json::Str(pid),
                    None => Json::Null,
                },
                None => Json::Null,
            }),
            ("currency"@, Json::Str(match plan {
                Some(p) => match get_str(p, "currency"@) {
                    Some(c) => c,
                    None => "AUD"@,
                },
                None => "AUD"@,
            })),
            ("available"@, Json::Bool(available)),
            ("minAvailable"@, Json::Number(JsonNumber::PosInt(if min_avail > 0 { min_avail as u64 } else { 0 }))),
            ("nightsChecked"@, Json::Number(JsonNumber::PosInt(nights as u64))),
            ("lowestNightlyRate"@, lowest),
            ("estimatedTotal"@, if rates_empty { Json::Null } else { total }),
            ("reasons"@, Json::Array(reasons.map_values(|r: Seq<char>| Json::Str(r)))),
        ],
    )
}

fn str_member<'a>(v: &'a JsonValue, key: &str) -> (r: Option<&'a str>)
    ensures
        match r {
            Some(s) => get_str(v@, key@) == Some(s@),
            None => get_str(v@, key@) is None,
        },
{
    match v.get(key) {
        Some(x) => x.as_str(),
        None => None,
    }
}

/// The JSON of a quoted room type: its identity and capacity, its rate
/// plan and currency (`AUD` when the plan states none), whether it is
/// available, the fewest rooms free (never below zero), the nights checked,
/// the lowest nightly rate and the estimated total as they were worked out
/// (no total when no rate rows were found), and the reasons it is not offered.
pub fn quote_option(
    room_type: &JsonValue,
    room_type_id: &str,
    max_occupancy: u64,
    plan: Option<&JsonValue>,
    facts: &NightFacts,
    lowest: JsonValue,
    total: JsonValue,
    rates_empty: bool,
) -> (r: JsonValue)
    ensures
        r@ == spec_option(
            room_type@,
            room_type_id@,
            max_occupancy,
            match plan {
                Some(p) => Some(p@),
                None => None,
            },
            facts.available,
            facts.min_available,
            facts.nights_checked,
            facts.reasons@.map_values(|s: &'static str| s@),
            lowest@,
            total@,
            rates_empty,
        ),
{
    let mut e: Vec<(String, JsonValue)> = Vec::new();
    push_entry(&mut e, "roomTypeId", json_str(room_type_id));
    let name = match str_member(room_type, "roomTypeName") {
        Some(n) => n,
        None => room_type_id,
    };
    push_entry(&mut e, "roomTypeName", json_str(name));
    push_entry(&mut e, "maxOccupancy", json_u64(max_occupancy));
    let plan_id = match plan {
        Some(p) => match str_member(p, "ratePlanId") {
            Some(pid) => json_str(pid),
            None => JsonValue::Null,
        },
        None => JsonValue::Null,
    };
    push_entry(&mut e, "ratePlanId", plan_id);
    let currency = match plan {
        Some(p) => match str_member(p, "currency") {
            Some(c) => c,
            None => "AUD",
        },
        None => "AUD",
    };
    push_entry(&mut e, "currency", json_str(currency));
    push_entry(&mut e, "available", JsonValue::Bool(facts.available));
    let min = if facts.min_available > 0 { facts.min_available as u64 } else { 0 };
    push_entry(&mut e, "minAvailable", json_u64(min));
    push_entry(&mut e, "nightsChecked", json_u64(facts.nights_checked as u64));
    push_entry(&mut e, "lowestNightlyRate", lowest);
    let est = if rates_empty { JsonValue::Null } else { total };
    push_entry(&mut e, "estimatedTotal", est);
    let mut reasons: Vec<JsonValue> = Vec::new();
    let mut i: usize = 0;
    while i < facts.reasons.len()
        invariant
            i <= facts.reasons@.len(),
            items_model(reasons@) == facts.reasons@.take(i as int).map_values(|s: &'static str| Json::Str(s@)),
        decreases facts.reasons@.len() - i,
    {
        let x = json_str(facts.reasons[i]);
        proof {
            lemma_items_model_push(reasons@, x);
            assert(facts.reasons@.take(i + 1).map_values(|s: &'static str| Json::Str(s@)) =~= facts.reasons@.take(
                i as int,
            ).map_values(|s: &'static str| Json::Str(s@)).push(x@));
        }
        reasons.push(x);
        i = i + 1;
    }
    proof {
        assert(facts.reasons@.take(facts.reasons@.len() as int) =~= facts.reasons@);
        assert(facts.reasons@.map_values(|s: &'static str| Json::Str(s@)) =~= facts.reasons@.map_values(
            |s: &'static str| s@,
        ).map_values(|r: Seq<char>| Json::Str(r)));
    }
    push_entry(&mut e, "reasons", JsonValue::Array(reasons));
    let ghost want = spec_option(
        room_type@,
        room_type_id@,
        max_occupancy,
        match plan {
            Some(p) => Some(p@),
            None => None,
        },
        facts.available,
        facts.min_available,
        facts.nights_checked,
        facts.reasons@.map_values(|s: &'static str| s@),
        lowest@,
        total@,
        rates_empty,
    );
    assert(Json::Object(entries_model(e@)) =~= want) by {
        assert(entries_model(e@) =~= want->Object_0);
    }
    JsonValue::Object(e)
}

/// Whether a quoted option is available.
pub open spec fn is_available(option: Json) -> bool {
    get_bool(option, "available"@) == Some(true)
}

/// How many of the options are available.
pub open spec fn count_available(options: Seq<Json>) -> nat
    decreases options.len(),
{
    if options.len() == 0 {
        0
    } else {
        count_available(options.drop_last()) + if is_available(options.last()) { 1nat } else { 0nat }
    }
}

/// The first available option, if any.
pub open spec fn first_available(options: Seq<Json>) -> Option<Json>
    decreases options.len(),
{
    if options.len() == 0 {
        None
    } else if is_available(options[0]) {
        Some(options[0])
    } else {
        first_available(options.drop_first())
    }
}

/// The options in the order `order` lists them.
pub open spec fn in_order(options: Seq<Json>, order: Seq<usize>) -> Seq<Json> {
    Seq::new(order.len(), |k: int| options[order[k] as int])
}

/// The answer to a quote: the question, how many options are available, how
/// many room types were too small, the recommended option (the first
/// available one in listing order), and the first `limit` options.
pub open spec fn spec_quote_data(
    guests: u64,
    from: Seq<char>,
    to: Seq<char>,
    skipped: u64,
    sorted: Seq<Json>,
    limit: usize,
) -> Json {
    Json::Object(
        seq![
            ("guests"@, Json::Number(JsonNumber::PosInt(guests))),
            ("from"@, Json::Str(from)),
            ("to"@, Json::Str(to)),
            ("availableOptions"@, Json::Number(JsonNumber::PosInt(count_available(sorted) as u64))),
            ("skippedForOccupancy"@, Json::Number(JsonNumber::PosInt(skipped))),
            ("recommended"@, match first_available(sorted) {
                Some(o) => o,
                None => Json::Null,
            }),
            ("options"@, Json::Array(if sorted.len() > limit { sorted.take(limit as int) } else { sorted })),
        ],
    )
}

/// The line for people that answers a quote.
pub open spec fn spec_quote_human(count: nat, guests: u64, from: Seq<char>, to: Seq<char>) -> Seq<char> {
    "Found "@ + decimal(count) + " available option(s) for "@ + decimal(guests as nat) + " guest(s) from "@ + from
        + " to "@ + to + "."@
}

/// The output of `availability quote` from its options and their listing order.
pub fn quote_output(
    guests: u64,
    from: &str,
    to: &str,
    skipped: u64,
    options: &Vec<JsonValue>,
    order: &Vec<usize>,
    limit: usize,
    source: &str,
) -> (r: CommandOutput)
    requires
        forall|k: int| 0 <= k < order@.len() ==> (#[trigger] order@[k]) < options@.len(),
    ensures
        r.command@ == "availability.quote"@,
        r.data@ == spec_quote_data(guests, from@, to@, skipped, in_order(items_model(options@), order@), limit),
        r.human@ == spec_quote_human(count_available(in_order(items_model(options@), order@)), guests, from@, to@),
        r.source@ == source@,
        r.extra@.len() == 0,
{
    let ghost m = items_model(options@);
    let ghost sorted = in_order(m, order@);
    proof {
        lemma_items_model(options@);
        assert(sorted.take(0) =~= Seq::<Json>::empty());
        assert(sorted.skip(0) =~= sorted);
    }
    let mut listed: Vec<JsonValue> = Vec::new();
    let mut count: u64 = 0;
    let mut recommended: Option<usize> = None;
    let mut k: usize = 0;
    while k < order.len()
        invariant
            k <= order@.len(),
            m == items_model(options@),
            m.len() == options@.len(),
            forall|j: int| 0 <= j < options@.len() ==> #[trigger] m[j] == options@[j]@,
            forall|j: int| 0 <= j < order@.len() ==> (#[trigger] order@[j]) < options@.len(),
            sorted == in_order(m, order@),
            count == count_available(sorted.take(k as int)),
            count <= k,
            items_model(listed@) == (if k > limit { sorted.take(limit as int) } else { sorted.take(k as int) }),
            match recommended {
                Some(idx) => idx < options@.len() && first_available(sorted) == Some(m[idx as int]),
                None => first_available(sorted) == first_available(sorted.skip(k as int)),
            },
        decreases order@.len() - k,
    {
        let o = &options[order[k]];
        let avail = option_available(o);
        proof {
            assert(sorted[k as int] == m[order@[k as int] as int]);
            assert(sorted.take(k + 1).drop_last() =~= sorted.take(k as int));
            assert(sorted.skip(k as int).drop_first() =~= sorted.skip(k + 1));
            assert(sorted.skip(k as int)[0] == sorted[k as int]);
        }
        if avail {
            count = count + 1;
            if recommended.is_none() {
                recommended = Some(order[k]);
            }
        }
        if k < limit {
            let x = clone_json(o);
            proof {
                lemma_items_model_push(listed@, x);
                assert(sorted.take(k + 1) =~= sorted.take(k as int).push(sorted[k as int]));
            }
            listed.push(x);
        }
        k = k + 1;
    }
    assert(sorted.take(order@.len() as int) =~= sorted);
    let rec = match recommended {
        Some(idx) => clone_json(&options[idx]),
        None => {
            proof {
                assert(sorted.skip(order@.len() as int).len() == 0);
            }
            JsonValue::Null
        },
    };
    let mut e: Vec<(String, JsonValue)> = Vec::new();
    push_entry(&mut e, "guests", json_u64(guests));
    push_entry(&mut e, "from", json_str(from));
    push_entry(&mut e, "to", json_str(to));
    push_entry(&mut e, "availableOptions", json_u64(count));
    push_entry(&mut e, "skippedForOccupancy", json_u64(skipped));
    push_entry(&mut e, "recommended", rec);
    push_entry(&mut e, "options", JsonValue::Array(listed));
    proof {
        let want = spec_quote_data(guests, from@, to@, skipped, sorted, limit);
        assert(entries_model(e@) =~= want->Object_0);
    }
    let count_digits = decimal_chars(count);
    let guest_digits = decimal_chars(guests);
    let mut human = String::from_str("Found ");
    human.append(string_of(count_digits.as_slice()).as_str());
    human.append(" available option(s) for ");
    human.append(string_of(guest_digits.as_slice()).as_str());
    human.append(" guest(s) from ");
    human.append(from);
    human.append(" to ");
    human.append(to);
    human.append(".");
    CommandOutput {
        command: String::from_str("availability.quote"),
        data: JsonValue::Object(e),
        human,
        source: String::from_str(source),
        extra: Vec::new(),
    }
}

/// How many options are available and which one is recommended do not
/// depend on how many options are listed.
pub proof fn law_limit_keeps_counts(
    guests: u64,
    from: Seq<char>,
    to: Seq<char>,
    skipped: u64,
    sorted: Seq<Json>,
    limit_a: usize,
    limit_b: usize,
)
    ensures
        spec_quote_data(guests, from, to, skipped, sorted, limit_a).get("availableOptions"@) == spec_quote_data(
            guests,
            from,
            to,
            skipped,
            sorted,
            limit_b,
        ).get("availableOptions"@),
        spec_quote_data(guests, from, to, skipped, sorted, limit_a).get("recommended"@) == spec_quote_data(
            guests,
            from,
            to,
            skipped,
            sorted,
            limit_b,
        ).get("recommended"@),
{
    reveal_strlit("guests");
    reveal_strlit("from");
    reveal_strlit("to");
    reveal_strlit("availableOptions");
    reveal_strlit("skippedForOccupancy");
    reveal_strlit("recommended");
    let ea = spec_quote_data(guests, from, to, skipped, sorted, limit_a)->Object_0;
    let eb = spec_quote_data(guests, from, to, skipped, sorted, limit_b)->Object_0;
    assert("guests"@.len() != "availableOptions"@.len());
    assert("from"@.len() != "availableOptions"@.len());
    assert("to"@.len() != "availableOptions"@.len());
    assert(is_key_at(ea, "availableOptions"@, 3));
    assert(is_key_at(eb, "availableOptions"@, 3));
    lemma_lookup_at(ea, "availableOptions"@, 3);
    lemma_lookup_at(eb, "availableOptions"@, 3);
    assert("guests"@.len() != "recommended"@.len());
    assert("from"@.len() != "recommended"@.len());
    assert("to"@.len() != "recommended"@.len());
    assert("availableOptions"@.len() != "recommended"@.len());
    assert("skippedForOccupancy"@.len() != "recommended"@.len());
    assert(is_key_at(ea, "recommended"@, 5));
    assert(is_key_at(eb, "recommended"@, 5));
    lemma_lookup_at(ea, "recommended"@, 5);
    lemma_lookup_at(eb, "recommended"@, 5);
}

/// In the listing order of a quote no option that is not available comes
/// before one that is.
pub proof fn law_available_listed_first(options: Seq<Json>, ranks: Seq<u64>, order: Seq<usize>, a: int, b: int)
    requires
        forall|x: int, y: int|
            0 <= x < y < order.len() ==> listed_before(options, ranks, #[trigger] order[x] as int, #[trigger] order[y] as int),
        0 <= a < b < order.len(),
        is_available(options[order[b] as int]),
    ensures
        is_available(options[order[a] as int]),
{
    assert(listed_before(options, ranks, order[a] as int, order[b] as int));
}

/// The recommended option of a quote is available, and it is listed first
/// among the available ones.
pub proof fn law_recommended_is_first_available(sorted: Seq<Json>)
    ensures
        first_available(sorted) matches Some(o) ==> is_available(o) && exists|k: int|
            0 <= k < sorted.len() && sorted[k] == o && forall|j: int| 0 <= j < k ==> !is_available(#[trigger] sorted[j]),
        first_available(sorted) is None ==> forall|j: int| 0 <= j < sorted.len() ==> !is_available(#[trigger] sorted[j]),
    decreases sorted.len(),
{
    if sorted.len() > 0 {
        let rest = sorted.drop_first();
        law_recommended_is_first_available(rest);
        if is_available(sorted[0]) {
            assert(sorted[0] == sorted[0]);
        } else {
            match first_available(rest) {
                Some(o) => {
                    let k = choose|k: int|
                        0 <= k < rest.len() && rest[k] == o && forall|j: int| 0 <= j < k ==> !is_available(#[trigger] rest[j]);
                    assert(sorted[k + 1] == o);
                    assert forall|j: int| 0 <= j < k + 1 implies !is_available(#[trigger] sorted[j]) by {
                        if j > 0 {
                            assert(sorted[j] == rest[j - 1]);
                        }
                    }
                },
                None => {
                    assert forall|j: int| 0 <= j < sorted.len() implies !is_available(#[trigger] sorted[j]) by {
                        if j > 0 {
                            assert(sorted[j] == rest[j - 1]);
                        }
                    }
                },
            }
        }
    }
}

/// The recommended option of a quote has the lowest estimated total of all
/// available options: whenever an option is available, the first available
/// option in listing order ranks no higher.
pub proof fn law_recommended_is_cheapest(options: Seq<Json>, ranks: Seq<u64>, order: Seq<usize>, x: int)
    requires
        ranks.len() == options.len(),
        forall|k: int| 0 <= k < order.len() ==> (#[trigger] order[k]) < options.len(),
        forall|y: int| 0 <= y < options.len() ==> #[trigger] lists(order, y),
        forall|a: int, b: int|
            0 <= a < b < order.len() ==> listed_before(options, ranks, #[trigger] order[a] as int, #[trigger] order[b] as int),
        0 <= x < options.len(),
        is_available(options[x]),
    ensures
        exists|k: int|
            0 <= k < order.len() && first_available(in_order(options, order)) == Some(options[order[k] as int])
                && ranks[order[k] as int] <= ranks[x],
{
    let sorted = in_order(options, order);
    assert(lists(order, x));
    let kx = choose|k: int| 0 <= k < order.len() && order[k] == x;
    assert(sorted[kx] == options[x]);
    law_recommended_is_first_available(sorted);
    match first_available(sorted) {
        Some(o) => {
            let k0 = choose|k: int|
                0 <= k < sorted.len() && sorted[k] == o && forall|j: int| 0 <= j < k ==> !is_available(#[trigger] sorted[j]);
            assert(sorted[k0] == options[order[k0] as int]);
            if k0 > kx {
                assert(!is_available(sorted[kx]));
            } else if k0 < kx {
                assert(listed_before(options, ranks, order[k0] as int, order[kx] as int));
            }
            assert(0 <= k0 < order.len() && first_available(sorted) == Some(options[order[k0] as int])
                && ranks[order[k0] as int] <= ranks[x]);
        },
        None => {
            assert(!is_available(sorted[kx]));
        },
    }
}

/// A quoted option shows what its room type and rate plan say: the room
/// type's identifier, the room type's own name when it states one (its
/// identifier only when it does not), the plan's identifier (null without
/// a plan), the plan's currency (`AUD` when none is stated), whether it is
/// available, and no total when no rate rows were found.
pub proof fn law_option_follows_its_room_type(
    room_type: Json,
    id: Seq<char>,
    max: u64,
    plan: Option<Json>,
    available: bool,
    min_avail: i64,
    nights: usize,
    reasons: Seq<Seq<char>>,
    lowest: Json,
    total: Json,
    rates_empty: bool,
)
    ensures
        ({
            let o = spec_option(room_type, id, max, plan, available, min_avail, nights, reasons, lowest, total, rates_empty);
            &&& o.get("roomTypeId"@) == Some(Json::Str(id))
            &&& (get_str(room_type, "roomTypeName"@) matches Some(n) ==> o.get("roomTypeName"@) == Some(Json::Str(n)))
            &&& (get_str(room_type, "roomTypeName"@) is None ==> o.get("roomTypeName"@) == Some(Json::Str(id)))
            &&& o.get("maxOccupancy"@) == Some(Json::Number(JsonNumber::PosInt(max)))
            &&& match plan {
                Some(p) => {
                    &&& o.get("ratePlanId"@) == Some(
                        match get_str(p, "ratePlanId"@) {
                            Some(pid) => Json::Str(pid),
                            None => Json::Null,
                        },
                    )
                    &&& o.get("currency"@) == Some(
                        Json::Str(
                            match get_str(p, "currency"@) {
                                Some(c) => c,
                                None => "AUD"@,
                            },
                        ),
                    )
                },
                None => o.get("ratePlanId"@) == Some(Json::Null) && o.get("currency"@) == Some(Json::Str("AUD"@)),
            }
            &&& o.get("available"@) == Some(Json::Bool(available))
            &&& (rates_empty ==> o.get("estimatedTotal"@) == Some(Json::Null))
            &&& (!rates_empty ==> o.get("estimatedTotal"@) == Some(total))
        }),
{
    reveal_strlit("roomTypeId");
    reveal_strlit("roomTypeName");
    reveal_strlit("maxOccupancy");
    reveal_strlit("ratePlanId");
    reveal_strlit("currency");
    reveal_strlit("available");
    reveal_strlit("minAvailable");
    reveal_strlit("nightsChecked");
    reveal_strlit("lowestNightlyRate");
    reveal_strlit("estimatedTotal");
    let e = spec_option(room_type, id, max, plan, available, min_avail, nights, reasons, lowest, total, rates_empty)->Object_0;
    assert("roomTypeId"@.len() != "roomTypeName"@.len());
    assert("roomTypeId"@.len() != "maxOccupancy"@.len());
    assert("roomTypeName"@[0] != "maxOccupancy"@[0]);
    assert("roomTypeId"@[1] != "ratePlanId"@[1]);
    assert(is_key_at(e, "roomTypeId"@, 0));
    assert(is_key_at(e, "roomTypeName"@, 1));
    assert(is_key_at(e, "maxOccupancy"@, 2));
    assert(is_key_at(e, "ratePlanId"@, 3));
    assert(is_key_at(e, "currency"@, 4));
    assert(forall|j: int| 0 <= j < 5 ==> e[j].0.len() != "available"@.len());
    assert(is_key_at(e, "available"@, 5));
    assert(forall|j: int| 0 <= j < 9 ==> e[j].0.len() != "estimatedTotal"@.len());
    assert(is_key_at(e, "estimatedTotal"@, 9));
    lemma_lookup_at(e, "roomTypeId"@, 0);
    lemma_lookup_at(e, "roomTypeName"@, 1);
    lemma_lookup_at(e, "maxOccupancy"@, 2);
    lemma_lookup_at(e, "ratePlanId"@, 3);
    lemma_lookup_at(e, "currency"@, 4);
    lemma_lookup_at(e, "available"@, 5);
    lemma_lookup_at(e, "estimatedTotal"@, 9);
}

} // verus!
