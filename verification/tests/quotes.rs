use resly::availability::{
    quote_candidates, night_facts, quote_option, quote_order, quote_output, screen_room_type, stay_rows, validate_quote, Screen,
};
use resly::json::{JsonNumber, JsonValue};
use serde_json::Value;

fn to_value(v: &JsonValue) -> Value {
    match v {
        JsonValue::Null => Value::Null,
        JsonValue::Bool(b) => Value::Bool(*b),
        JsonValue::Number(JsonNumber::PosInt(n)) => Value::from(*n),
        JsonValue::Number(JsonNumber::NegInt(n)) => Value::from(*n),
        JsonValue::Number(JsonNumber::Float(bits)) => Value::from(f64::from_bits(*bits)),
        JsonValue::Str(s) => Value::String(s.clone()),
        JsonValue::Array(items) => Value::Array(items.iter().map(to_value).collect()),
        JsonValue::Object(entries) => {
            let mut map = serde_json::Map::new();
            for (key, value) in entries {
                map.insert(key.clone(), to_value(value));
            }
            Value::Object(map)
        }
    }
}

fn from_value(v: &Value) -> JsonValue {
    match v {
        Value::Null => JsonValue::Null,
        Value::Bool(b) => JsonValue::Bool(*b),
        Value::Number(n) => {
            if let Some(u) = n.as_u64() {
                JsonValue::Number(JsonNumber::PosInt(u))
            } else if let Some(i) = n.as_i64() {
                JsonValue::Number(JsonNumber::NegInt(i))
            } else {
                JsonValue::Number(JsonNumber::Float(n.as_f64().unwrap().to_bits()))
            }
        }
        Value::String(s) => JsonValue::Str(s.clone()),
        Value::Array(items) => JsonValue::Array(items.iter().map(from_value).collect()),
        Value::Object(map) => {
            JsonValue::Object(map.iter().map(|(k, x)| (k.clone(), from_value(x))).collect())
        }
    }
}

fn jv(text: &str) -> JsonValue {
    from_value(&serde_json::from_str(text).unwrap())
}

fn val(text: &str) -> Value {
    serde_json::from_str(text).unwrap()
}


fn array(value: JsonValue) -> Vec<JsonValue> {
    match value {
        JsonValue::Array(items) => items,
        _ => panic!("not an array"),
    }
}

fn float(x: f64) -> JsonValue {
    JsonValue::Number(JsonNumber::Float(x.to_bits()))
}

#[test]
fn quote_requests_are_checked() {
    let cases = [
        (0, "2026-07-05", "2026-07-07", "input.invalid", "--guests must be greater than zero"),
        (2, "2026-7-05", "2026-07-07", "date.invalid", "--from must be formatted as YYYY-MM-DD"),
        (2, "2026-07-05", "07-07", "date.invalid", "--to must be formatted as YYYY-MM-DD"),
        (2, "2026-07-05", "2026-07-05", "date.invalid", "--to must be later than --from for availability quotes"),
        (2, "2026-07-06", "2026-07-05", "date.invalid", "--to must be later than --from for availability quotes"),
    ];
    for (guests, from, to, code, message) in cases {
        let e = validate_quote(guests, from, to).unwrap_err();
        assert_eq!(e.code, code);
        assert_eq!(e.message, message);
    }
    assert!(validate_quote(1, "2026-07-05", "2026-07-06").is_ok());
}

#[test]
fn room_types_are_screened() {
    let plans = array(jv(r#"[
        {"roomTypeId": "A", "currency": "NZD"},
        {"roomTypeId": "A", "ratePlanId": "BAR-A"},
        {"roomTypeId": "A", "ratePlanId": "OTHER-A"}
    ]"#));
    assert!(matches!(screen_room_type(&jv(r#"{"roomTypeId":"A","maxOccupancy":2}"#), &plans, 3), Screen::TooSmall));
    assert!(matches!(screen_room_type(&jv(r#"{"roomTypeId":"A"}"#), &plans, 1), Screen::TooSmall));
    assert!(matches!(
        screen_room_type(&jv(r#"{"roomTypeId":"A","maxOccupancy":4,"active":false}"#), &plans, 3),
        Screen::Inactive
    ));
    assert!(matches!(screen_room_type(&jv(r#"{"roomTypeId":7,"maxOccupancy":4}"#), &plans, 3), Screen::NoId));
    match screen_room_type(&jv(r#"{"roomTypeId":"A","maxOccupancy":4,"active":true}"#), &plans, 3) {
        Screen::Candidate { room_type_id, max_occupancy, plan } => {
            assert_eq!(room_type_id, "A");
            assert_eq!(max_occupancy, 4);
            assert_eq!(plan, Some(1));
        }
        _ => panic!("expected a candidate"),
    }
    match screen_room_type(&jv(r#"{"roomTypeId":"B","maxOccupancy":4}"#), &plans, 3) {
        Screen::Candidate { plan, .. } => assert_eq!(plan, None),
        _ => panic!("expected a candidate"),
    }
}

#[test]
fn nights_of_a_stay() {
    let rows = array(jv(r#"[
        {"date": "2026-07-04", "available": 5},
        {"date": "2026-07-05", "available": 3},
        {"date": "2026-07-06", "available": 1},
        {"date": "2026-07-07", "available": 0},
        {"available": 9}
    ]"#));
    let stay = stay_rows(&rows, "2026-07-05", "2026-07-07");
    assert_eq!(stay.len(), 2);
    let rates = stay_rows(&array(jv(r#"[{"date":"2026-07-05","rate":100},{"date":"2026-07-06","stopSell":true}]"#)), "2026-07-05", "2026-07-07");
    let facts = night_facts(&stay, &rates, true);
    assert_eq!(facts.min_available, 1);
    assert!(facts.stop_sell);
    assert!(!facts.available);
    assert_eq!(facts.nights_checked, 2);
    assert_eq!(facts.reasons, vec!["Stop-sell is active on at least one night"]);

    let none = night_facts(&vec![], &vec![], false);
    assert_eq!(none.min_available, 0);
    assert!(!none.available);
    assert_eq!(none.nights_checked, 0);
    assert_eq!(
        none.reasons,
        vec![
            "No inventory rows returned for the stay dates",
            "No rooms available on at least one night",
            "No rate plan found for this room type",
        ]
    );
    let negative = night_facts(&array(jv(r#"[{"available": 2}, {"available": -1}, {"available": "x"}]"#)), &vec![], true);
    assert_eq!(negative.min_available, -1);
}

#[test]
fn one_quoted_option() {
    let room_type = jv(r#"{"roomTypeId": "A"}"#);
    let plan = jv(r#"{"ratePlanId": "BAR-A", "roomTypeId": "A"}"#);
    let stay = array(jv(r#"[{"date":"2026-07-05","available":-2}]"#));
    let facts = night_facts(&stay, &vec![], true);
    let option = quote_option(&room_type, "A", 4, Some(&plan), &facts, JsonValue::Null, float(0.0), true);
    assert_eq!(
        to_value(&option),
        val(r#"{"roomTypeId":"A","roomTypeName":"A","maxOccupancy":4,"ratePlanId":"BAR-A","currency":"AUD",
                "available":false,"minAvailable":0,"nightsChecked":1,"lowestNightlyRate":null,
                "estimatedTotal":null,"reasons":["No rooms available on at least one night"]}"#)
    );
}

/// Each option's total ranked among all totals: equal totals share a rank,
/// and an option without a total ranks last.
fn ranks_of(totals: &[Option<f64>]) -> Vec<u64> {
    let key = |t: &Option<f64>| t.unwrap_or(f64::MAX);
    totals
        .iter()
        .map(|t| totals.iter().filter(|o| key(o) < key(t)).count() as u64)
        .collect()
}

#[test]
fn quote_recommends_cheapest_available() {
    let inventory = [
        ("2BR-OCEAN", r#"[{"date":"2026-07-05","available":2},{"date":"2026-07-06","available":1}]"#),
        ("1BR-GARDEN", r#"[{"date":"2026-07-05","available":4},{"date":"2026-07-06","available":4}]"#),
        ("STUDIO", r#"[{"date":"2026-07-05","available":0},{"date":"2026-07-06","available":3}]"#),
    ];
    let rates = [
        r#"[{"date":"2026-07-05","rate":420.0},{"date":"2026-07-06","rate":440.0}]"#,
        r#"[{"date":"2026-07-05","rate":300.0},{"date":"2026-07-06","rate":330.0}]"#,
        r#"[{"date":"2026-07-05","rate":100.0},{"date":"2026-07-06","rate":100.0}]"#,
    ];
    let mut options = Vec::new();
    let mut totals = Vec::new();
    for ((id, inv), rate_rows) in inventory.iter().zip(rates.iter()) {
        let room_type = jv(&format!(r#"{{"roomTypeId":"{id}","roomTypeName":"{id} room","maxOccupancy":4}}"#));
        let plan = jv(&format!(r#"{{"roomTypeId":"{id}","ratePlanId":"BAR-{id}"}}"#));
        let stay = stay_rows(&array(jv(inv)), "2026-07-05", "2026-07-07");
        let stay_rates = stay_rows(&array(jv(rate_rows)), "2026-07-05", "2026-07-07");
        let values: Vec<f64> = stay_rates
            .iter()
            .map(|row| to_value(row)["rate"].as_f64().unwrap())
            .collect();
        let total: f64 = values.iter().sum();
        let lowest = values.iter().cloned().fold(f64::INFINITY, f64::min);
        let facts = night_facts(&stay, &stay_rates, true);
        options.push(quote_option(&room_type, id, 4, Some(&plan), &facts, float(lowest), float(total), stay_rates.is_empty()));
        totals.push(Some(total));
    }
    let ranks = ranks_of(&totals);
    let order = quote_order(&options, &ranks);
    assert_eq!(order, vec![1, 0, 2]);

    let out = quote_output(3, "2026-07-05", "2026-07-07", 1, &options, &order, 5, "fixture");
    let data = to_value(&out.data);
    assert_eq!(out.command, "availability.quote");
    assert_eq!(data["availableOptions"], 2);
    assert_eq!(data["skippedForOccupancy"], 1);
    assert_eq!(data["recommended"]["roomTypeId"], "1BR-GARDEN");
    assert_eq!(data["recommended"]["estimatedTotal"], 630.0);
    assert_eq!(data["options"][2]["roomTypeId"], "STUDIO");
    assert_eq!(out.human, "Found 2 available option(s) for 3 guest(s) from 2026-07-05 to 2026-07-07.");

    let limited = quote_output(3, "2026-07-05", "2026-07-07", 1, &options, &order, 1, "live");
    let data = to_value(&limited.data);
    assert_eq!(data["availableOptions"], 2);
    assert_eq!(data["options"].as_array().unwrap().len(), 1);
    assert_eq!(limited.source, "live");
}

#[test]
fn quote_order_breaks_ties_by_name_then_position() {
    let options = array(jv(r#"[
        {"available": true, "roomTypeName": "b"},
        {"available": true, "roomTypeName": "a"},
        {"available": false, "roomTypeName": "a"},
        {"available": true, "roomTypeName": "a"}
    ]"#));
    assert_eq!(quote_order(&options, &vec![0, 0, 0, 0]), vec![1, 3, 0, 2]);
    assert_eq!(quote_order(&options, &vec![1, 2, 0, 3]), vec![0, 1, 3, 2]);
    let none = quote_output(1, "2026-01-01", "2026-01-02", 0, &vec![], &vec![], 5, "fixture");
    assert_eq!(to_value(&none.data)["recommended"], Value::Null);
}

#[test]
fn room_types_are_screened_in_order() {
    let room_types = array(jv(r#"[
        {"roomTypeId": "A", "maxOccupancy": 2},
        {"roomTypeId": "B", "maxOccupancy": 4, "active": false},
        {"roomTypeId": "C", "maxOccupancy": 5},
        {"maxOccupancy": 8},
        {"roomTypeId": "D", "maxOccupancy": 3},
        {"roomTypeId": "E"}
    ]"#));
    let plans = array(jv(r#"[{"roomTypeId": "D", "ratePlanId": "BAR-D"}]"#));
    let (candidates, skipped) = quote_candidates(&room_types, &plans, 3);
    assert_eq!(skipped, 2);
    let listed: Vec<(usize, &str, u64, Option<usize>)> = candidates
        .iter()
        .map(|c| (c.room_type, c.room_type_id.as_str(), c.max_occupancy, c.plan))
        .collect();
    assert_eq!(listed, vec![(2, "C", 5, None), (4, "D", 3, Some(0))]);
}
