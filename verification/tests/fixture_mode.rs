use resly::commands::{output, envelope, limit_rows, CommandOutput};
use resly::fixtures::{collection_items, find_in_collection, fixture_scoped_value, fixture_value, summarize};
use resly::json::{JsonNumber, JsonValue};
use resly::outputs::{fixture_read, fixture_read_one, fixture_request, reservations_output};
use resly::reads::{read_fixture, read_plan, ReadCommand};
use resly::requests::{fixture_route, FixtureRoute};
use serde_json::Value;

fn to_value(v: &JsonValue) -> Value {
    match v {
        JsonValue::Null => Value::Null,
        JsonValue::Bool(b) => Value::Bool(*b),
        JsonValue::Number(JsonNumber::PosInt(n)) => Value::from(*n),
        JsonValue::Number(JsonNumber::NegInt(n)) => Value::from(*n),
        JsonValue::Number(JsonNumber::Float(bits)) => Value::from(f64::from_bits(*bits)),
        JsonValue::Str(s) => Value::String(s.clone()),
        JsonValue::Array(items) => Value::Array(items.iter().map(to_value).collect()),
        JsonValue::Object(entries) => {
            let mut map = serde_json::Map::new();
            for (key, value) in entries {
                map.insert(key.clone(), to_value(value));
            }
            Value::Object(map)
        }
    }
}

fn from_value(v: &Value) -> JsonValue {
    match v {
        Value::Null => JsonValue::Null,
        Value::Bool(b) => JsonValue::Bool(*b),
        Value::Number(n) => {
            if let Some(u) = n.as_u64() {
                JsonValue::Number(JsonNumber::PosInt(u))
            } else if let Some(i) = n.as_i64() {
                JsonValue::Number(JsonNumber::NegInt(i))
            } else {
                JsonValue::Number(JsonNumber::Float(n.as_f64().unwrap().to_bits()))
            }
        }
        Value::String(s) => JsonValue::Str(s.clone()),
        Value::Array(items) => JsonValue::Array(items.iter().map(from_value).collect()),
        Value::Object(map) => {
            JsonValue::Object(map.iter().map(|(k, x)| (k.clone(), from_value(x))).collect())
        }
    }
}

fn jv(text: &str) -> JsonValue {
    from_value(&serde_json::from_str(text).unwrap())
}

fn val(text: &str) -> Value {
    serde_json::from_str(text).unwrap()
}


fn demo_fixture() -> JsonValue {
    jv(r#"{
        "account": {"type": "property", "data": {"name": "Seaside Stays"}},
        "rooms": {"type": "rooms", "data": [
            {"roomId": "R1", "roomName": "Ocean 1"},
            {"id": "R2", "roomName": "Garden 2"}
        ]},
        "reservations": {"data": [{"id": "A"}, {"id": "B"}, {"id": "C"}]},
        "inventory": {"data": []},
        "rates": {"data": []},
        "inventory_by_room_type": {
            "2BR-OCEAN": {"roomTypeId": "2BR-OCEAN", "data": [
                {"date": "2026-07-04", "available": 1},
                {"date": "2026-07-05", "available": 2},
                {"date": "2026-07-06", "available": 2},
                {"date": "2026-07-07", "available": 1},
                {"date": "2026-07-08", "available": 0}
            ]}
        },
        "rates_by_rate_plan": {
            "BAR-2BR-OCEAN": {"ratePlanId": "BAR-2BR-OCEAN", "data": [
                {"date": "2026-07-04", "rate": 410.0},
                {"date": "2026-07-05", "rate": 420.0},
                {"date": "2026-07-06", "rate": 420.0},
                {"date": "2026-07-07", "rate": 430.0},
                {"date": "2026-07-08", "rate": 430.0}
            ]}
        }
    }"#)
}

#[test]
fn fixture_inventory_and_rates_are_scoped() {
    let data = demo_fixture();
    let inventory = to_value(
        &fixture_scoped_value(
            &data,
            "inventory_by_room_type",
            "inventory",
            "2BR-OCEAN",
            "2026-07-05",
            "2026-07-07",
        )
        .unwrap(),
    );
    assert_eq!(inventory["roomTypeId"], "2BR-OCEAN");
    assert_eq!(inventory["count"], 3);

    let rates = to_value(
        &fixture_scoped_value(
            &data,
            "rates_by_rate_plan",
            "rates",
            "BAR-2BR-OCEAN",
            "2026-07-05",
            "2026-07-07",
        )
        .unwrap(),
    );
    assert_eq!(rates["ratePlanId"], "BAR-2BR-OCEAN");
    assert_eq!(rates["count"], 3);
}

#[test]
fn raw_fixture_request_uses_scoped_inventory_and_rates() {
    let data = demo_fixture();
    let inventory = fixture_request(
        &data,
        "/room-types/2BR-OCEAN/inventory?startDate=2026-07-05&endDate=2026-07-07",
    )
    .unwrap();
    assert_eq!(to_value(&inventory.data)["roomTypeId"], "2BR-OCEAN");

    let rates = fixture_request(
        &data,
        "/rate-plans/BAR-2BR-OCEAN/rates-and-restrictions?startDate=2026-07-05&endDate=2026-07-07",
    )
    .unwrap();
    assert_eq!(to_value(&rates.data)["ratePlanId"], "BAR-2BR-OCEAN");
}

#[test]
fn scoped_fixture_falls_back_and_keeps_undated_rows() {
    let data = demo_fixture();
    let other = to_value(
        &fixture_scoped_value(&data, "inventory_by_room_type", "inventory", "1BR-GARDEN", "2026-07-05", "2026-07-07")
            .unwrap(),
    );
    assert_eq!(other, val(r#"{"data": [], "count": 0}"#));

    let rows = jv(r#"{"undated": {"data": [{"n": 1}, {"date": "2026-01-01"}, {"date": 5}]}}"#);
    let kept = to_value(&fixture_scoped_value(&rows, "nothing", "undated", "x", "2026-02-01", "2026-03-01").unwrap());
    assert_eq!(kept, val(r#"{"data": [{"n": 1}, {"date": 5}], "count": 2}"#));

    let error = fixture_scoped_value(&jv("{}"), "a", "b", "X-1", "2026-01-01", "2026-01-02").unwrap_err();
    assert_eq!(error.code, "fixture.missing");
    assert_eq!(error.message, "Missing fixture for X-1");
}

#[test]
fn raw_request_query_window_and_routes() {
    let data = demo_fixture();
    let wide = fixture_request(&data, "/room-types/2BR-OCEAN/inventory").unwrap();
    assert_eq!(to_value(&wide.data)["count"], 5);
    assert_eq!(wide.command, "request.get");
    assert_eq!(wide.source, "fixture");
    assert_eq!(wide.human, "request.get: 5 item(s)");

    let narrow = fixture_request(&data, "/room-types/2BR-OCEAN/inventory?from=2026-07-08").unwrap();
    assert_eq!(to_value(&narrow.data)["count"], 1);

    let account = fixture_request(&data, "/property").unwrap();
    assert_eq!(account.human, "request.get: Seaside Stays");

    let missing = fixture_request(&data, "/nowhere?x=1").unwrap_err();
    assert_eq!(missing.code, "fixture.missing");
    assert_eq!(missing.message, "No fixture is mapped for /nowhere?x=1");

    let unmapped_key = fixture_request(&data, "/webhooks").unwrap_err();
    assert_eq!(unmapped_key.message, "Missing fixture key webhooks");

    match fixture_route("/rate-plans/BAR%2F1/rates-and-restrictions?endDate=2026-12-31").unwrap() {
        FixtureRoute::Scoped { scoped_key, fallback_key, id, from, to } => {
            assert_eq!(scoped_key, "rates_by_rate_plan");
            assert_eq!(fallback_key, "rates");
            assert_eq!(id, "BAR/1");
            assert_eq!(from, "0000-00-00");
            assert_eq!(to, "2026-12-31");
        }
        FixtureRoute::Key(_) => panic!("expected a scoped route"),
    }
}

#[test]
fn fixture_reads_whole_and_single_items() {
    let data = demo_fixture();
    let rooms = fixture_read(&data, "rooms.list", "rooms").unwrap();
    assert_eq!(rooms.human, "rooms.list: 2 item(s)");
    assert_eq!(rooms.source, "fixture");

    let one = fixture_read_one(&data, "rooms.get", "rooms", "R2", &["roomId", "id"]).unwrap();
    assert_eq!(
        to_value(&one.data),
        val(r#"{"type": "rooms", "data": {"id": "R2", "roomName": "Garden 2"}}"#)
    );
    assert_eq!(one.human, "rooms.get: Garden 2");

    let untyped = fixture_read_one(&data, "reservations.get", "reservations", "B", &["reservationId", "id"]).unwrap();
    assert_eq!(to_value(&untyped.data), val(r#"{"type": "object", "data": {"id": "B"}}"#));
    assert_eq!(untyped.human, "reservations.get: ok");

    let not_found = fixture_read_one(&data, "rooms.get", "rooms", "R9", &["roomId", "id"]).unwrap_err();
    assert_eq!(not_found.code, "not.found");
    assert_eq!(not_found.message, "R9 was not found in fixture data");

    let invalid = find_in_collection(&jv(r#"{"data": 3}"#), "x", &["id"]).unwrap_err();
    assert_eq!(invalid.code, "fixture.invalid");
    assert_eq!(invalid.message, "Fixture collection has no data[]");

    let missing = fixture_value(&data, "agents").unwrap_err();
    assert_eq!(missing.message, "Missing fixture key agents");
}

#[test]
fn collection_rows() {
    let rows = collection_items(&jv(r#"{"data": [1, 2]}"#)).unwrap();
    assert_eq!(rows.len(), 2);
    let error = collection_items(&jv(r#"{"rows": []}"#)).unwrap_err();
    assert_eq!(error.code, "fixture.invalid");
    assert_eq!(error.message, "Collection response has no data[]");
}

#[test]
fn summaries() {
    assert_eq!(summarize("x", &jv(r#"{"count": 12, "data": []}"#)), "x: 12 item(s)");
    assert_eq!(summarize("x", &jv(r#"{"count": "many", "data": [1]}"#)), "x: 1 item(s)");
    assert_eq!(summarize("x", &jv(r#"{"data": {"roomTypeName": "Loft"}}"#)), "x: Loft");
    assert_eq!(summarize("x", &jv(r#"{"data": {"name": 4, "roomName": "B"}}"#)), "x: ok");
    assert_eq!(summarize("x", &jv("[]")), "x: ok");
}

#[test]
fn reservations_are_cut_to_the_limit() {
    let data = jv(r#"{"data": [{"id": 1}, {"id": 2}, {"id": 3}], "type": "reservations"}"#);
    let limited = reservations_output(output("reservations.list", data, "fixture"), 2);
    assert_eq!(
        to_value(&limited.data),
        val(r#"{"data": [{"id": 1}, {"id": 2}], "type": "reservations"}"#)
    );
    assert_eq!(limited.human, "reservations.list: 3 item(s)");
    assert_eq!(limited.extra.len(), 1);
    assert_eq!(limited.extra[0].0, "pagination");
    assert_eq!(to_value(&limited.extra[0].1), val(r#"{"limit": 2}"#));

    let short = limit_rows(jv(r#"{"data": [1]}"#), 5);
    assert_eq!(to_value(&short), val(r#"{"data": [1]}"#));
}

#[test]
fn envelopes_carry_extra_members() {
    let out = CommandOutput {
        command: "reservations.list".to_string(),
        data: jv(r#"{"data": []}"#),
        human: String::new(),
        source: "live".to_string(),
        extra: vec![("pagination".to_string(), jv(r#"{"limit": 50}"#)), ("source".to_string(), jv(r#""x""#))],
    };
    let printed = to_value(&envelope(out, "production"));
    assert_eq!(
        printed,
        val(r#"{"ok": true, "command": "reservations.list", "environment": "production",
                "source": "x", "data": {"data": []}, "pagination": {"limit": 50}}"#)
    );
}

#[test]
fn read_plans() {
    let plan = read_plan(&ReadCommand::RoomTypesGet("2BR OCEAN".to_string()));
    assert_eq!(plan.command, "room-types.get");
    assert_eq!(plan.path, "/room-types/2BR%20OCEAN");
    assert_eq!(plan.fixture_key, "room_types");
    let (id, fields) = plan.item.unwrap();
    assert_eq!(id, "2BR OCEAN");
    assert_eq!(fields, vec!["roomTypeId", "id"]);

    let plan = read_plan(&ReadCommand::RoomTypesList { show_photos: true, portfolio_id: None });
    assert_eq!(plan.path, "/room-types");
    assert_eq!(plan.params, vec![("showPhotos".to_string(), "true".to_string())]);
    assert!(plan.item.is_none());

    let plan = read_plan(&ReadCommand::ReservationsInHouse);
    assert_eq!((plan.command, plan.path.as_str(), plan.fixture_key), ("reservations.in-house", "/reservations-inhouse", "reservations_inhouse"));
    let plan = read_plan(&ReadCommand::AccountGet);
    assert_eq!((plan.command, plan.path.as_str(), plan.fixture_key), ("account.get", "/property", "account"));
    let plan = read_plan(&ReadCommand::WebhooksGet("W1".to_string()));
    assert_eq!(plan.item.unwrap().1, vec!["id", "webhookId"]);
    let plan = read_plan(&ReadCommand::ReservationsGet("R".to_string()));
    assert_eq!(plan.path, "/reservations/R");
    assert_eq!(plan.item.unwrap().1, vec!["reservationId", "id"]);
}

#[test]
fn reads_answered_from_fixtures() {
    let data = demo_fixture();
    let rooms = read_fixture(&data, &read_plan(&ReadCommand::RoomsList)).unwrap();
    assert_eq!(rooms.human, "rooms.list: 2 item(s)");
    let room = read_fixture(&data, &read_plan(&ReadCommand::RoomsGet("R1".to_string()))).unwrap();
    assert_eq!(room.human, "rooms.get: Ocean 1");
    let account = read_fixture(&data, &read_plan(&ReadCommand::AccountGet)).unwrap();
    assert_eq!(account.human, "account.get: Seaside Stays");
    let missing = read_fixture(&data, &read_plan(&ReadCommand::AgentsList)).unwrap_err();
    assert_eq!(missing.message, "Missing fixture key agents");
}
