use resly::auth::{
    is_blank, api_error, check_token_response, choose_token, token_cache_entry, token_credentials, token_http_failure,
    token_request_body, TokenCache, TokenSource,
};
use resly::commands::{
    block_list_params, date_range_params, inventory_path, rates_path, reservation_list_params, room_types_params,
    BlockDateType, BlockListArgs, ReservationDateType, ReservationListArgs, WebhookType,
};
use resly::config::{ReslyEnvironment, Runtime};
use resly::error::AppError;
use resly::json::{JsonNumber, JsonValue};
use resly::outputs::{doctor, error_envelope, error_line, init_config, token_refresh, InitArgs};
use resly::requests::{decode_path, item_path, query_param, scoped_path, scoped_path_id, split_raw_path};
use serde_json::Value;

fn to_value(v: &JsonValue) -> Value {
    match v {
        JsonValue::Null => Value::Null,
        JsonValue::Bool(b) => Value::Bool(*b),
        JsonValue::Number(JsonNumber::PosInt(n)) => Value::from(*n),
        JsonValue::Number(JsonNumber::NegInt(n)) => Value::from(*n),
        JsonValue::Number(JsonNumber::Float(bits)) => Value::from(f64::from_bits(*bits)),
        JsonValue::Str(s) => Value::String(s.clone()),
        JsonValue::Array(items) => Value::Array(items.iter().map(to_value).collect()),
        JsonValue::Object(entries) => {
            let mut map = serde_json::Map::new();
            for (key, value) in entries {
                map.insert(key.clone(), to_value(value));
            }
            Value::Object(map)
        }
    }
}

fn from_value(v: &Value) -> JsonValue {
    match v {
        Value::Null => JsonValue::Null,
        Value::Bool(b) => JsonValue::Bool(*b),
        Value::Number(n) => {
            if let Some(u) = n.as_u64() {
                JsonValue::Number(JsonNumber::PosInt(u))
            } else if let Some(i) = n.as_i64() {
                JsonValue::Number(JsonNumber::NegInt(i))
            } else {
                JsonValue::Number(JsonNumber::Float(n.as_f64().unwrap().to_bits()))
            }
        }
        Value::String(s) => JsonValue::Str(s.clone()),
        Value::Array(items) => JsonValue::Array(items.iter().map(from_value).collect()),
        Value::Object(map) => {
            JsonValue::Object(map.iter().map(|(k, x)| (k.clone(), from_value(x))).collect())
        }
    }
}

fn val(text: &str) -> Value {
    serde_json::from_str(text).unwrap()
}

fn pairs(params: &[(String, String)]) -> Vec<(&str, &str)> {
    params.iter().map(|(k, v)| (k.as_str(), v.as_str())).collect()
}

#[test]
fn raw_paths_split_at_the_first_question_mark() {
    let (path, query) = split_raw_path("/rooms?a=1?b=2");
    assert_eq!(path, "/rooms");
    assert_eq!(query.as_deref(), Some("a=1?b=2"));
    let (path, query) = split_raw_path("/rooms");
    assert_eq!(path, "/rooms");
    assert_eq!(query, None);
}

#[test]
fn scoped_ids_are_decoded() {
    assert_eq!(
        scoped_path_id("/room-types/2BR%20OCEAN/inventory/", "room-types", "inventory").as_deref(),
        Some("2BR OCEAN")
    );
    assert_eq!(scoped_path_id("room-types/X/inventory", "room-types", "inventory").as_deref(), Some("X"));
    assert_eq!(scoped_path_id("/room-types/X/rates", "room-types", "inventory"), None);
    assert_eq!(scoped_path_id("/room-types/X/Y/inventory", "room-types", "inventory"), None);
    assert_eq!(scoped_path_id("/rate-plans/X/inventory", "room-types", "inventory"), None);
}

#[test]
fn query_values() {
    let names = ["startDate", "from"];
    assert_eq!(query_param(Some("x=1&from=2026-07-01&startDate=2026-08-01"), &names).as_deref(), Some("2026-07-01"));
    assert_eq!(query_param(Some("note=a+b%21"), &["note"]).as_deref(), Some("a b!"));
    assert_eq!(query_param(Some("from"), &names), None);
    assert_eq!(query_param(None, &names), None);
    assert_eq!(query_param(Some("from="), &names).as_deref(), Some(""));
}

#[test]
fn paths_encode_identifiers() {
    assert_eq!(item_path("rooms", "R1"), "/rooms/R1");
    assert_eq!(item_path("rooms", "a b/c?"), "/rooms/a%20b%2Fc%3F");
    assert_eq!(item_path("rooms", "é~-._"), "/rooms/%C3%A9~-._");
    assert_eq!(scoped_path("room-types", "2BR", "inventory"), "/room-types/2BR/inventory");
    assert_eq!(inventory_path("2BR OCEAN"), "/room-types/2BR%20OCEAN/inventory");
    assert_eq!(rates_path("BAR-1"), "/rate-plans/BAR-1/rates-and-restrictions");
    assert_eq!(decode_path("a%20b"), "a b");
    assert_eq!(decode_path("plain"), "plain");
    assert_eq!(decode_path("%FF"), "%FF");
    assert_eq!(decode_path("a%2fb%zz%4"), "a/b%zz%4");
    assert_eq!(decode_path("%C3%A9%"), "é%");
}

fn reservation_args(date_type: ReservationDateType) -> ReservationListArgs {
    ReservationListArgs {
        date_type,
        from: None,
        to: None,
        start_time: None,
        end_time: None,
        status: "all".to_string(),
        room_id: None,
        limit: 50,
    }
}

#[test]
fn reservation_queries() {
    let mut args = reservation_args(ReservationDateType::CheckIn);
    let e = reservation_list_params(&args).unwrap_err();
    assert_eq!(e.code, "input.missing");
    assert_eq!(e.message, "--from is required for check-in/check-out queries");
    args.from = Some("2026-07-01".to_string());
    assert_eq!(
        reservation_list_params(&args).unwrap_err().message,
        "--to is required for check-in/check-out queries"
    );
    args.to = Some("2026-7-9".to_string());
    let e = reservation_list_params(&args).unwrap_err();
    assert_eq!(e.code, "date.invalid");
    assert_eq!(e.message, "--to must be formatted as YYYY-MM-DD");
    args.to = Some("2026-07-09".to_string());
    args.room_id = Some("R1".to_string());
    let params = reservation_list_params(&args).unwrap();
    assert_eq!(
        pairs(&params),
        vec![
            ("dateType", "checkIn"),
            ("startDate", "2026-07-01"),
            ("endDate", "2026-07-09"),
            ("status", "all"),
            ("roomId", "R1"),
        ]
    );

    let mut updated = reservation_args(ReservationDateType::Updated);
    assert_eq!(
        reservation_list_params(&updated).unwrap_err().message,
        "--start-time is required for updated queries"
    );
    updated.start_time = Some("1".to_string());
    assert_eq!(
        reservation_list_params(&updated).unwrap_err().message,
        "--end-time is required for updated queries"
    );
    updated.end_time = Some("2".to_string());
    assert_eq!(
        pairs(&reservation_list_params(&updated).unwrap()),
        vec![("dateType", "updated"), ("startTime", "1"), ("endTime", "2"), ("status", "all")]
    );
    assert_eq!(ReservationDateType::CheckOut.api_value(), "checkOut");
}

#[test]
fn block_and_other_queries() {
    let args = BlockListArgs {
        date_type: BlockDateType::InBetween,
        from: "2026-07-01".to_string(),
        to: "2026-07-31".to_string(),
        room_id: None,
    };
    assert_eq!(
        pairs(&block_list_params(&args).unwrap()),
        vec![("dateType", "inBetween"), ("startDate", "2026-07-01"), ("endDate", "2026-07-31")]
    );
    let bad = BlockListArgs { from: "July".to_string(), ..args };
    assert_eq!(block_list_params(&bad).unwrap_err().message, "--from must be formatted as YYYY-MM-DD");
    assert_eq!(
        pairs(&room_types_params(true, &Some("P1".to_string()))),
        vec![("showPhotos", "true"), ("portfolioId", "P1")]
    );
    assert!(room_types_params(false, &None).is_empty());
    assert_eq!(
        pairs(&date_range_params("a", "b")),
        vec![("startDate", "a"), ("endDate", "b")]
    );
    assert_eq!(BlockDateType::Start.api_value(), "start");
    assert_eq!(WebhookType::Messages.api_value(), "messages");
}

#[test]
fn blank_texts() {
    assert!(is_blank(""));
    assert!(is_blank(" \t\n\u{a0}\u{3000}"));
    assert!(!is_blank("  x "));
}

#[test]
fn token_choice() {
    let cache = || Some(TokenCache { token: "cached".to_string(), expires_at: 1_000 });
    assert!(matches!(choose_token(Some("env-token"), cache(), 0), TokenSource::Environment(t) if t == "env-token"));
    assert!(matches!(choose_token(Some("   "), cache(), 939), TokenSource::Cached(t) if t == "cached"));
    assert!(matches!(choose_token(None, cache(), 940), TokenSource::Request));
    assert!(matches!(choose_token(None, None, 0), TokenSource::Request));
    assert!(matches!(choose_token(Some("\u{3000}\t\n"), None, 0), TokenSource::Request));
    assert!(matches!(choose_token(Some(" x "), None, 0), TokenSource::Environment(t) if t == " x "));
}

fn live_runtime(account: Option<&str>, key: Option<&str>) -> Runtime {
    Runtime {
        account_id: account.map(String::from),
        api_key: key.map(String::from),
        base_url: "https://api.resly.com.au".to_string(),
        environment: "production".to_string(),
        auth_source: "flag-or-env",
        base_url_source: "config",
        fixture_mode: false,
    }
}

#[test]
fn token_requests() {
    let e = token_credentials(&live_runtime(None, Some("k"))).unwrap_err();
    assert_eq!(e.code, "auth.missing");
    assert_eq!(e.message, "Missing RESLY_ACCOUNT_ID or account_id in ~/.resly/config.toml");
    let e = token_credentials(&live_runtime(Some("a"), None)).unwrap_err();
    assert_eq!(e.message, "Missing RESLY_API_KEY or api_key in ~/.resly/config.toml");
    let (a, k) = token_credentials(&live_runtime(Some("a"), Some("k"))).unwrap();
    assert_eq!((a.as_str(), k.as_str()), ("a", "k"));

    assert_eq!(to_value(&token_request_body("ACC", "KEY")), val(r#"{"accountId":"ACC","key":"KEY"}"#));
    let e = token_http_failure("401 Unauthorized", r#"{"api_key":"bad"}"#);
    assert_eq!(e.code, "auth.failed");
    assert_eq!(e.message, r#"Token request returned 401 Unauthorized: {"api_key_redacted":"[redacted]"}"#);
    let e = check_token_response(Some(false), None).unwrap_err();
    assert_eq!(e.message, "Token request was not successful");
    assert_eq!(check_token_response(Some(false), Some("nope")).unwrap_err().message, "nope");
    assert!(check_token_response(Some(true), None).is_ok());
    assert!(check_token_response(None, Some("ignored")).is_ok());

    let entry = token_cache_entry("t".to_string(), None, 100);
    assert_eq!(entry.expires_at, 100 + 86_400);
    assert_eq!(token_cache_entry("t".to_string(), Some(60), 100).expires_at, 160);

    let e = api_error("500 Internal Server Error", "Authorization failed for access_token");
    assert_eq!(e.code, "api.error");
    assert_eq!(
        e.message,
        "Resly API returned 500 Internal Server Error: Authorization-Redacted [redacted]"
    );
}

#[test]
fn errors_as_printed() {
    let e = AppError::retryable("network.error", "timed out");
    assert_eq!(
        to_value(&error_envelope(&e)),
        val(r#"{"ok":false,"error":{"code":"network.error","message":"timed out","retryable":true}}"#)
    );
    assert_eq!(error_line(&AppError::new("x.y", "went wrong")), "x.y: went wrong");
}

#[test]
fn token_refresh_outputs() {
    let mut rt = live_runtime(Some("a"), Some("k"));
    let out = token_refresh(&rt, "abcdefghijklmnop");
    assert_eq!(out.human, "Retrieved token abcd...mnop for production");
    assert_eq!(
        to_value(&out.data),
        val(r#"{"token":"abcd...mnop","baseUrl":"https://api.resly.com.au","environment":"production"}"#)
    );
    assert_eq!(out.source, "live");
    rt.fixture_mode = true;
    let out = token_refresh(&rt, "");
    assert_eq!(out.human, "Fixture mode does not require a token.");
    assert_eq!(to_value(&out.data), val(r#"{"fixtureMode":true,"tokenRequired":false}"#));
    assert_eq!(out.source, "fixture");
}

#[test]
fn doctor_reports() {
    let rt = live_runtime(Some("a"), Some("k"));
    let failed = Some(Err(AppError::new("auth.failed", "denied")));
    let out = doctor(&rt, "0.1.0", Some("/home/u"), true, &failed).unwrap();
    assert_eq!(out.human, "Resly CLI is configured for production at https://api.resly.com.au");
    assert_eq!(out.source, "live");
    assert_eq!(
        to_value(&out.data),
        val(r#"{"version":"0.1.0","environment":"production","baseUrl":"https://api.resly.com.au",
                "baseUrlSource":"config",
                "auth":{"accountIdAvailable":true,"apiKeyAvailable":true,"source":"flag-or-env"},
                "fixtureMode":false,"fixtureAvailable":true,"configPath":"/home/u/.resly/config.toml",
                "token":{"required":true,"available":false,
                         "error":{"code":"auth.failed","message":"denied","retryable":false}}}"#)
    );
    let ok = Some(Ok("tok_123456789".to_string()));
    let out = doctor(&rt, "0.1.0", Some("/home/u"), true, &ok).unwrap();
    assert_eq!(to_value(&out.data)["token"], val(r#"{"required":true,"available":true,"redacted":"tok_...6789"}"#));

    let mut fixture = live_runtime(None, None);
    fixture.fixture_mode = true;
    let out = doctor(&fixture, "0.1.0", Some("/home/u"), false, &None).unwrap();
    assert_eq!(
        out.human,
        "Resly CLI is ready in fixture mode. Add RESLY_ACCOUNT_ID and RESLY_API_KEY or run resly init for live API use."
    );
    assert_eq!(
        to_value(&out.data)["token"],
        val(r#"{"required":false,"available":false,"reason":"fixture mode does not require auth"}"#)
    );
    assert_eq!(out.source, "fixture");
    let e = doctor(&fixture, "0.1.0", None, false, &None).unwrap_err();
    assert_eq!(e.code, "env.missing");
}

#[test]
fn init_writes_a_quoted_config() {
    let args = InitArgs {
        account_id: "ACC \"1\"".to_string(),
        api_key: "key-abcdefgh".to_string(),
        env: ReslyEnvironment::Production,
        base_url: None,
    };
    let (path, text, out) = init_config(&args, Some("/home/u")).unwrap();
    assert_eq!(path, "/home/u/.resly/config.toml");
    assert_eq!(
        text,
        "account_id = \"ACC \\\"1\\\"\"\napi_key = \"key-abcdefgh\"\nbase_url = \"https://api.resly.com.au\"\nenvironment = \"production\"\n"
    );
    assert_eq!(out.human, "Wrote /home/u/.resly/config.toml for production (https://api.resly.com.au)");
    assert_eq!(
        to_value(&out.data),
        val(r#"{"configPath":"/home/u/.resly/config.toml","environment":"production",
                "baseUrl":"https://api.resly.com.au","accountId":"ACC \"1\"","apiKey":"key-...efgh"}"#)
    );
    let custom = InitArgs { base_url: Some("http://localhost:9".to_string()), env: ReslyEnvironment::Test, ..args };
    let (_, text, _) = init_config(&custom, Some("/h")).unwrap();
    assert!(text.contains("base_url = \"http://localhost:9\"\nenvironment = \"test\"\n"));
    assert_eq!(init_config(&custom, None).unwrap_err().message, "HOME is not set");
}
