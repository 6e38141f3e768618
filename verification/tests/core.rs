use resly::clock::now_secs;
use resly::commands::validate_date;
use resly::config::{
    absolute_url, approval_path, approvals_dir, build_runtime, config_path, infer_environment, resly_dir,
    token_cache_path, FileConfig, GlobalOptions, ReslyEnvironment, Runtime,
};
use resly::error::AppError;
use resly::hashing::{hash_string, hex_bytes, payload_hash};
use resly::json::{JsonNumber, JsonValue};
use resly::redact::{
    can_redact, json_can_redact, redact, redact_sensitive_json, redact_sensitive_string,
};
use serde_json::Value;

fn to_value(v: &JsonValue) -> Value {
    match v {
        JsonValue::Null => Value::Null,
        JsonValue::Bool(b) => Value::Bool(*b),
        JsonValue::Number(JsonNumber::PosInt(n)) => Value::from(*n),
        JsonValue::Number(JsonNumber::NegInt(n)) => Value::from(*n),
        JsonValue::Number(JsonNumber::Float(bits)) => Value::from(f64::from_bits(*bits)),
        JsonValue::Str(s) => Value::String(s.clone()),
        JsonValue::Array(items) => Value::Array(items.iter().map(to_value).collect()),
        JsonValue::Object(entries) => {
            let mut map = serde_json::Map::new();
            for (key, value) in entries {
                map.insert(key.clone(), to_value(value));
            }
            Value::Object(map)
        }
    }
}

fn from_value(v: &Value) -> JsonValue {
    match v {
        Value::Null => JsonValue::Null,
        Value::Bool(b) => JsonValue::Bool(*b),
        Value::Number(n) => {
            if let Some(u) = n.as_u64() {
                JsonValue::Number(JsonNumber::PosInt(u))
            } else if let Some(i) = n.as_i64() {
                JsonValue::Number(JsonNumber::NegInt(i))
            } else {
                JsonValue::Number(JsonNumber::Float(n.as_f64().unwrap().to_bits()))
            }
        }
        Value::String(s) => JsonValue::Str(s.clone()),
        Value::Array(items) => JsonValue::Array(items.iter().map(from_value).collect()),
        Value::Object(map) => {
            JsonValue::Object(map.iter().map(|(k, x)| (k.clone(), from_value(x))).collect())
        }
    }
}

fn jv(text: &str) -> JsonValue {
    from_value(&serde_json::from_str(text).unwrap())
}

fn val(text: &str) -> Value {
    serde_json::from_str(text).unwrap()
}

fn assert_error(result: Result<(), AppError>, code: &str, message: &str) {
    let error = result.unwrap_err();
    assert_eq!(error.code, code);
    assert_eq!(error.message, message);
    assert!(!error.retryable);
}

#[test]
fn validates_dates() {
    assert!(validate_date("2026-07-01", "--from").is_ok());
    assert!(validate_date("2026/07/01", "--from").is_err());
}

#[test]
fn redacts_short_values() {
    assert_eq!(redact("secret"), "********");
    assert_eq!(redact("1234567890"), "1234...7890");
}

#[test]
fn date_errors_name_the_option() {
    assert_error(
        validate_date("2026-7-01", "--to"),
        "date.invalid",
        "--to must be formatted as YYYY-MM-DD",
    );
    assert_error(
        validate_date("2026-07-0x", "--from"),
        "date.invalid",
        "--from must be formatted as YYYY-MM-DD",
    );
    assert!(validate_date("0000-00-00", "--from").is_ok());
}

#[test]
fn redaction_edges() {
    assert_eq!(redact(""), "********");
    assert_eq!(redact("12345678"), "********");
    assert_eq!(redact("123456789"), "1234...6789");
    assert!(can_redact("abcdefghij"));
    assert!(can_redact("éé"));
    assert!(!can_redact("aaé€€éaaa"));
}

#[test]
fn redacts_secret_members_at_any_depth() {
    let payload = jv(
        r#"{"url":"https://example.com","basicAuthPassword":"hunter2hunter2",
            "nested":{"API_KEY":"abcdefghijkl","items":[{"accessToken":"short"}]},
            "tokenCount":7}"#,
    );
    assert!(json_can_redact(&payload));
    let redacted = redact_sensitive_json(&payload);
    assert_eq!(
        to_value(&redacted),
        val(
            r#"{"url":"https://example.com","basicAuthPassword":"hunt...ter2",
                "nested":{"API_KEY":"abcd...ijkl","items":[{"accessToken":"********"}]},
                "tokenCount":7}"#
        )
    );
}

#[test]
fn marks_credential_names_in_messages() {
    assert_eq!(
        redact_sensitive_string("bad api_key, access_token; Authorization header"),
        "bad api_key_redacted, access_token_redacted; Authorization-Redacted [redacted]"
    );
    assert_eq!(redact_sensitive_string("nothing here"), "nothing here");
    assert_eq!(redact_sensitive_string("api_key_id=7"), "api_key_redacted_id=7");
}

#[test]
fn hides_credential_values_in_messages() {
    let hidden = redact_sensitive_string(r#"{"api_key":"abcd1234secret"}"#);
    assert_eq!(hidden, r#"{"api_key_redacted":"[redacted]"}"#);
    assert!(!hidden.contains("abcd1234secret"));
    assert_eq!(
        redact_sensitive_string("Authorization: Bearer abc.def\nnext"),
        "Authorization-Redacted: [redacted]\nnext"
    );
    assert_eq!(
        redact_sensitive_string("?access_token=tok123&x=1"),
        "?access_token_redacted=[redacted]&x=1"
    );
    assert_eq!(
        redact_sensitive_string(r#"{"access_token": "t1", "api_key": 99}"#),
        r#"{"access_token_redacted": "[redacted]", "api_key_redacted": [redacted]}"#
    );
}

#[test]
fn hashes_are_sha256_hex() {
    assert_eq!(
        hash_string("abc"),
        "ba7816bf8f01cfea414140de5dae2223b00361a396177a9cb410ff61f20015ad"
    );
    assert_eq!(
        hash_string(""),
        "e3b0c44298fc1c149afbf4c8996fb92427ae41e4649b934ca495991b7852b855"
    );
    assert_eq!(payload_hash("abc"), hash_string("abc"));
    assert_eq!(hex_bytes(&[0, 1, 171, 255]), "0001abff");
}

#[test]
fn environment_follows_base_url() {
    assert_eq!(infer_environment("https://test.api.resly.com.au"), "test");
    assert_eq!(infer_environment("https://api.resly.com.au/"), "production");
    assert_eq!(infer_environment("http://localhost:8080"), "custom");
    assert_eq!(ReslyEnvironment::Test.label(), "test");
    assert_eq!(ReslyEnvironment::Production.base_url(), "https://api.resly.com.au");
}

fn options(fixture: bool, base_url: Option<&str>, account: Option<&str>, key: Option<&str>) -> GlobalOptions {
    GlobalOptions {
        json: false,
        fixture,
        base_url: base_url.map(String::from),
        account_id: account.map(String::from),
        api_key: key.map(String::from),
    }
}

fn empty_file() -> FileConfig {
    FileConfig { account_id: None, api_key: None, base_url: None, environment: None }
}

#[test]
fn runtime_without_credentials_uses_fixtures() {
    let runtime = build_runtime(&options(false, None, None, None), empty_file());
    assert!(runtime.fixture_mode);
    assert_eq!(runtime.base_url, "https://test.api.resly.com.au");
    assert_eq!(runtime.base_url_source, "default");
    assert_eq!(runtime.auth_source, "missing");
    assert_eq!(runtime.environment, "test");
}

#[test]
fn command_line_overrides_the_file() {
    let file = FileConfig {
        account_id: Some("file-account".to_string()),
        api_key: Some("file-key".to_string()),
        base_url: Some("https://api.resly.com.au".to_string()),
        environment: None,
    };
    let runtime = build_runtime(&options(false, None, Some("cli-account"), None), file);
    assert_eq!(runtime.account_id.as_deref(), Some("cli-account"));
    assert_eq!(runtime.api_key.as_deref(), Some("file-key"));
    assert_eq!(runtime.auth_source, "flag-or-env");
    assert_eq!(runtime.base_url_source, "config");
    assert_eq!(runtime.environment, "production");
    assert!(!runtime.fixture_mode);

    let file = FileConfig {
        account_id: Some("a".to_string()),
        api_key: Some("k".to_string()),
        base_url: None,
        environment: Some("staging".to_string()),
    };
    let runtime = build_runtime(&options(true, Some("http://localhost"), None, None), file);
    assert_eq!(runtime.auth_source, "config");
    assert_eq!(runtime.base_url, "http://localhost");
    assert_eq!(runtime.base_url_source, "flag-or-env");
    assert_eq!(runtime.environment, "staging");
    assert!(runtime.fixture_mode);
}

fn runtime_at(base_url: &str) -> Runtime {
    Runtime {
        account_id: None,
        api_key: None,
        base_url: base_url.to_string(),
        environment: "test".to_string(),
        auth_source: "missing",
        base_url_source: "default",
        fixture_mode: true,
    }
}

#[test]
fn absolute_urls() {
    let runtime = runtime_at("https://test.api.resly.com.au//");
    assert_eq!(absolute_url(&runtime, "/rooms"), "https://test.api.resly.com.au/rooms");
    assert_eq!(absolute_url(&runtime, "rooms"), "https://test.api.resly.com.au/rooms");
    assert_eq!(absolute_url(&runtime, "https://other.example/x"), "https://other.example/x");
    assert_eq!(absolute_url(&runtime, "http://other.example/x"), "http://other.example/x");
}

#[test]
fn files_live_under_home() {
    assert_eq!(resly_dir(Some("/home/me")).unwrap(), "/home/me/.resly");
    assert_eq!(config_path(Some("/home/me/")).unwrap(), "/home/me/.resly/config.toml");
    assert_eq!(token_cache_path(Some("/root")).unwrap(), "/root/.resly/token-cache.json");
    assert_eq!(approvals_dir(Some("/root")).unwrap(), "/root/.resly/approvals");
    assert_eq!(
        approval_path(Some("/root"), "apr_1_abc_def").unwrap(),
        "/root/.resly/approvals/apr_1_abc_def.json"
    );
    let missing = config_path(None).unwrap_err();
    assert_eq!(missing.code, "env.missing");
    assert_eq!(missing.message, "HOME is not set");
}

#[test]
fn clock_reads_the_time() {
    let now = now_secs();
    assert!(now > 1_600_000_000);
}
