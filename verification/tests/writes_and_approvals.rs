use resly::approval::{
    approval_status_label, approve_request, check_approval_id, check_approved_operation, create_approval_request,
    mark_approval_used, require_approval_inputs, revoke_request, ApprovalRequest, ApprovalStatus,
    APPROVAL_EXPIRY_SECS,
};
use resly::commands::WebhookType;
use resly::config::Runtime;
use resly::hashing::hash_string;
use resly::json::{JsonNumber, JsonValue};
use resly::outputs::{
    approvals_approve, approvals_list, approvals_revoke, approvals_show, newest_first, preview_write, rates_preview,
};
use resly::writes::{
    approval_public_json, check_rate_payload, check_webhook_delete, enforce_write_environment, preview_only,
    rates_update_mode, webhook_create_payload, webhook_live, webhook_update_payload, write_approved, write_method,
    write_start, WriteMethod, WriteStart,
};
use serde_json::Value;

fn to_value(v: &JsonValue) -> Value {
    match v {
        JsonValue::Null => Value::Null,
        JsonValue::Bool(b) => Value::Bool(*b),
        JsonValue::Number(JsonNumber::PosInt(n)) => Value::from(*n),
        JsonValue::Number(JsonNumber::NegInt(n)) => Value::from(*n),
        JsonValue::Number(JsonNumber::Float(bits)) => Value::from(f64::from_bits(*bits)),
        JsonValue::Str(s) => Value::String(s.clone()),
        JsonValue::Array(items) => Value::Array(items.iter().map(to_value).collect()),
        JsonValue::Object(entries) => {
            let mut map = serde_json::Map::new();
            for (key, value) in entries {
                map.insert(key.clone(), to_value(value));
            }
            Value::Object(map)
        }
    }
}

fn from_value(v: &Value) -> JsonValue {
    match v {
        Value::Null => JsonValue::Null,
        Value::Bool(b) => JsonValue::Bool(*b),
        Value::Number(n) => {
            if let Some(u) = n.as_u64() {
                JsonValue::Number(JsonNumber::PosInt(u))
            } else if let Some(i) = n.as_i64() {
                JsonValue::Number(JsonNumber::NegInt(i))
            } else {
                JsonValue::Number(JsonNumber::Float(n.as_f64().unwrap().to_bits()))
            }
        }
        Value::String(s) => JsonValue::Str(s.clone()),
        Value::Array(items) => JsonValue::Array(items.iter().map(from_value).collect()),
        Value::Object(map) => {
            JsonValue::Object(map.iter().map(|(k, x)| (k.clone(), from_value(x))).collect())
        }
    }
}

fn jv(text: &str) -> JsonValue {
    from_value(&serde_json::from_str(text).unwrap())
}

fn val(text: &str) -> Value {
    serde_json::from_str(text).unwrap()
}


fn runtime(environment: &str, account: Option<&str>) -> Runtime {
    Runtime {
        account_id: account.map(String::from),
        api_key: Some("key-0123456789".to_string()),
        base_url: "https://test.api.resly.com.au".to_string(),
        environment: environment.to_string(),
        auth_source: "config",
        base_url_source: "default",
        fixture_mode: false,
    }
}

const NOW: u64 = 1_780_000_000;
const PAYLOAD: &str = r#"{"url":"https://hooks.example/x","hookType":"reservation","basicAuthPassword":"p4ssw0rd-long"}"#;

fn preview() -> ApprovalRequest {
    create_approval_request(
        &runtime("test", Some("ACC-1")),
        "webhooks.create",
        "POST",
        "/webhooks",
        PAYLOAD,
        &jv(PAYLOAD),
        NOW,
        "00ff00ff00ff",
    )
}

#[test]
fn preview_records_a_pending_request() {
    let a = preview();
    let hash = hash_string(PAYLOAD);
    assert_eq!(a.id, format!("apr_{}_{}_00ff00ff00ff", NOW, &hash[..12]));
    assert_eq!(a.payload_hash, hash);
    assert_eq!(a.status, ApprovalStatus::Pending);
    assert_eq!(a.created_at, NOW);
    assert_eq!(a.expires_at, NOW + APPROVAL_EXPIRY_SECS);
    assert_eq!(APPROVAL_EXPIRY_SECS, 900);
    assert_eq!(a.account_id.as_deref(), Some("ACC-1"));
    assert_eq!(a.approval_token_hash, None);
    assert_eq!(
        to_value(&a.payload_redacted),
        val(r#"{"url":"https://hooks.example/x","hookType":"reservation","basicAuthPassword":"p4ss...long"}"#)
    );
}

#[test]
fn approved_preview_is_applied_once() {
    let operation = "POST /webhooks";
    let (approved, token) = approve_request(preview(), NOW + 10, operation, "abc123").unwrap();
    assert_eq!(token, "rat_abc123");
    assert_eq!(approved.status, ApprovalStatus::Approved);
    assert_eq!(approved.approved_at, Some(NOW + 10));
    assert_eq!(approved.approval_token_hash.as_deref(), Some(hash_string("rat_abc123").as_str()));

    let rt = runtime("test", Some("ACC-1"));
    assert!(check_approved_operation(&approved, &rt, "webhooks.create", "POST", "/webhooks", PAYLOAD, &token, NOW + 20).is_ok());

    let used = mark_approval_used(approved, NOW + 21);
    assert_eq!(used.status, ApprovalStatus::Used);
    assert_eq!(used.used_at, Some(NOW + 21));
    let again = check_approved_operation(&used, &rt, "webhooks.create", "POST", "/webhooks", PAYLOAD, &token, NOW + 22)
        .unwrap_err();
    assert_eq!(again.code, "approval.invalid");
    assert_eq!(again.message, format!("Approval {} is used; approve a fresh preview first", used.id));

    let revoke = revoke_request(used, "the-id").unwrap_err();
    assert_eq!(revoke.code, "approval.invalid");
    assert_eq!(revoke.message, "Approval the-id has already been used and cannot be revoked");
}

#[test]
fn approval_refusals() {
    let pending = preview();
    let id = pending.id.clone();
    let mismatch = approve_request(preview(), NOW, "POST  /webhooks", "aa").unwrap_err();
    assert_eq!(mismatch.code, "approval.confirmation_mismatch");
    assert_eq!(mismatch.message, format!("Expected --confirm-operation \"POST /webhooks\" for approval {}", id));

    let expired = approve_request(preview(), NOW + APPROVAL_EXPIRY_SECS, "POST /webhooks", "aa").unwrap_err();
    assert_eq!(expired.code, "approval.expired");
    assert_eq!(expired.message, format!("Approval {} has expired; run the preview again", id));

    let revoked = revoke_request(pending, &id).unwrap();
    assert_eq!(revoked.status, ApprovalStatus::Revoked);
    let not_pending = approve_request(revoked, NOW, "POST /webhooks", "aa").unwrap_err();
    assert_eq!(not_pending.code, "approval.invalid");
    assert_eq!(not_pending.message, format!("Only pending approvals can be approved; {} is revoked", id));
}

#[test]
fn applied_write_must_match_the_approval() {
    let (approved, token) = approve_request(preview(), NOW, "POST /webhooks", "beef").unwrap();
    let rt = runtime("test", Some("ACC-1"));
    let check = |command: &str, method: &str, path: &str, payload: &str, token: &str, now: u64, rt: &Runtime| {
        check_approved_operation(&approved, rt, command, method, path, payload, token, now).unwrap_err()
    };
    assert_eq!(check("webhooks.update", "POST", "/webhooks", PAYLOAD, &token, NOW, &rt).code, "approval.mismatch");
    assert_eq!(check("webhooks.create", "PATCH", "/webhooks", PAYLOAD, &token, NOW, &rt).code, "approval.mismatch");
    assert_eq!(
        check("webhooks.create", "POST", "/webhooks", PAYLOAD, &token, NOW, &runtime("test", Some("ACC-2"))).code,
        "approval.environment_mismatch"
    );
    assert_eq!(
        check("webhooks.create", "POST", "/webhooks", PAYLOAD, &token, NOW, &runtime("production", Some("ACC-1"))).code,
        "approval.environment_mismatch"
    );
    let tampered = check("webhooks.create", "POST", "/webhooks", "{}", &token, NOW, &rt);
    assert_eq!(tampered.code, "approval.payload_mismatch");
    assert_eq!(tampered.message, "Approval payload hash does not match the payload being applied");
    let wrong_token = check("webhooks.create", "POST", "/webhooks", PAYLOAD, "rat_beee", NOW, &rt);
    assert_eq!(wrong_token.code, "approval.token_mismatch");
    let late = check("webhooks.create", "POST", "/webhooks", PAYLOAD, &token, NOW + APPROVAL_EXPIRY_SECS, &rt);
    assert_eq!(late.code, "approval.expired");
}

#[test]
fn approval_inputs_and_ids() {
    let a = require_approval_inputs(None, Some("t")).unwrap_err();
    assert_eq!(a.code, "approval.required");
    assert_eq!(a.message, "Live writes require --approval-id from a matching preview");
    let b = require_approval_inputs(Some("x"), None).unwrap_err();
    assert_eq!(b.message, "Live writes require --approval-token from resly approvals approve");
    assert!(require_approval_inputs(Some("x"), Some("t")).is_ok());

    assert!(check_approval_id("apr_1780000000_abcdef012345_00ff-x").is_ok());
    let bad = check_approval_id("../etc/passwd").unwrap_err();
    assert_eq!(bad.code, "approval.invalid");
    assert_eq!(bad.message, "Approval IDs may contain only ASCII letters, numbers, '_' and '-'");
    assert_eq!(approval_status_label(&ApprovalStatus::Pending), "pending");
    assert_eq!(approval_status_label(&ApprovalStatus::Used), "used");
}

#[test]
fn public_json_hides_the_token_hash() {
    let (approved, _) = approve_request(preview(), NOW + 5, "POST /webhooks", "cafe").unwrap();
    let shown = to_value(&approval_public_json(&approved, false));
    let expected = format!(
        r#"{{"id":"{id}","status":"approved","command":"webhooks.create","method":"POST","endpoint":"/webhooks",
            "operation":"POST /webhooks","payloadHash":"{hash}","accountId":"ACC-1",
            "baseUrl":"https://test.api.resly.com.au","environment":"test","createdAt":{now},
            "expiresAt":{exp},"approvedAt":{appr},"usedAt":null,
            "approveCommand":"resly approvals approve {id} --confirm-operation 'POST /webhooks'"}}"#,
        id = approved.id,
        hash = approved.payload_hash,
        now = NOW,
        exp = NOW + APPROVAL_EXPIRY_SECS,
        appr = NOW + 5
    );
    assert_eq!(shown, val(&expected));
    let with_payload = to_value(&approval_public_json(&approved, true));
    assert_eq!(with_payload["payloadRedacted"]["basicAuthPassword"], "p4ss...long");
}

#[test]
fn preview_write_output() {
    let rt = runtime("test", Some("ACC-1"));
    let (approval, out) =
        preview_write(&rt, "webhooks.create", "POST", "/webhooks", PAYLOAD, &jv(PAYLOAD), NOW, "0a0b");
    assert_eq!(out.command, "webhooks.create");
    assert_eq!(out.source, "local");
    assert_eq!(
        out.human,
        format!("Prepared POST /webhooks. No live request was sent. Approval request: {}.", approval.id)
    );
    let data = to_value(&out.data);
    assert_eq!(data["live"], false);
    assert_eq!(data["fixtureMode"], false);
    assert_eq!(data["payload"]["basicAuthPassword"], "p4ss...long");
    assert_eq!(data["approval"]["status"], "pending");
    assert_eq!(data["approval"]["id"], approval.id.as_str());
}

#[test]
fn rates_preview_output() {
    let rt = runtime("test", Some("ACC-1"));
    let text = r#"{"echoToken":"e1","restrictions":[{"date":"2026-07-05","rate":100}]}"#;
    let (approval, out) = rates_preview(&rt, "BAR 1", "rates.json", true, text, &jv(text), NOW, "ff");
    assert_eq!(out.command, "rates.update");
    assert_eq!(approval.command, "rates.update");
    assert_eq!(approval.method, "PATCH");
    assert_eq!(approval.path, "/rate-plans/BAR%201/rates-and-restrictions");
    assert_eq!(
        out.human,
        format!(
            "Prepared rates.json rate/restriction update for BAR 1. No live request was sent. Approval request: {}.",
            approval.id
        )
    );
    let data = to_value(&out.data);
    assert_eq!(data["ratePlanId"], "BAR 1");
    assert_eq!(data["endpoint"], "/rate-plans/BAR%201/rates-and-restrictions");
    assert_eq!(data["payload"], val(text));
    let (_, plain) = rates_preview(&rt, "BAR", "r.json", false, text, &jv(text), NOW, "ff");
    assert_eq!(plain.command, "rates.preview");
}

#[test]
fn approval_commands_output() {
    let shown = approvals_show(&preview());
    assert_eq!(shown.human, "POST /webhooks is pending.");
    assert_eq!(shown.command, "approvals.show");

    let (approved, out) = approvals_approve(preview(), NOW + 1, "POST /webhooks", "1234").unwrap();
    assert_eq!(approved.status, ApprovalStatus::Approved);
    assert_eq!(
        out.human,
        format!("Approved POST /webhooks. Token shown once: rat_1234. Use it only with --approval-id {}.", approved.id)
    );
    let data = to_value(&out.data);
    assert_eq!(data["approvalToken"], "rat_1234");
    assert_eq!(data["status"], "approved");
    assert_eq!(data["operation"], "POST /webhooks");
    assert_eq!(
        data["warning"],
        "This token is shown once. Pass it with --approval-id and --approval-token on the matching live command."
    );

    let (revoked, out) = approvals_revoke(approved, "apr_x").unwrap();
    assert_eq!(revoked.status, ApprovalStatus::Revoked);
    assert_eq!(out.human, "Revoked approval apr_x.");
    assert_eq!(to_value(&out.data)["status"], "revoked");
}

#[test]
fn approvals_are_listed_newest_first() {
    assert_eq!(newest_first(&vec![5, 9, 5, 7, 9]), vec![1, 4, 3, 0, 2]);
    assert_eq!(newest_first(&vec![]), Vec::<usize>::new());

    let mut older = preview();
    older.created_at = 10;
    older.id = "older".to_string();
    let mut newer = preview();
    newer.created_at = 20;
    newer.id = "newer".to_string();
    let out = approvals_list(&vec![older, newer]);
    assert_eq!(out.human, "Found 2 local write approval request(s).");
    let data = to_value(&out.data);
    assert_eq!(data["approvals"][0]["id"], "newer");
    assert_eq!(data["approvals"][1]["id"], "older");
    assert!(data["approvals"][0].get("payloadRedacted").is_none());
    assert_eq!(approvals_list(&vec![]).human, "Found 0 local write approval request(s).");
}

#[test]
fn production_write_gate() {
    let prod = runtime("production", Some("ACC-9"));
    let refuse = |ca: Option<&str>, ce: Option<&str>, allow: Option<&str>| {
        enforce_write_environment(&prod, ca, ce, allow).unwrap_err()
    };
    let e = refuse(Some("ACC-9"), Some("production"), None);
    assert_eq!(e.code, "write.refused");
    assert_eq!(e.message, "Production writes require RESLY_ALLOW_PRODUCTION_WRITES=1");
    assert_eq!(refuse(Some("ACC-9"), Some("production"), Some("true")).code, "write.refused");
    let e = refuse(Some("ACC-8"), Some("production"), Some("1"));
    assert_eq!(e.message, "Production writes require --confirm-account matching the configured account ID");
    let e = refuse(Some("ACC-9"), Some("test"), Some("1"));
    assert_eq!(e.message, "Production writes require --confirm-environment production");
    let e = enforce_write_environment(&runtime("production", None), None, None, Some("1")).unwrap_err();
    assert_eq!(e.code, "auth.missing");
    assert_eq!(e.message, "Production writes require an account ID");
    assert!(enforce_write_environment(&prod, Some("ACC-9"), Some("production"), Some("1")).is_ok());
    assert!(enforce_write_environment(&runtime("test", None), None, None, None).is_ok());

    let mut mislabelled = runtime("test", Some("acc"));
    mislabelled.base_url = "https://api.resly.com.au".to_string();
    let e = enforce_write_environment(&mislabelled, None, None, None).unwrap_err();
    assert_eq!(e.code, "write.refused");
    assert_eq!(e.message, "Production writes require RESLY_ALLOW_PRODUCTION_WRITES=1");
    assert!(enforce_write_environment(&mislabelled, Some("acc"), Some("production"), Some("1")).is_ok());
}

#[test]
fn write_modes() {
    assert!(preview_only(false, false));
    assert!(preview_only(true, true));
    assert!(!preview_only(true, false));
    assert!(webhook_live(true, false));
    assert!(!webhook_live(true, true));
    let prod = "https://api.resly.com.au";
    let test = "https://test.api.resly.com.au";
    assert_eq!(rates_update_mode(false, false, true, prod, "production").unwrap(), true);
    assert_eq!(rates_update_mode(true, true, false, test, "test").unwrap(), true);
    assert_eq!(rates_update_mode(true, false, false, prod, "production").unwrap(), false);
    assert_eq!(rates_update_mode(true, false, false, prod, "test").unwrap(), false);
    let e = rates_update_mode(true, false, true, prod, "production").unwrap_err();
    assert_eq!(e.code, "write.refused");
    assert_eq!(e.message, "--test-only only permits writes against https://test.api.resly.com.au");
    assert_eq!(rates_update_mode(true, false, true, test, "test").unwrap(), false);
    let e = rates_update_mode(true, false, false, test, "test").unwrap_err();
    assert_eq!(e.code, "write.refused");
    assert_eq!(e.message, "Live test-environment rate updates require --test-only");
    assert_eq!(rates_update_mode(true, false, false, "http://localhost:9", "custom").unwrap(), false);
    let e = rates_update_mode(true, false, false, "http://localhost:9", "test").unwrap_err();
    assert_eq!(e.message, "Live test-environment rate updates require --test-only");

    let e = check_webhook_delete(true, false, false, Some("W2"), "W1").unwrap_err();
    assert_eq!(e.message, "Live webhook deletes require --confirm-delete matching the webhook ID");
    assert!(check_webhook_delete(true, false, false, Some("W1"), "W1").is_ok());
    assert!(check_webhook_delete(true, true, false, None, "W1").is_ok());
    assert!(check_webhook_delete(true, false, true, None, "W1").is_ok());

    assert_eq!(write_method("POST").unwrap(), WriteMethod::Post);
    assert_eq!(write_method("PATCH").unwrap(), WriteMethod::Patch);
    assert_eq!(write_method("DELETE").unwrap(), WriteMethod::Delete);
    let e = write_method("PUT").unwrap_err();
    assert_eq!(e.code, "method.unsupported");
    assert_eq!(e.message, "PUT");
}

#[test]
fn webhook_payloads() {
    let created = webhook_create_payload(
        "https://h.example",
        WebhookType::Blocks,
        &Some("user".to_string()),
        &None,
    );
    assert_eq!(
        to_value(&created),
        val(r#"{"url":"https://h.example","hookType":"blocks","basicAuthUsername":"user"}"#)
    );
    let updated = webhook_update_payload(&None, Some(WebhookType::RoomTypes)).unwrap();
    assert_eq!(to_value(&updated), val(r#"{"hookType":"roomTypes"}"#));
    let e = webhook_update_payload(&None, None).unwrap_err();
    assert_eq!(e.code, "input.missing");
    assert_eq!(e.message, "Provide --url or --type for webhook update");
}

#[test]
fn rate_payload_checks() {
    let ok = jv(r#"{"echoToken":"t","restrictions":[{"date":"2026-07-05"}]}"#);
    assert!(check_rate_payload(&ok).is_ok());
    let cases = [
        (r#"{"echoToken":"t"}"#, "payload.invalid", "Rate update requires restrictions[]"),
        (r#"{"echoToken":"t","restrictions":[]}"#, "payload.invalid", "Rate update requires at least one restriction"),
        (r#"{"echoToken":"t","restrictions":[{"date":"2026-07-05"},{"rate":1}]}"#, "payload.invalid", "Each restriction requires date"),
        (r#"{"echoToken":"t","restrictions":[{"date":"07/05/2026"}]}"#, "date.invalid", "restriction.date must be formatted as YYYY-MM-DD"),
        (r#"{"restrictions":[{"date":"2026-07-05"}]}"#, "payload.invalid", "Rate update requires echoToken"),
    ];
    for (text, code, message) in cases {
        let e = check_rate_payload(&jv(text)).unwrap_err();
        assert_eq!(e.code, code);
        assert_eq!(e.message, message);
    }
}

fn start(
    rt: &Runtime,
    live: bool,
    test_only: Option<bool>,
    delete: Option<(&str, Option<&str>)>,
    confirm: (Option<&str>, Option<&str>, Option<&str>),
    approval: (Option<&str>, Option<&str>),
) -> Result<WriteStart, resly::error::AppError> {
    write_start(
        rt,
        live,
        test_only,
        delete.map(|d| d.0),
        delete.and_then(|d| d.1),
        confirm.0,
        confirm.1,
        confirm.2,
        approval.0,
        approval.1,
    )
}

#[test]
fn live_writes_go_through_every_check_in_order() {
    let rt = runtime("test", Some("ACC-1"));
    let none = (None, None, None);
    assert!(matches!(start(&rt, false, None, None, none, (None, None)), Ok(WriteStart::Preview)));
    let mut fixture = runtime("test", Some("ACC-1"));
    fixture.fixture_mode = true;
    assert!(matches!(start(&fixture, true, Some(false), None, none, (None, None)), Ok(WriteStart::Preview)));

    let e = start(&rt, true, None, Some(("W1", Some("W2"))), none, (Some("a"), Some("t"))).unwrap_err();
    assert_eq!(e.message, "Live webhook deletes require --confirm-delete matching the webhook ID");
    let e = start(&rt, true, Some(false), None, none, (Some("a"), Some("t"))).unwrap_err();
    assert_eq!(e.message, "Live test-environment rate updates require --test-only");
    let prod = runtime("production", Some("ACC-1"));
    let e = start(&prod, true, None, None, none, (Some("a"), Some("t"))).unwrap_err();
    assert_eq!(e.message, "Production writes require RESLY_ALLOW_PRODUCTION_WRITES=1");
    let e = start(&rt, true, Some(true), None, none, (None, Some("t"))).unwrap_err();
    assert_eq!(e.message, "Live writes require --approval-id from a matching preview");
    let e = start(&rt, true, None, None, none, (Some("a"), None)).unwrap_err();
    assert_eq!(e.message, "Live writes require --approval-token from resly approvals approve");
    let e = start(&rt, true, None, None, none, (Some("../x"), Some("t"))).unwrap_err();
    assert_eq!(e.code, "approval.invalid");
    match start(&rt, true, Some(true), None, none, (Some("apr_1"), Some("rat_2"))).unwrap() {
        WriteStart::ReadApproval { id, token } => assert_eq!((id.as_str(), token.as_str()), ("apr_1", "rat_2")),
        WriteStart::Preview => panic!("expected a live write"),
    }
    match start(&prod, true, None, Some(("W1", Some("W1"))), (Some("ACC-1"), Some("production"), Some("1")), (Some("a"), Some("t"))).unwrap() {
        WriteStart::ReadApproval { id, .. } => assert_eq!(id, "a"),
        WriteStart::Preview => panic!("expected a live write"),
    }
}

#[test]
fn approved_write_gives_its_method() {
    let (approved, token) = approve_request(preview(), NOW, "POST /webhooks", "beef").unwrap();
    let rt = runtime("test", Some("ACC-1"));
    let m = write_approved(&approved, &rt, "webhooks.create", "POST", "/webhooks", PAYLOAD, &token, NOW + 1).unwrap();
    assert_eq!(m, WriteMethod::Post);
    let e = write_approved(&approved, &rt, "webhooks.create", "POST", "/webhooks", PAYLOAD, "rat_x", NOW + 1).unwrap_err();
    assert_eq!(e.code, "approval.token_mismatch");
}
