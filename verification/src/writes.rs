use vstd::prelude::*;
use crate::approval::{
    ApprovalModel, ApprovalRequest, approval_status_label, check_approval_id, check_approved_operation, id_char,
    require_approval_inputs, spec_check_refusal, spec_operation, spec_status_label,
};
use crate::commands::{CommandOutput, WebhookType, date_shaped, validate_date};
use crate::config::{Runtime, infer_environment, opt_view, spec_infer_environment};
use crate::error::{AppError, is_error};
use crate::json::{
    Json, JsonNumber, JsonValue, entries_model, get_array, get_str, items_model, json_str, json_u64,
    lemma_items_model, lemma_lookup_none, push_entry, set_member, set_entry_in, is_key_at, lemma_lookup_at,
    lemma_set_entry_same, lemma_set_entry_other, set_entry,
};
use crate::redact::{clone_json, json_redactable, redact_sensitive_json, redacted_json};
use crate::text::str_eq;

verus! {

/// An optional text as JSON: the text, or `null`.
pub open spec fn opt_text_json(o: Option<Seq<char>>) -> Json {
    match o {
        Some(s) => Json::Str(s),
        None => Json::Null,
    }
}

/// An optional time as JSON: the number, or `null`.
pub open spec fn opt_time_json(o: Option<u64>) -> Json {
    match o {
        Some(t) => Json::Number(JsonNumber::PosInt(t)),
        None => Json::Null,
    }
}

/// The command that approves the request, as the preview prints it.
pub open spec fn spec_approve_command(a: ApprovalModel) -> Seq<char> {
    "resly approvals approve "@ + a.id + " --confirm-operation '"@ + a.method + " "@ + a.path + "'"@
}

/// What may be shown of an approval request: everything but the token
/// hash, with the operation and the command that approves it; the redacted
/// payload only when asked for.
pub open spec fn spec_public_json(a: ApprovalModel, include_payload: bool) -> Json {
    let fields = seq![
        ("id"@, Json::Str(a.id)),
        ("status"@, Json::Str(spec_status_label(a.status))),
        ("command"@, Json::Str(a.command)),
        ("method"@, Json::Str(a.method)),
        ("endpoint"@, Json::Str(a.path)),
        ("operation"@, Json::Str(spec_operation(a))),
        ("payloadHash"@, Json::Str(a.payload_hash)),
        ("accountId"@, opt_text_json(a.account_id)),
        ("baseUrl"@, Json::Str(a.base_url)),
        ("environment"@, Json::Str(a.environment)),
        ("createdAt"@, Json::Number(JsonNumber::PosInt(a.created_at))),
        ("expiresAt"@, Json::Number(JsonNumber::PosInt(a.expires_at))),
        ("approvedAt"@, opt_time_json(a.approved_at)),
        ("usedAt"@, opt_time_json(a.used_at)),
        ("approveCommand"@, Json::Str(spec_approve_command(a))),
    ];
    Json::Object(
        if include_payload {
            fields.push(("payloadRedacted"@, a.payload_redacted))
        } else {
            fields
        },
    )
}

fn opt_text(o: &Option<String>) -> (r: JsonValue)
    ensures
        r@ == opt_text_json(opt_view(*o)),
{
    match o {
        Some(s) => json_str(s.as_str()),
        None => JsonValue::Null,
    }
}

fn opt_time(o: Option<u64>) -> (r: JsonValue)
    ensures
        r@ == opt_time_json(o),
{
    match o {
        Some(t) => json_u64(t),
        None => JsonValue::Null,
    }
}

/// The JSON that shows an approval request.
pub fn approval_public_json(approval: &ApprovalRequest, include_payload: bool) -> (r: JsonValue)
    ensures
        r@ == spec_public_json(approval@, include_payload),
{
    let mut operation = approval.method.clone();
    operation.append(" ");
    operation.append(approval.path.as_str());
    let mut approve = String::from_str("resly approvals approve ");
    approve.append(approval.id.as_str());
    approve.append(" --confirm-operation '");
    approve.append(approval.method.as_str());
    approve.append(" ");
    approve.append(approval.path.as_str());
    approve.append("'");
    let mut e: Vec<(String, JsonValue)> = Vec::new();
    push_entry(&mut e, "id", json_str(approval.id.as_str()));
    push_entry(&mut e, "status", json_str(approval_status_label(&approval.status)));
    push_entry(&mut e, "command", json_str(approval.command.as_str()));
    push_entry(&mut e, "method", json_str(approval.method.as_str()));
    push_entry(&mut e, "endpoint", json_str(approval.path.as_str()));
    push_entry(&mut e, "operation", json_str(operation.as_str()));
    push_entry(&mut e, "payloadHash", json_str(approval.payload_hash.as_str()));
    push_entry(&mut e, "accountId", opt_text(&approval.account_id));
    push_entry(&mut e, "baseUrl", json_str(approval.base_url.as_str()));
    push_entry(&mut e, "environment", json_str(approval.environment.as_str()));
    push_entry(&mut e, "createdAt", json_u64(approval.created_at));
    push_entry(&mut e, "expiresAt", json_u64(approval.expires_at));
    push_entry(&mut e, "approvedAt", opt_time(approval.approved_at));
    push_entry(&mut e, "usedAt", opt_time(approval.used_at));
    push_entry(&mut e, "approveCommand", json_str(approve.as_str()));
    if include_payload {
        push_entry(&mut e, "payloadRedacted", clone_json(&approval.payload_redacted));
    }
    proof {
        let want = spec_public_json(approval@, include_payload);
        assert(entries_model(e@) =~= want->Object_0);
    }
    JsonValue::Object(e)
}

/// Whether a write is aimed at production: the runtime's environment is
/// `production`, or its base URL points at the production API (see
/// `spec_infer_environment`), whatever the environment is called.
pub open spec fn production_target(environment: Seq<char>, base_url: Seq<char>) -> bool {
    environment == "production"@ || spec_infer_environment(base_url) == "production"@
}

/// Why a write is refused by the production gate, or none. A write that is
/// not aimed at production is not asked anything; one that is needs the
/// opt-in variable set to `1`, a known account that is confirmed, and the
/// environment confirmed as `production`.
pub open spec fn spec_write_environment_refusal(
    environment: Seq<char>,
    base_url: Seq<char>,
    account_id: Option<Seq<char>>,
    confirm_account: Option<Seq<char>>,
    confirm_environment: Option<Seq<char>>,
    allow_production_writes: Option<Seq<char>>,
) -> Option<(Seq<char>, Seq<char>)> {
    if !production_target(environment, base_url) {
        None
    } else if allow_production_writes != Some("1"@) {
        Some(("write.refused"@, "Production writes require RESLY_ALLOW_PRODUCTION_WRITES=1"@))
    } else if account_id is None {
        Some(("auth.missing"@, "Production writes require an account ID"@))
    } else if confirm_account != account_id {
        Some(
            (
                "write.refused"@,
                "Production writes require --confirm-account matching the configured account ID"@,
            ),
        )
    } else if confirm_environment != Some("production"@) {
        Some(("write.refused"@, "Production writes require --confirm-environment production"@))
    } else {
        None
    }
}

/// Whether a write is aimed at production.
pub fn is_production_target(runtime: &Runtime) -> (r: bool)
    ensures
        r == production_target(runtime.environment@, runtime.base_url@),
{
    str_eq(runtime.environment.as_str(), "production") || str_eq(
        infer_environment(runtime.base_url.as_str()),
        "production",
    )
}

/// The view of an optional text slice.
pub open spec fn opt_str(o: Option<&str>) -> Option<Seq<char>> {
    match o {
        Some(s) => Some(s@),
        None => None,
    }
}

fn opt_str_is(o: Option<&str>, s: &str) -> (r: bool)
    ensures
        r == (opt_str(o) == Some(s@)),
{
    match o {
        Some(x) => str_eq(x, s),
        None => false,
    }
}

/// The production gate of live writes; `allow_production_writes` is the
/// value of `RESLY_ALLOW_PRODUCTION_WRITES`, if set.
pub fn enforce_write_environment(
    runtime: &Runtime,
    confirm_account: Option<&str>,
    confirm_environment: Option<&str>,
    allow_production_writes: Option<&str>,
) -> (r: Result<(), AppError>)
    ensures
        match spec_write_environment_refusal(
            runtime.environment@,
            runtime.base_url@,
            opt_view(runtime.account_id),
            opt_str(confirm_account),
            opt_str(confirm_environment),
            opt_str(allow_production_writes),
        ) {
            Some((code, message)) => r matches Err(e) && is_error(e, code, message),
            None => r is Ok,
        },
{
    if !is_production_target(runtime) {
        return Ok(());
    }
    if !opt_str_is(allow_production_writes, "1") {
        return Err(AppError::new("write.refused", "Production writes require RESLY_ALLOW_PRODUCTION_WRITES=1"));
    }
    let account_id = match &runtime.account_id {
        Some(a) => a,
        None => {
            return Err(AppError::new("auth.missing", "Production writes require an account ID"));
        },
    };
    if !opt_str_is(confirm_account, account_id.as_str()) {
        return Err(
            AppError::new(
                "write.refused",
                "Production writes require --confirm-account matching the configured account ID",
            ),
        );
    }
    if !opt_str_is(confirm_environment, "production") {
        return Err(AppError::new("write.refused", "Production writes require --confirm-environment production"));
    }
    Ok(())
}

/// A write to production, by its environment or by its base URL, is let
/// through only when `RESLY_ALLOW_PRODUCTION_WRITES` is `1`, the configured
/// account is confirmed, and `production` is confirmed.
pub proof fn law_production_write_gate(
    environment: Seq<char>,
    base_url: Seq<char>,
    account_id: Option<Seq<char>>,
    confirm_account: Option<Seq<char>>,
    confirm_environment: Option<Seq<char>>,
    allow_production_writes: Option<Seq<char>>,
)
    requires
        production_target(environment, base_url),
        spec_write_environment_refusal(
            environment,
            base_url,
            account_id,
            confirm_account,
            confirm_environment,
            allow_production_writes,
        ) is None,
    ensures
        allow_production_writes == Some("1"@),
        account_id is Some,
        confirm_account == account_id,
        confirm_environment == Some("production"@),
{
}

/// Whether a write command only previews: it was not asked to go live, or
/// the CLI runs on fixtures.
pub open spec fn spec_preview_only(live: bool, fixture_mode: bool) -> bool {
    !live || fixture_mode
}

/// Whether a write command only previews.
pub fn preview_only(live: bool, fixture_mode: bool) -> (r: bool)
    ensures
        r == spec_preview_only(live, fixture_mode),
{
    !live || fixture_mode
}

/// Whether a webhook command asks to go live: `--live` without `--dry-run`.
pub fn webhook_live(live: bool, dry_run: bool) -> (r: bool)
    ensures
        r == (live && !dry_run),
{
    live && !dry_run
}

/// Whether a write is aimed at the test environment: not at production,
/// and the runtime's environment is `test` or its base URL points at the
/// test API (see `spec_infer_environment`).
pub open spec fn test_target(environment: Seq<char>, base_url: Seq<char>) -> bool {
    !production_target(environment, base_url) && (environment == "test"@ || spec_infer_environment(base_url)
        == "test"@)
}

/// Why a live rate update is refused before its approval is looked at, or
/// none: `--test-only` permits only the test API, and a live update aimed at
/// the test environment must be marked `--test-only`. A custom base URL is
/// not asked for the flag.
pub open spec fn spec_rate_mode_refusal(test_only: bool, base_url: Seq<char>, environment: Seq<char>) -> Option<
    (Seq<char>, Seq<char>),
> {
    if test_only && base_url != "https://test.api.resly.com.au"@ {
        Some(("write.refused"@, "--test-only only permits writes against https://test.api.resly.com.au"@))
    } else if !test_only && test_target(environment, base_url) {
        Some(("write.refused"@, "Live test-environment rate updates require --test-only"@))
    } else {
        None
    }
}

/// Whether a `rates update` only previews (`Ok(true)`), may go on to its
/// live checks (`Ok(false)`), or is refused (see `spec_rate_mode_refusal`).
pub fn rates_update_mode(
    live: bool,
    fixture_mode: bool,
    test_only: bool,
    base_url: &str,
    environment: &str,
) -> (r: Result<bool, AppError>)
    ensures
        spec_preview_only(live, fixture_mode) ==> r == Ok::<bool, AppError>(true),
        !spec_preview_only(live, fixture_mode) ==> match spec_rate_mode_refusal(test_only, base_url@, environment@) {
            Some((code, message)) => r matches Err(e) && is_error(e, code, message),
            None => r == Ok::<bool, AppError>(false),
        },
{
    if preview_only(live, fixture_mode) {
        return Ok(true);
    }
    if test_only && !str_eq(base_url, "https://test.api.resly.com.au") {
        return Err(
            AppError::new("write.refused", "--test-only only permits writes against https://test.api.resly.com.au"),
        );
    }
    let inferred = infer_environment(base_url);
    let production = str_eq(environment, "production") || str_eq(inferred, "production");
    let test = !production && (str_eq(environment, "test") || str_eq(inferred, "test"));
    if !test_only && test {
        return Err(AppError::new("write.refused", "Live test-environment rate updates require --test-only"));
    }
    Ok(false)
}

/// Refuses a live webhook delete unless `--confirm-delete` names the webhook.
pub fn check_webhook_delete(
    live: bool,
    dry_run: bool,
    fixture_mode: bool,
    confirm_delete: Option<&str>,
    id: &str,
) -> (r: Result<(), AppError>)
    ensures
        (live && !dry_run && !fixture_mode && opt_str(confirm_delete) != Some(id@)) ==> (r matches Err(e)
            && is_error(e, "write.refused"@, "Live webhook deletes require --confirm-delete matching the webhook ID"@)),
        !(live && !dry_run && !fixture_mode && opt_str(confirm_delete) != Some(id@)) ==> r is Ok,
{
    if live && !dry_run && !fixture_mode && !opt_str_is(confirm_delete, id) {
        return Err(
            AppError::new("write.refused", "Live webhook deletes require --confirm-delete matching the webhook ID"),
        );
    }
    Ok(())
}

/// The HTTP methods a live write can use.
#[derive(Clone, Copy, PartialEq, Eq, Debug)]
pub enum WriteMethod {
    Post,
    Patch,
    Delete,
}

/// The live request for a method name, or `method.unsupported`.
pub fn write_method(method: &str) -> (r: Result<WriteMethod, AppError>)
    ensures
        method@ == "POST"@ ==> r == Ok::<WriteMethod, AppError>(WriteMethod::Post),
        method@ == "PATCH"@ ==> r == Ok::<WriteMethod, AppError>(WriteMethod::Patch),
        method@ == "DELETE"@ ==> r == Ok::<WriteMethod, AppError>(WriteMethod::Delete),
        method@ != "POST"@ && method@ != "PATCH"@ && method@ != "DELETE"@ ==> (r matches Err(e) && is_error(
            e,
            "method.unsupported"@,
            method@,
        )),
{
    proof {
        reveal_strlit("POST");
        reveal_strlit("PATCH");
        reveal_strlit("DELETE");
        assert("PATCH"@ != "POST"@) by {
            assert("PATCH"@[1] != "POST"@[1]);
        }
        assert("DELETE"@ != "POST"@) by {
            assert("DELETE"@[0] != "POST"@[0]);
        }
        assert("DELETE"@ != "PATCH"@) by {
            assert("DELETE"@[0] != "PATCH"@[0]);
        }
    }
    if str_eq(method, "POST") {
        Ok(WriteMethod::Post)
    } else if str_eq(method, "PATCH") {
        Ok(WriteMethod::Patch)
    } else if str_eq(method, "DELETE") {
        Ok(WriteMethod::Delete)
    } else {
        Err(AppError::new("method.unsupported", method))
    }
}

/// The body of `webhooks create`: the URL and the type, then the basic-auth
/// user name and password when given.
pub open spec fn spec_webhook_create_payload(
    url: Seq<char>,
    hook_type: WebhookType,
    username: Option<Seq<char>>,
    password: Option<Seq<char>>,
) -> Json {
    let base = Json::Object(seq![("url"@, Json::Str(url)), ("hookType"@, Json::Str(hook_type.spec_api_value()))]);
    let with_user = match username {
        Some(u) => set_member(base, "basicAuthUsername"@, Json::Str(u)),
        None => base,
    };
    match password {
        Some(p) => set_member(with_user, "basicAuthPassword"@, Json::Str(p)),
        None => with_user,
    }
}

/// The body of a webhook creation.
pub fn webhook_create_payload(
    url: &str,
    hook_type: WebhookType,
    basic_auth_username: &Option<String>,
    basic_auth_password: &Option<String>,
) -> (r: JsonValue)
    ensures
        r@ == spec_webhook_create_payload(url@, hook_type, opt_view(*basic_auth_username), opt_view(*basic_auth_password)),
{
    let mut e: Vec<(String, JsonValue)> = Vec::new();
    push_entry(&mut e, "url", json_str(url));
    push_entry(&mut e, "hookType", json_str(hook_type.api_value()));
    assert(entries_model(e@) =~= seq![("url"@, Json::Str(url@)), ("hookType"@, Json::Str(hook_type.spec_api_value()))]);
    match basic_auth_username {
        Some(u) => set_entry_in(&mut e, "basicAuthUsername", json_str(u.as_str())),
        None => {},
    }
    match basic_auth_password {
        Some(p) => set_entry_in(&mut e, "basicAuthPassword", json_str(p.as_str())),
        None => {},
    }
    JsonValue::Object(e)
}

/// The body of a webhook update: the URL, then the API's name of the type,
/// each only when given.
pub open spec fn spec_webhook_update_payload(url: Option<Seq<char>>, hook_type: Option<WebhookType>) -> Json {
    Json::Object(
        match url {
            Some(u) => seq![("url"@, Json::Str(u))],
            None => Seq::empty(),
        } + match hook_type {
            Some(t) => seq![("hookType"@, Json::Str(t.spec_api_value()))],
            None => Seq::empty(),
        },
    )
}

/// The body of `webhooks update`: the URL and the type that were given, or
/// `input.missing` when neither was.
pub fn webhook_update_payload(url: &Option<String>, hook_type: Option<WebhookType>) -> (r: Result<JsonValue, AppError>)
    ensures
        url is None && hook_type is None ==> (r matches Err(e) && is_error(
            e,
            "input.missing"@,
            "Provide --url or --type for webhook update"@,
        )),
        !(url is None && hook_type is None) ==> (r matches Ok(v) && v@ == spec_webhook_update_payload(
            opt_view(*url),
            hook_type,
        )),
{
    let mut e: Vec<(String, JsonValue)> = Vec::new();
    match url {
        Some(u) => push_entry(&mut e, "url", json_str(u.as_str())),
        None => {},
    }
    match hook_type {
        Some(t) => push_entry(&mut e, "hookType", json_str(t.api_value())),
        None => {},
    }
    if e.len() == 0 {
        return Err(AppError::new("input.missing", "Provide --url or --type for webhook update"));
    }
    proof {
        let want = match opt_view(*url) {
            Some(u) => seq![("url"@, Json::Str(u))],
            None => Seq::empty(),
        } + match hook_type {
            Some(t) => seq![("hookType"@, Json::Str(t.spec_api_value()))],
            None => Seq::empty(),
        };
        assert(entries_model(e@) =~= want);
    }
    Ok(JsonValue::Object(e))
}

/// Whether a restriction has a text `date` in the form `YYYY-MM-DD`.
pub open spec fn restriction_ok(item: Json) -> bool {
    match get_str(item, "date"@) {
        Some(d) => date_shaped(d),
        None => false,
    }
}

/// Why a rate update payload is refused, or none: it needs a non-empty
/// `restrictions` array, a well-formed `date` in each restriction (the
/// first bad one is reported), and a text `echoToken`.
pub open spec fn spec_rate_payload_refusal(payload: Json) -> Option<(Seq<char>, Seq<char>)> {
    match get_array(payload, "restrictions"@) {
        None => Some(("payload.invalid"@, "Rate update requires restrictions[]"@)),
        Some(items) => if items.len() == 0 {
            Some(("payload.invalid"@, "Rate update requires at least one restriction"@))
        } else if exists|i: int| 0 <= i < items.len() && !restriction_ok(items[i]) {
            let i = choose|i: int|
                0 <= i < items.len() && !restriction_ok(items[i]) && forall|j: int| 0 <= j < i ==> restriction_ok(items[j]);
            match get_str(items[i], "date"@) {
                None => Some(("payload.invalid"@, "Each restriction requires date"@)),
                Some(_) => Some(("date.invalid"@, "restriction.date"@ + " must be formatted as YYYY-MM-DD"@)),
            }
        } else if get_str(payload, "echoToken"@) is None {
            Some(("payload.invalid"@, "Rate update requires echoToken"@))
        } else {
            None
        },
    }
}

proof fn lemma_first_bad(items: Seq<Json>, i: int)
    requires
        0 <= i < items.len(),
        !restriction_ok(items[i]),
        forall|j: int| 0 <= j < i ==> restriction_ok(items[j]),
    ensures
        (choose|k: int|
            0 <= k < items.len() && !restriction_ok(items[k]) && forall|j: int| 0 <= j < k ==> restriction_ok(items[j]))
            == i,
{
    let k = choose|k: int|
        0 <= k < items.len() && !restriction_ok(items[k]) && forall|j: int| 0 <= j < k ==> restriction_ok(items[j]);
    assert(0 <= k < items.len() && !restriction_ok(items[k]) && forall|j: int| 0 <= j < k ==> restriction_ok(items[j]));
    if k < i {
        assert(restriction_ok(items[k]));
    } else if k > i {
        assert(restriction_ok(items[i]));
    }
}

/// Checks the payload of a rate update before it is previewed or applied.
pub fn check_rate_payload(payload: &JsonValue) -> (r: Result<(), AppError>)
    ensures
        match spec_rate_payload_refusal(payload@) {
            Some((code, message)) => r matches Err(e) && is_error(e, code, message),
            None => r is Ok,
        },
{
    let items = match payload.get("restrictions") {
        Some(v) => match v.as_array() {
            Some(items) => items,
            None => {
                return Err(AppError::new("payload.invalid", "Rate update requires restrictions[]"));
            },
        },
        None => {
            return Err(AppError::new("payload.invalid", "Rate update requires restrictions[]"));
        },
    };
    let ghost m = items_model(items@);
    proof {
        lemma_items_model(items@);
    }
    if items.len() == 0 {
        return Err(AppError::new("payload.invalid", "Rate update requires at least one restriction"));
    }
    let mut i: usize = 0;
    while i < items.len()
        invariant
            i <= items@.len(),
            m == items_model(items@),
            m.len() == items@.len(),
            m.len() > 0,
            get_array(payload@, "restrictions"@) == Some(m),
            forall|j: int| 0 <= j < items@.len() ==> #[trigger] m[j] == items@[j]@,
            forall|j: int| 0 <= j < i ==> restriction_ok(#[trigger] m[j]),
        decreases items@.len() - i,
    {
        let date = match items[i].get("date") {
            Some(d) => d.as_str(),
            None => None,
        };
        match date {
            Some(d) => {
                assert(get_str(m[i as int], "date"@) == Some(d@));
                if validate_date(d, "restriction.date").is_err() {
                    proof {
                        assert(get_str(m[i as int], "date"@) == Some(d@));
                        assert(!restriction_ok(m[i as int]));
                        lemma_first_bad(m, i as int);
                        assert(exists|k: int| 0 <= k < m.len() && !restriction_ok(m[k]));
                    }
                    return validate_date(d, "restriction.date");
                }
            },
            None => {
                proof {
                    assert(get_str(m[i as int], "date"@) is None);
                    assert(!restriction_ok(m[i as int]));
                    lemma_first_bad(m, i as int);
                    assert(exists|k: int| 0 <= k < m.len() && !restriction_ok(m[k]));
                }
                return Err(AppError::new("payload.invalid", "Each restriction requires date"));
            },
        }
        i = i + 1;
    }
    let has_echo = match payload.get("echoToken") {
        Some(v) => v.as_str().is_some(),
        None => false,
    };
    if !has_echo {
        return Err(AppError::new("payload.invalid", "Rate update requires echoToken"));
    }
    Ok(())
}

/// What is shown of an approval request never holds the hash of its token,
/// with or without the payload.
pub proof fn law_public_json_hides_token_hash(a: ApprovalModel, include_payload: bool)
    ensures
        spec_public_json(a, include_payload).get("approvalTokenHash"@) is None,
        spec_public_json(a, include_payload).get("approvalToken"@) is None,
{
    reveal_strlit("approvalTokenHash");
    reveal_strlit("approvalToken");
    reveal_strlit("id");
    reveal_strlit("status");
    reveal_strlit("command");
    reveal_strlit("method");
    reveal_strlit("endpoint");
    reveal_strlit("operation");
    reveal_strlit("payloadHash");
    reveal_strlit("accountId");
    reveal_strlit("baseUrl");
    reveal_strlit("environment");
    reveal_strlit("createdAt");
    reveal_strlit("expiresAt");
    reveal_strlit("approvedAt");
    reveal_strlit("usedAt");
    reveal_strlit("approveCommand");
    reveal_strlit("payloadRedacted");
    let entries = spec_public_json(a, include_payload)->Object_0;
    assert forall|j: int| 0 <= j < entries.len() implies entries[j].0 != "approvalTokenHash"@
        && entries[j].0 != "approvalToken"@ by {
        assert(entries[j].0.len() != "approvalTokenHash"@.len());
        if entries[j].0.len() == "approvalToken"@.len() {
            assert(entries[j].0 == "payloadHash"@ || entries[j].0 == "environment"@);
            assert(entries[j].0[0] != "approvalToken"@[0]);
        }
    }
    lemma_lookup_none(entries, "approvalTokenHash"@);
    lemma_lookup_none(entries, "approvalToken"@);
}

/// The live request a method name stands for, if any.
pub open spec fn spec_write_method(method: Seq<char>) -> Option<WriteMethod> {
    if method == "POST"@ {
        Some(WriteMethod::Post)
    } else if method == "PATCH"@ {
        Some(WriteMethod::Patch)
    } else if method == "DELETE"@ {
        Some(WriteMethod::Delete)
    } else {
        None
    }
}

/// What a write command does first: preview only, or read the approval it
/// names and check it, with the token it was given.
#[derive(Debug)]
pub enum WriteStart {
    Preview,
    ReadApproval { id: String, token: String },
}

/// The first steps of a write command, in order: it previews unless it is
/// asked to go live outside fixture mode; a live delete must name the item
/// it deletes (`delete_id`) in `--confirm-delete`; a live rate update
/// (`test_only` given) passes `spec_rate_mode_refusal`; the production
/// gate; an approval ID and a token must be given, and the ID must be made
/// of ASCII letters, digits, `_` and `-`. `Ok(None)` is a preview,
/// `Ok(Some((id, token)))` the approval to read and the token to check.
pub open spec fn spec_write_start(
    runtime: Runtime,
    live: bool,
    test_only: Option<bool>,
    delete_id: Option<Seq<char>>,
    confirm_delete: Option<Seq<char>>,
    confirm_account: Option<Seq<char>>,
    confirm_environment: Option<Seq<char>>,
    allow_production_writes: Option<Seq<char>>,
    approval_id: Option<Seq<char>>,
    approval_token: Option<Seq<char>>,
) -> Result<Option<(Seq<char>, Seq<char>)>, (Seq<char>, Seq<char>)> {
    if spec_preview_only(live, runtime.fixture_mode) {
        Ok(None)
    } else if delete_id is Some && confirm_delete != delete_id {
        Err(("write.refused"@, "Live webhook deletes require --confirm-delete matching the webhook ID"@))
    } else if test_only is Some && spec_rate_mode_refusal(test_only->0, runtime.base_url@, runtime.environment@) is Some {
        Err(spec_rate_mode_refusal(test_only->0, runtime.base_url@, runtime.environment@)->0)
    } else if spec_write_environment_refusal(
        runtime.environment@,
        runtime.base_url@,
        opt_view(runtime.account_id),
        confirm_account,
        confirm_environment,
        allow_production_writes,
    ) is Some {
        Err(
            spec_write_environment_refusal(
                runtime.environment@,
                runtime.base_url@,
                opt_view(runtime.account_id),
                confirm_account,
                confirm_environment,
                allow_production_writes,
            )->0,
        )
    } else if approval_id is None {
        Err(("approval.required"@, "Live writes require --approval-id from a matching preview"@))
    } else if approval_token is None {
        Err(("approval.required"@, "Live writes require --approval-token from resly approvals approve"@))
    } else if !(forall|i: int| 0 <= i < approval_id->0.len() ==> id_char(#[trigger] approval_id->0[i])) {
        Err(("approval.invalid"@, "Approval IDs may contain only ASCII letters, numbers, '_' and '-'"@))
    } else {
        Ok(Some((approval_id->0, approval_token->0)))
    }
}

/// The first steps of a write command (see `spec_write_start`);
/// `allow_production_writes` is the value of `RESLY_ALLOW_PRODUCTION_WRITES`.
pub fn write_start(
    runtime: &Runtime,
    live: bool,
    test_only: Option<bool>,
    delete_id: Option<&str>,
    confirm_delete: Option<&str>,
    confirm_account: Option<&str>,
    confirm_environment: Option<&str>,
    allow_production_writes: Option<&str>,
    approval_id: Option<&str>,
    approval_token: Option<&str>,
) -> (r: Result<WriteStart, AppError>)
    ensures
        match spec_write_start(
            *runtime,
            live,
            test_only,
            opt_str(delete_id),
            opt_str(confirm_delete),
            opt_str(confirm_account),
            opt_str(confirm_environment),
            opt_str(allow_production_writes),
            opt_str(approval_id),
            opt_str(approval_token),
        ) {
            Ok(None) => r matches Ok(WriteStart::Preview),
            Ok(Some((id, token))) => r matches Ok(WriteStart::ReadApproval { id: i, token: t }) && i@ == id
                && t@ == token,
            Err((code, message)) => r matches Err(e) && is_error(e, code, message),
        },
{
    if preview_only(live, runtime.fixture_mode) {
        return Ok(WriteStart::Preview);
    }
    match delete_id {
        Some(id) => {
            if !opt_str_is(confirm_delete, id) {
                return Err(
                    AppError::new(
                        "write.refused",
                        "Live webhook deletes require --confirm-delete matching the webhook ID",
                    ),
                );
            }
        },
        None => {},
    }
    match test_only {
        Some(t) => {
            rates_update_mode(live, runtime.fixture_mode, t, runtime.base_url.as_str(), runtime.environment.as_str())?;
        },
        None => {},
    }
    enforce_write_environment(runtime, confirm_account, confirm_environment, allow_production_writes)?;
    require_approval_inputs(approval_id, approval_token)?;
    match (approval_id, approval_token) {
        (Some(id), Some(token)) => {
            check_approval_id(id)?;
            Ok(WriteStart::ReadApproval { id: String::from_str(id), token: String::from_str(token) })
        },
        _ => Err(AppError::new("approval.required", "Live writes require --approval-id from a matching preview")),
    }
}

/// The approved write that may be sent: the approval read from the store
/// must allow this exact operation now (see `check_approved_operation`), and
/// the method must be one a live write can use.
pub fn write_approved(
    approval: &ApprovalRequest,
    runtime: &Runtime,
    command: &str,
    method: &str,
    path: &str,
    payload_text: &str,
    approval_token: &str,
    now: u64,
) -> (r: Result<WriteMethod, AppError>)
    ensures
        match spec_check_refusal(
            approval@,
            opt_view(runtime.account_id),
            runtime.base_url@,
            runtime.environment@,
            command@,
            method@,
            path@,
            payload_text@,
            approval_token@,
            now,
        ) {
            Some((code, message)) => r matches Err(e) && is_error(e, code, message),
            None => match spec_write_method(method@) {
                Some(m) => r == Ok::<WriteMethod, AppError>(m),
                None => r matches Err(e) && is_error(e, "method.unsupported"@, method@),
            },
        },
{
    check_approved_operation(approval, runtime, command, method, path, payload_text, approval_token, now)?;
    write_method(method)
}

/// A write goes live only when it was asked to go live outside fixture
/// mode, a live delete names its item, a live rate update passes its mode
/// check, the production gate lets it through, and an approval ID and a
/// token were given; the approval is then read and checked before anything
/// is sent.
pub proof fn law_live_write_needs_approval(
    runtime: Runtime,
    live: bool,
    test_only: Option<bool>,
    delete_id: Option<Seq<char>>,
    confirm_delete: Option<Seq<char>>,
    confirm_account: Option<Seq<char>>,
    confirm_environment: Option<Seq<char>>,
    allow_production_writes: Option<Seq<char>>,
    approval_id: Option<Seq<char>>,
    approval_token: Option<Seq<char>>,
)
    requires
        spec_write_start(
            runtime,
            live,
            test_only,
            delete_id,
            confirm_delete,
            confirm_account,
            confirm_environment,
            allow_production_writes,
            approval_id,
            approval_token,
        ) is Ok,
        !spec_preview_only(live, runtime.fixture_mode),
    ensures
        live,
        !runtime.fixture_mode,
        delete_id is Some ==> confirm_delete == delete_id,
        test_only matches Some(t) ==> spec_rate_mode_refusal(t, runtime.base_url@, runtime.environment@) is None,
        spec_write_environment_refusal(
            runtime.environment@,
            runtime.base_url@,
            opt_view(runtime.account_id),
            confirm_account,
            confirm_environment,
            allow_production_writes,
        ) is None,
        approval_id is Some,
        approval_token is Some,
        spec_write_start(
            runtime,
            live,
            test_only,
            delete_id,
            confirm_delete,
            confirm_account,
            confirm_environment,
            allow_production_writes,
            approval_id,
            approval_token,
        ) == Ok::<Option<(Seq<char>, Seq<char>)>, (Seq<char>, Seq<char>)>(
            Some((approval_id->0, approval_token->0)),
        ),
{
}

/// The body of a webhook creation holds what was given: the URL, the API's
/// name of the type, and the basic-auth user name and password exactly when
/// they were given.
pub proof fn law_webhook_create_payload_holds_its_inputs(
    url: Seq<char>,
    hook_type: WebhookType,
    username: Option<Seq<char>>,
    password: Option<Seq<char>>,
)
    ensures
        ({
            let p = spec_webhook_create_payload(url, hook_type, username, password);
            &&& p.get("url"@) == Some(Json::Str(url))
            &&& p.get("hookType"@) == Some(Json::Str(hook_type.spec_api_value()))
            &&& p.get("basicAuthUsername"@) == match username {
                Some(u) => Some(Json::Str(u)),
                None => None::<Json>,
            }
            &&& p.get("basicAuthPassword"@) == match password {
                Some(w) => Some(Json::Str(w)),
                None => None::<Json>,
            }
        }),
{
    reveal_strlit("url");
    reveal_strlit("hookType");
    reveal_strlit("basicAuthUsername");
    reveal_strlit("basicAuthPassword");
    let base = seq![("url"@, Json::Str(url)), ("hookType"@, Json::Str(hook_type.spec_api_value()))];
    assert("url"@.len() != "hookType"@.len());
    assert("url"@.len() != "basicAuthUsername"@.len());
    assert("hookType"@.len() != "basicAuthUsername"@.len());
    assert("url"@.len() != "basicAuthPassword"@.len());
    assert("hookType"@.len() != "basicAuthPassword"@.len());
    assert("basicAuthUsername"@[9] != "basicAuthPassword"@[9]);
    assert(is_key_at(base, "url"@, 0));
    assert(is_key_at(base, "hookType"@, 1));
    lemma_lookup_at(base, "url"@, 0);
    lemma_lookup_at(base, "hookType"@, 1);
    lemma_lookup_none(base, "basicAuthUsername"@);
    lemma_lookup_none(base, "basicAuthPassword"@);
    let with_user = match username {
        Some(u) => set_entry(base, "basicAuthUsername"@, Json::Str(u)),
        None => base,
    };
    match username {
        Some(u) => {
            lemma_set_entry_same(base, "basicAuthUsername"@, Json::Str(u));
            lemma_set_entry_other(base, "basicAuthUsername"@, Json::Str(u), "url"@);
            lemma_set_entry_other(base, "basicAuthUsername"@, Json::Str(u), "hookType"@);
            lemma_set_entry_other(base, "basicAuthUsername"@, Json::Str(u), "basicAuthPassword"@);
        },
        None => {},
    }
    match password {
        Some(w) => {
            lemma_set_entry_same(with_user, "basicAuthPassword"@, Json::Str(w));
            lemma_set_entry_other(with_user, "basicAuthPassword"@, Json::Str(w), "url"@);
            lemma_set_entry_other(with_user, "basicAuthPassword"@, Json::Str(w), "hookType"@);
            lemma_set_entry_other(with_user, "basicAuthPassword"@, Json::Str(w), "basicAuthUsername"@);
        },
        None => {},
    }
}

/// The body of a webhook update holds the URL exactly when one was given,
/// and the API's name of the type exactly when one was given.
pub proof fn law_webhook_update_payload_holds_its_inputs(url: Option<Seq<char>>, hook_type: Option<WebhookType>)
    ensures
        spec_webhook_update_payload(url, hook_type).get("url"@) == match url {
            Some(u) => Some(Json::Str(u)),
            None => None::<Json>,
        },
        spec_webhook_update_payload(url, hook_type).get("hookType"@) == match hook_type {
            Some(t) => Some(Json::Str(t.spec_api_value())),
            None => None::<Json>,
        },
{
    reveal_strlit("url");
    reveal_strlit("hookType");
    assert("url"@.len() != "hookType"@.len());
    let e = spec_webhook_update_payload(url, hook_type)->Object_0;
    match url {
        Some(u) => {
            assert(is_key_at(e, "url"@, 0));
            lemma_lookup_at(e, "url"@, 0);
            match hook_type {
                Some(t) => {
                    assert(is_key_at(e, "hookType"@, 1));
                    lemma_lookup_at(e, "hookType"@, 1);
                },
                None => {
                    lemma_lookup_none(e, "hookType"@);
                },
            }
        },
        None => {
            lemma_lookup_none(e, "url"@);
            match hook_type {
                Some(t) => {
                    assert(is_key_at(e, "hookType"@, 0));
                    lemma_lookup_at(e, "hookType"@, 0);
                },
                None => {
                    lemma_lookup_none(e, "hookType"@);
                },
            }
        },
    }
}

/// What is shown of an approval request names the request, its status, the
/// exact operation (method, a space, endpoint) it approves and the payload
/// hash it is bound to.
pub proof fn law_public_json_names_the_operation(a: ApprovalModel, include_payload: bool)
    ensures
        ({
            let j = spec_public_json(a, include_payload);
            &&& j.get("id"@) == Some(Json::Str(a.id))
            &&& j.get("status"@) == Some(Json::Str(spec_status_label(a.status)))
            &&& j.get("method"@) == Some(Json::Str(a.method))
            &&& j.get("endpoint"@) == Some(Json::Str(a.path))
            &&& j.get("operation"@) == Some(Json::Str(a.method + " "@ + a.path))
            &&& j.get("payloadHash"@) == Some(Json::Str(a.payload_hash))
        }),
{
    reveal_strlit("id");
    reveal_strlit("status");
    reveal_strlit("command");
    reveal_strlit("method");
    reveal_strlit("endpoint");
    reveal_strlit("operation");
    reveal_strlit("payloadHash");
    let e = spec_public_json(a, include_payload)->Object_0;
    assert("status"@[0] != "method"@[0]);
    assert(forall|k: int| 0 <= k < 1 ==> e[k].0.len() != "status"@.len());
    assert(forall|k: int| 0 <= k < 3 ==> e[k].0 != "method"@);
    assert(forall|k: int| 0 <= k < 4 ==> e[k].0.len() != "endpoint"@.len());
    assert(forall|k: int| 0 <= k < 5 ==> e[k].0.len() != "operation"@.len());
    assert(forall|k: int| 0 <= k < 6 ==> e[k].0.len() != "payloadHash"@.len());
    assert(is_key_at(e, "id"@, 0));
    assert(is_key_at(e, "status"@, 1));
    assert(is_key_at(e, "method"@, 3));
    assert(is_key_at(e, "endpoint"@, 4));
    assert(is_key_at(e, "operation"@, 5));
    assert(is_key_at(e, "payloadHash"@, 6));
    lemma_lookup_at(e, "id"@, 0);
    lemma_lookup_at(e, "status"@, 1);
    lemma_lookup_at(e, "method"@, 3);
    lemma_lookup_at(e, "endpoint"@, 4);
    lemma_lookup_at(e, "operation"@, 5);
    lemma_lookup_at(e, "payloadHash"@, 6);
}

} // verus!
