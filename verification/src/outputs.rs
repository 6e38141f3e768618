use vstd::prelude::*;
use crate::approval::{
    ApprovalModel, ApprovalRequest, ApprovalStatus, approval_status_label, approve_request,
    create_approval_request, revoke_request, spec_approve_refusal, spec_approved, spec_new_request,
    spec_operation, spec_revoked, spec_status_label, spec_token, APPROVAL_EXPIRY_SECS,
};
use crate::availability::lists;
use crate::commands::{CommandOutput, limit_rows, output, rates_path, spec_limit_rows};
use crate::config::{ReslyEnvironment, Runtime, config_path, join_path, opt_view, spec_resly_dir};
use crate::error::{AppError, is_error};
use crate::json::{
    Json, JsonNumber, JsonValue, entries_model, get_array, items_model, json_str, json_u64, lemma_items_model_push,
    push_entry, set_entry, set_entry_in,
};
use crate::fixtures::{
    find_in_collection, fixture_scoped_value, fixture_value, is_first_with_id, pick_fixture, spec_found,
    spec_scope_to_window, spec_summarize,
};
use crate::redact::{clone_json, json_redactable, redact, redact_sensitive_json, redactable, redacted_json, spec_redact};
use crate::requests::{FixtureRoute, fixture_route, routed, spec_item_path};
use crate::text::{chars_of, debug_str, debug_text, decimal, decimal_chars, string_of};
use crate::writes::{approval_public_json, spec_public_json};

verus! {

/// An error as JSON: its code, message and retryability.
pub open spec fn spec_error_fields(e: AppError) -> Json {
    Json::Object(
        seq![
            ("code"@, Json::Str(e.code@)),
            ("message"@, Json::Str(e.message@)),
            ("retryable"@, Json::Bool(e.retryable)),
        ],
    )
}

/// The JSON printed for a failed command: `ok` is false, then the error.
pub open spec fn spec_error_json(e: AppError) -> Json {
    Json::Object(seq![("ok"@, Json::Bool(false)), ("error"@, spec_error_fields(e))])
}

fn error_fields(error: &AppError) -> (r: JsonValue)
    ensures
        r@ == spec_error_fields(*error),
{
    let mut inner: Vec<(String, JsonValue)> = Vec::new();
    push_entry(&mut inner, "code", json_str(error.code.as_str()));
    push_entry(&mut inner, "message", json_str(error.message.as_str()));
    push_entry(&mut inner, "retryable", JsonValue::Bool(error.retryable));
    assert(entries_model(inner@) =~= spec_error_fields(*error)->Object_0);
    JsonValue::Object(inner)
}

/// The JSON envelope of a failed command.
pub fn error_envelope(error: &AppError) -> (r: JsonValue)
    ensures
        r@ == spec_error_json(*error),
{
    let mut outer: Vec<(String, JsonValue)> = Vec::new();
    push_entry(&mut outer, "ok", JsonValue::Bool(false));
    push_entry(&mut outer, "error", error_fields(error));
    assert(entries_model(outer@) =~= spec_error_json(*error)->Object_0);
    JsonValue::Object(outer)
}

/// The line printed for a failed command when JSON is not asked for:
/// the code, a colon and a space, and the message.
pub fn error_line(error: &AppError) -> (r: String)
    ensures
        r@ == error.code@ + ": "@ + error.message@,
{
    let mut r = error.code.clone();
    r.append(": ");
    r.append(error.message.as_str());
    r
}

/// The data of a previewed write: the method, the endpoint, that nothing
/// was sent, whether fixture mode is on, the redacted payload and the
/// approval request that was recorded.
pub open spec fn spec_preview_data(
    method: Seq<char>,
    path: Seq<char>,
    fixture_mode: bool,
    payload: Json,
    approval: ApprovalModel,
) -> Json {
    Json::Object(
        seq![
            ("method"@, Json::Str(method)),
            ("endpoint"@, Json::Str(path)),
            ("live"@, Json::Bool(false)),
            ("fixtureMode"@, Json::Bool(fixture_mode)),
            ("payload"@, redacted_json(payload)),
            ("approval"@, spec_public_json(approval, false)),
        ],
    )
}

/// The line printed for a previewed write.
pub open spec fn spec_preview_human(method: Seq<char>, path: Seq<char>, id: Seq<char>) -> Seq<char> {
    "Prepared "@ + method + " "@ + path + ". No live request was sent. Approval request: "@ + id + "."@
}

/// A write that is previewed and not sent: a pending approval request is
/// recorded for it (see `create_approval_request`), and the output shows
/// the redacted payload and that request.
pub fn preview_write(
    runtime: &Runtime,
    command: &str,
    method: &str,
    path: &str,
    payload_text: &str,
    payload: &JsonValue,
    now: u64,
    random_suffix: &str,
) -> (r: (ApprovalRequest, CommandOutput))
    requires
        now <= u64::MAX - APPROVAL_EXPIRY_SECS,
        json_redactable(payload@),
    ensures
        r.0@ == spec_new_request(
            opt_view(runtime.account_id),
            runtime.base_url@,
            runtime.environment@,
            command@,
            method@,
            path@,
            payload_text@,
            payload@,
            now,
            random_suffix@,
        ),
        r.1.command@ == command@,
        r.1.data@ == spec_preview_data(method@, path@, runtime.fixture_mode, payload@, r.0@),
        r.1.human@ == spec_preview_human(method@, path@, r.0.id@),
        r.1.source@ == "local"@,
        r.1.extra@.len() == 0,
{
    let approval = create_approval_request(runtime, command, method, path, payload_text, payload, now, random_suffix);
    let mut e: Vec<(String, JsonValue)> = Vec::new();
    push_entry(&mut e, "method", json_str(method));
    push_entry(&mut e, "endpoint", json_str(path));
    push_entry(&mut e, "live", JsonValue::Bool(false));
    push_entry(&mut e, "fixtureMode", JsonValue::Bool(runtime.fixture_mode));
    push_entry(&mut e, "payload", redact_sensitive_json(payload));
    push_entry(&mut e, "approval", approval_public_json(&approval, false));
    assert(entries_model(e@) =~= spec_preview_data(method@, path@, runtime.fixture_mode, payload@, approval@)->Object_0);
    let mut human = String::from_str("Prepared ");
    human.append(method);
    human.append(" ");
    human.append(path);
    human.append(". No live request was sent. Approval request: ");
    human.append(approval.id.as_str());
    human.append(".");
    let out = CommandOutput {
        command: String::from_str(command),
        data: JsonValue::Object(e),
        human,
        source: String::from_str("local"),
        extra: Vec::new(),
    };
    (approval, out)
}

/// The endpoint of a rate plan's rates and restrictions.
pub open spec fn spec_rates_path(rate_plan: Seq<char>) -> Seq<char> {
    spec_item_path("rate-plans"@, rate_plan) + "/"@ + "rates-and-restrictions"@
}

/// The data of a previewed rate update: the rate plan, the endpoint, the
/// method, that nothing was sent, whether fixture mode is on, the payload
/// as read, and the approval request that was recorded.
pub open spec fn spec_rates_preview_data(
    rate_plan: Seq<char>,
    fixture_mode: bool,
    payload: Json,
    approval: ApprovalModel,
) -> Json {
    Json::Object(
        seq![
            ("ratePlanId"@, Json::Str(rate_plan)),
            ("endpoint"@, Json::Str(spec_rates_path(rate_plan))),
            ("method"@, Json::Str("PATCH"@)),
            ("live"@, Json::Bool(false)),
            ("fixtureMode"@, Json::Bool(fixture_mode)),
            ("payload"@, payload),
            ("approval"@, spec_public_json(approval, false)),
        ],
    )
}

/// A rate update that is previewed and not sent: a pending `rates.update`
/// approval request for `PATCH` on the rate plan's endpoint is recorded.
/// The output is named `rates.update` when an update was asked for and
/// fell back to a preview, else `rates.preview`; `file` is the name of the
/// payload file as shown to people.
pub fn rates_preview(
    runtime: &Runtime,
    rate_plan: &str,
    file: &str,
    update_requested: bool,
    payload_text: &str,
    payload: &JsonValue,
    now: u64,
    random_suffix: &str,
) -> (r: (ApprovalRequest, CommandOutput))
    requires
        now <= u64::MAX - APPROVAL_EXPIRY_SECS,
        json_redactable(payload@),
    ensures
        r.0@ == spec_new_request(
            opt_view(runtime.account_id),
            runtime.base_url@,
            runtime.environment@,
            "rates.update"@,
            "PATCH"@,
            spec_rates_path(rate_plan@),
            payload_text@,
            payload@,
            now,
            random_suffix@,
        ),
        r.1.command@ == (if update_requested { "rates.update"@ } else { "rates.preview"@ }),
        r.1.data@ == spec_rates_preview_data(rate_plan@, runtime.fixture_mode, payload@, r.0@),
        r.1.human@ == "Prepared "@ + file@ + " rate/restriction update for "@ + rate_plan@
            + ". No live request was sent. Approval request: "@ + r.0.id@ + "."@,
        r.1.source@ == "local"@,
        r.1.extra@.len() == 0,
{
    let path = rates_path(rate_plan);
    let approval = create_approval_request(
        runtime,
        "rates.update",
        "PATCH",
        path.as_str(),
        payload_text,
        payload,
        now,
        random_suffix,
    );
    let mut e: Vec<(String, JsonValue)> = Vec::new();
    push_entry(&mut e, "ratePlanId", json_str(rate_plan));
    push_entry(&mut e, "endpoint", json_str(path.as_str()));
    push_entry(&mut e, "method", json_str("PATCH"));
    push_entry(&mut e, "live", JsonValue::Bool(false));
    push_entry(&mut e, "fixtureMode", JsonValue::Bool(runtime.fixture_mode));
    push_entry(&mut e, "payload", clone_json(payload));
    push_entry(&mut e, "approval", approval_public_json(&approval, false));
    assert(entries_model(e@) =~= spec_rates_preview_data(rate_plan@, runtime.fixture_mode, payload@, approval@)->Object_0);
    let mut human = String::from_str("Prepared ");
    human.append(file);
    human.append(" rate/restriction update for ");
    human.append(rate_plan);
    human.append(". No live request was sent. Approval request: ");
    human.append(approval.id.as_str());
    human.append(".");
    let command = if update_requested {
        String::from_str("rates.update")
    } else {
        String::from_str("rates.preview")
    };
    let out = CommandOutput {
        command,
        data: JsonValue::Object(e),
        human,
        source: String::from_str("local"),
        extra: Vec::new(),
    };
    (approval, out)
}

/// Shows one approval request, with its redacted payload.
pub fn approvals_show(approval: &ApprovalRequest) -> (r: CommandOutput)
    ensures
        r.command@ == "approvals.show"@,
        r.data@ == spec_public_json(approval@, true),
        r.human@ == approval.method@ + " "@ + approval.path@ + " is "@ + spec_status_label(approval.status) + "."@,
        r.source@ == "local"@,
        r.extra@.len() == 0,
{
    let mut human = approval.method.clone();
    human.append(" ");
    human.append(approval.path.as_str());
    human.append(" is ");
    human.append(approval_status_label(&approval.status));
    human.append(".");
    CommandOutput {
        command: String::from_str("approvals.show"),
        data: approval_public_json(approval, true),
        human,
        source: String::from_str("local"),
        extra: Vec::new(),
    }
}

/// Revokes an approval request (see `revoke_request`) and shows it.
pub fn approvals_revoke(approval: ApprovalRequest, id: &str) -> (r: Result<(ApprovalRequest, CommandOutput), AppError>)
    ensures
        approval.status == ApprovalStatus::Used ==> (r matches Err(e) && is_error(
            e,
            "approval.invalid"@,
            "Approval "@ + id@ + " has already been used and cannot be revoked"@,
        )),
        approval.status != ApprovalStatus::Used ==> (r matches Ok((a, out)) && a@ == spec_revoked(approval@)
            && out.command@ == "approvals.revoke"@ && out.data@ == spec_public_json(a@, false) && out.human@
            == "Revoked approval "@ + id@ + "."@ && out.source@ == "local"@ && out.extra@.len() == 0),
{
    let revoked = revoke_request(approval, id)?;
    let mut human = String::from_str("Revoked approval ");
    human.append(id);
    human.append(".");
    let out = CommandOutput {
        command: String::from_str("approvals.revoke"),
        data: approval_public_json(&revoked, false),
        human,
        source: String::from_str("local"),
        extra: Vec::new(),
    };
    Ok((revoked, out))
}

/// The warning shown beside a new approval token.
pub open spec fn token_warning() -> Seq<char> {
    "This token is shown once. Pass it with --approval-id and --approval-token on the matching live command."@
}

/// The data shown when a request is approved: the token in clear, once.
pub open spec fn spec_approve_data(a: ApprovalModel, token: Seq<char>) -> Json {
    Json::Object(
        seq![
            ("id"@, Json::Str(a.id)),
            ("status"@, Json::Str(spec_status_label(a.status))),
            ("approvalToken"@, Json::Str(token)),
            ("expiresAt"@, Json::Number(JsonNumber::PosInt(a.expires_at))),
            ("operation"@, Json::Str(spec_operation(a))),
            ("payloadHash"@, Json::Str(a.payload_hash)),
            ("warning"@, Json::Str(token_warning())),
        ],
    )
}

/// Approves a request (see `approve_request`) and shows the one-time token.
pub fn approvals_approve(approval: ApprovalRequest, now: u64, confirm_operation: &str, random_hex: &str) -> (r:
    Result<(ApprovalRequest, CommandOutput), AppError>)
    ensures
        match spec_approve_refusal(approval@, now, confirm_operation@) {
            Some((code, message)) => r matches Err(e) && is_error(e, code, message),
            None => r matches Ok((a, out)) && a@ == spec_approved(approval@, now, random_hex@)
                && out.command@ == "approvals.approve"@
                && out.data@ == spec_approve_data(a@, spec_token(random_hex@))
                && out.human@ == "Approved "@ + spec_operation(a@) + ". Token shown once: "@ + spec_token(random_hex@)
                    + ". Use it only with --approval-id "@ + a@.id + "."@
                && out.source@ == "local"@ && out.extra@.len() == 0,
        },
{
    let (approved, token) = approve_request(approval, now, confirm_operation, random_hex)?;
    let mut operation = approved.method.clone();
    operation.append(" ");
    operation.append(approved.path.as_str());
    let mut e: Vec<(String, JsonValue)> = Vec::new();
    push_entry(&mut e, "id", json_str(approved.id.as_str()));
    push_entry(&mut e, "status", json_str(approval_status_label(&approved.status)));
    push_entry(&mut e, "approvalToken", json_str(token.as_str()));
    push_entry(&mut e, "expiresAt", json_u64(approved.expires_at));
    push_entry(&mut e, "operation", json_str(operation.as_str()));
    push_entry(&mut e, "payloadHash", json_str(approved.payload_hash.as_str()));
    push_entry(
        &mut e,
        "warning",
        json_str(
            "This token is shown once. Pass it with --approval-id and --approval-token on the matching live command.",
        ),
    );
    assert(entries_model(e@) =~= spec_approve_data(approved@, token@)->Object_0);
    let mut human = String::from_str("Approved ");
    human.append(operation.as_str());
    human.append(". Token shown once: ");
    human.append(token.as_str());
    human.append(". Use it only with --approval-id ");
    human.append(approved.id.as_str());
    human.append(".");
    let out = CommandOutput {
        command: String::from_str("approvals.approve"),
        data: JsonValue::Object(e),
        human,
        source: String::from_str("local"),
        extra: Vec::new(),
    };
    Ok((approved, out))
}

/// Whether the request made at `times[x]` is listed before the one made at
/// `times[y]`: newer first, and in the order found when made at the same time.
pub open spec fn newer_first(times: Seq<u64>, x: int, y: int) -> bool {
    times[x] > times[y] || (times[x] == times[y] && x < y)
}

/// Whether `p` lists every index of `times` once, newest first (see
/// `newer_first`).
pub open spec fn is_newest_first(times: Seq<u64>, p: Seq<usize>) -> bool {
    &&& p.len() == times.len()
    &&& forall|k: int| 0 <= k < p.len() ==> (#[trigger] p[k]) < times.len()
    &&& forall|x: int| 0 <= x < times.len() ==> #[trigger] lists(p, x)
    &&& forall|a: int, b: int| 0 <= a < b < p.len() ==> newer_first(times, #[trigger] p[a] as int, #[trigger] p[b] as int)
}

/// The order in which approval requests made at `times` are listed: a
/// stable sort of their indices, newest first.
pub fn newest_first(times: &Vec<u64>) -> (r: Vec<usize>)
    ensures
        is_newest_first(times@, r@),
{
    let mut p: Vec<usize> = Vec::new();
    let mut i: usize = 0;
    while i < times.len()
        invariant
            i <= times@.len(),
            p@.len() == i,
            forall|k: int| 0 <= k < p@.len() ==> (#[trigger] p@[k]) < i,
            forall|x: int| 0 <= x < i ==> #[trigger] lists(p@, x),
            forall|a: int, b: int| 0 <= a < b < p@.len() ==> newer_first(times@, #[trigger] p@[a] as int, #[trigger] p@[b] as int),
        decreases times@.len() - i,
    {
        let mut pos: usize = 0;
        while pos < p.len() && !(times[i] > times[p[pos]])
            invariant
                pos <= p@.len(),
                i < times@.len(),
                forall|k: int| 0 <= k < p@.len() ==> (#[trigger] p@[k]) < i,
                forall|q: int| 0 <= q < pos ==> times@[i as int] <= times@[#[trigger] p@[q] as int],
            decreases p@.len() - pos,
        {
            pos = pos + 1;
        }
        let ghost old_p = p@;
        p.insert(pos, i);
        proof {
            assert(p@ == old_p.insert(pos as int, i));
            assert forall|a: int, b: int| 0 <= a < b < p@.len() implies newer_first(times@, #[trigger] p@[a] as int, #[trigger] p@[b] as int) by {
                if a < pos && b < pos {
                    assert(p@[a] == old_p[a] && p@[b] == old_p[b]);
                } else if a < pos && b == pos {
                    assert(p@[a] == old_p[a]);
                } else if a < pos {
                    assert(p@[a] == old_p[a] && p@[b] == old_p[b - 1]);
                } else if a == pos {
                    assert(p@[b] == old_p[b - 1]);
                    assert(newer_first(times@, old_p[pos as int] as int, old_p[b - 1] as int) || b - 1 == pos);
                } else {
                    assert(p@[a] == old_p[a - 1] && p@[b] == old_p[b - 1]);
                }
            }
            assert forall|x: int| 0 <= x < i + 1 implies #[trigger] lists(p@, x) by {
                if x == i {
                    assert(p@[pos as int] == x);
                } else {
                    assert(lists(old_p, x));
                    let k = choose|k: int| 0 <= k < old_p.len() && old_p[k] == x;
                    if k < pos {
                        assert(p@[k] == x);
                    } else {
                        assert(p@[k + 1] == x);
                    }
                }
            }
            assert forall|k: int| 0 <= k < p@.len() implies (#[trigger] p@[k]) < i + 1 by {
                if k < pos {
                    assert(p@[k] == old_p[k]);
                } else if k > pos {
                    assert(p@[k] == old_p[k - 1]);
                }
            }
        }
        i = i + 1;
    }
    p
}

/// Approval requests are always listed in one order: two listings that
/// both put them newest first (see `is_newest_first`) are the same.
pub proof fn law_newest_first_is_unique(times: Seq<u64>, p: Seq<usize>, q: Seq<usize>)
    requires
        is_newest_first(times, p),
        is_newest_first(times, q),
    ensures
        p == q,
{
    assert forall|k: int| 0 <= k < p.len() implies p[k] == q[k] by {
        lemma_same_prefix(times, p, q, k);
    }
    assert(p =~= q);
}

proof fn lemma_same_prefix(times: Seq<u64>, p: Seq<usize>, q: Seq<usize>, k: int)
    requires
        is_newest_first(times, p),
        is_newest_first(times, q),
        0 <= k < p.len(),
    ensures
        forall|j: int| 0 <= j <= k ==> p[j] == q[j],
    decreases k,
{
    if k > 0 {
        lemma_same_prefix(times, p, q, k - 1);
    }
    let a = p[k] as int;
    let b = q[k] as int;
    if a != b {
        assert(lists(q, a));
        let m = choose|m: int| 0 <= m < q.len() && q[m] == a;
        if m < k {
            assert(p[m] == q[m]);
            assert(newer_first(times, p[m] as int, p[k] as int));
        }
        assert(m > k);
        assert(newer_first(times, q[k] as int, q[m] as int));
        assert(lists(p, b));
        let n = choose|n: int| 0 <= n < p.len() && p[n] == b;
        if n < k {
            assert(p[n] == q[n]);
            assert(newer_first(times, q[n] as int, q[k] as int));
        }
        assert(n > k);
        assert(newer_first(times, p[k] as int, p[n] as int));
    }
}

/// The creation times of approval requests.
pub open spec fn created_times(approvals: Seq<ApprovalRequest>) -> Seq<u64> {
    approvals.map_values(|a: ApprovalRequest| a.created_at)
}

/// The data of the approval list: each request as `approval_public_json`
/// shows it without its payload, in the order `p`.
pub open spec fn spec_list_data(approvals: Seq<ApprovalRequest>, p: Seq<usize>) -> Json {
    Json::Object(
        seq![
            (
                "approvals"@,
                Json::Array(Seq::new(p.len(), |k: int| spec_public_json(approvals[p[k] as int]@, false))),
            ),
        ],
    )
}

/// Lists local approval requests, newest first.
pub fn approvals_list(approvals: &Vec<ApprovalRequest>) -> (r: CommandOutput)
    ensures
        exists|p: Seq<usize>| is_newest_first(created_times(approvals@), p) && r.data@ == spec_list_data(approvals@, p),
        r.command@ == "approvals.list"@,
        r.human@ == "Found "@ + decimal(approvals@.len()) + " local write approval request(s)."@,
        r.source@ == "local"@,
        r.extra@.len() == 0,
{
    let mut times: Vec<u64> = Vec::new();
    let mut i: usize = 0;
    while i < approvals.len()
        invariant
            i <= approvals@.len(),
            times@ == created_times(approvals@).take(i as int),
        decreases approvals@.len() - i,
    {
        times.push(approvals[i].created_at);
        i = i + 1;
        assert(times@ =~= created_times(approvals@).take(i as int));
    }
    assert(times@ =~= created_times(approvals@));
    let order = newest_first(&times);
    let mut items: Vec<JsonValue> = Vec::new();
    let mut k: usize = 0;
    let ghost want = Seq::new(order@.len(), |k: int| spec_public_json(approvals@[order@[k] as int]@, false));
    while k < order.len()
        invariant
            k <= order@.len(),
            is_newest_first(created_times(approvals@), order@),
            created_times(approvals@).len() == approvals@.len(),
            want == Seq::new(order@.len(), |k: int| spec_public_json(approvals@[order@[k] as int]@, false)),
            items_model(items@) == want.take(k as int),
        decreases order@.len() - k,
    {
        let j = order[k];
        let x = approval_public_json(&approvals[j], false);
        proof {
            lemma_items_model_push(items@, x);
        }
        items.push(x);
        k = k + 1;
        assert(items_model(items@) =~= want.take(k as int));
    }
    assert(want.take(order@.len() as int) =~= want);
    let mut e: Vec<(String, JsonValue)> = Vec::new();
    push_entry(&mut e, "approvals", JsonValue::Array(items));
    assert(entries_model(e@) =~= spec_list_data(approvals@, order@)->Object_0);
    let mut human_chars = chars_of("Found ");
    let mut digits = decimal_chars(approvals.len() as u64);
    human_chars.append(&mut digits);
    let mut tail = chars_of(" local write approval request(s).");
    human_chars.append(&mut tail);
    let human = string_of(human_chars.as_slice());
    CommandOutput {
        command: String::from_str("approvals.list"),
        data: JsonValue::Object(e),
        human,
        source: String::from_str("local"),
        extra: Vec::new(),
    }
}

/// What `token refresh` shows: in fixture mode that no token is needed;
/// else the redacted token with the base URL and environment it is for.
/// `token` is the token just fetched, and is not read in fixture mode.
pub fn token_refresh(runtime: &Runtime, token: &str) -> (r: CommandOutput)
    requires
        !runtime.fixture_mode ==> redactable(token@),
    ensures
        r.command@ == "token.refresh"@,
        r.extra@.len() == 0,
        runtime.fixture_mode ==> r.data@ == Json::Object(
            seq![("fixtureMode"@, Json::Bool(true)), ("tokenRequired"@, Json::Bool(false))],
        ) && r.human@ == "Fixture mode does not require a token."@ && r.source@ == "fixture"@,
        !runtime.fixture_mode ==> r.data@ == Json::Object(
            seq![
                ("token"@, Json::Str(spec_redact(token@))),
                ("baseUrl"@, Json::Str(runtime.base_url@)),
                ("environment"@, Json::Str(runtime.environment@)),
            ],
        ) && r.human@ == "Retrieved token "@ + spec_redact(token@) + " for "@ + runtime.environment@
            && r.source@ == "live"@,
{
    let mut e: Vec<(String, JsonValue)> = Vec::new();
    if runtime.fixture_mode {
        push_entry(&mut e, "fixtureMode", JsonValue::Bool(true));
        push_entry(&mut e, "tokenRequired", JsonValue::Bool(false));
        assert(entries_model(e@) =~= seq![("fixtureMode"@, Json::Bool(true)), ("tokenRequired"@, Json::Bool(false))]);
        return CommandOutput {
            command: String::from_str("token.refresh"),
            data: JsonValue::Object(e),
            human: String::from_str("Fixture mode does not require a token."),
            source: String::from_str("fixture"),
            extra: Vec::new(),
        };
    }
    let shown = redact(token);
    push_entry(&mut e, "token", json_str(shown.as_str()));
    push_entry(&mut e, "baseUrl", json_str(runtime.base_url.as_str()));
    push_entry(&mut e, "environment", json_str(runtime.environment.as_str()));
    assert(entries_model(e@) =~= seq![
        ("token"@, Json::Str(spec_redact(token@))),
        ("baseUrl"@, Json::Str(runtime.base_url@)),
        ("environment"@, Json::Str(runtime.environment@)),
    ]);
    let mut human = String::from_str("Retrieved token ");
    human.append(shown.as_str());
    human.append(" for ");
    human.append(runtime.environment.as_str());
    CommandOutput {
        command: String::from_str("token.refresh"),
        data: JsonValue::Object(e),
        human,
        source: String::from_str("live"),
        extra: Vec::new(),
    }
}

/// What `doctor` says of the token: not needed in fixture mode; else
/// whether one could be had, redacted, or the error that stopped it.
pub open spec fn spec_token_status(fixture_mode: bool, token: Option<Result<String, AppError>>) -> Json {
    if fixture_mode {
        Json::Object(
            seq![
                ("required"@, Json::Bool(false)),
                ("available"@, Json::Bool(false)),
                ("reason"@, Json::Str("fixture mode does not require auth"@)),
            ],
        )
    } else {
        match token {
            Some(Ok(t)) => Json::Object(
                seq![
                    ("required"@, Json::Bool(true)),
                    ("available"@, Json::Bool(true)),
                    ("redacted"@, Json::Str(spec_redact(t@))),
                ],
            ),
            Some(Err(e)) => Json::Object(
                seq![
                    ("required"@, Json::Bool(true)),
                    ("available"@, Json::Bool(false)),
                    ("error"@, spec_error_fields(e)),
                ],
            ),
            None => Json::Null,
        }
    }
}

/// The data of `doctor`: the version, where requests go and why, which
/// credentials are present, fixture mode, the configuration path and the
/// token status.
pub open spec fn spec_doctor_data(
    runtime: Runtime,
    version: Seq<char>,
    config_path: Seq<char>,
    fixture_available: bool,
    token: Option<Result<String, AppError>>,
) -> Json {
    Json::Object(
        seq![
            ("version"@, Json::Str(version)),
            ("environment"@, Json::Str(runtime.environment@)),
            ("baseUrl"@, Json::Str(runtime.base_url@)),
            ("baseUrlSource"@, Json::Str(runtime.base_url_source@)),
            (
                "auth"@,
                Json::Object(
                    seq![
                        ("accountIdAvailable"@, Json::Bool(runtime.account_id is Some)),
                        ("apiKeyAvailable"@, Json::Bool(runtime.api_key is Some)),
                        ("source"@, Json::Str(runtime.auth_source@)),
                    ],
                ),
            ),
            ("fixtureMode"@, Json::Bool(runtime.fixture_mode)),
            ("fixtureAvailable"@, Json::Bool(fixture_available)),
            ("configPath"@, Json::Str(config_path)),
            ("token"@, spec_token_status(runtime.fixture_mode, token)),
        ],
    )
}

fn token_status(fixture_mode: bool, token: &Option<Result<String, AppError>>) -> (r: JsonValue)
    requires
        !fixture_mode ==> token is Some,
        token matches Some(Ok(t)) ==> redactable(t@),
    ensures
        r@ == spec_token_status(fixture_mode, *token),
{
    let mut e: Vec<(String, JsonValue)> = Vec::new();
    if fixture_mode {
        push_entry(&mut e, "required", JsonValue::Bool(false));
        push_entry(&mut e, "available", JsonValue::Bool(false));
        push_entry(&mut e, "reason", json_str("fixture mode does not require auth"));
    } else {
        match token {
            Some(Ok(t)) => {
                let shown = redact(t.as_str());
                push_entry(&mut e, "required", JsonValue::Bool(true));
                push_entry(&mut e, "available", JsonValue::Bool(true));
                push_entry(&mut e, "redacted", json_str(shown.as_str()));
            },
            Some(Err(err)) => {
                let inner = error_fields(err);
                push_entry(&mut e, "required", JsonValue::Bool(true));
                push_entry(&mut e, "available", JsonValue::Bool(false));
                push_entry(&mut e, "error", inner);
            },
            None => {
                return JsonValue::Null;
            },
        }
    }
    assert(entries_model(e@) =~= spec_token_status(fixture_mode, *token)->Object_0);
    JsonValue::Object(e)
}

/// What `doctor` reports: how the CLI is set up and whether it can get a
/// token. `home` locates the configuration file; `version` is the CLI's
/// version; `fixture_available` says whether the embedded fixture parses;
/// `token` is the outcome of getting a token, asked for only outside
/// fixture mode. Without a home directory this is `env.missing`.
pub fn doctor(
    runtime: &Runtime,
    version: &str,
    home: Option<&str>,
    fixture_available: bool,
    token: &Option<Result<String, AppError>>,
) -> (r: Result<CommandOutput, AppError>)
    requires
        !runtime.fixture_mode ==> token is Some,
        token matches Some(Ok(t)) ==> redactable(t@),
    ensures
        match home {
            None => r matches Err(e) && is_error(e, "env.missing"@, "HOME is not set"@),
            Some(h) => r matches Ok(out) && out.command@ == "doctor"@
                && out.data@ == spec_doctor_data(
                    *runtime,
                    version@,
                    join_path(spec_resly_dir(h@), "config.toml"@),
                    fixture_available,
                    *token,
                )
                && out.human@ == (if runtime.fixture_mode {
                    "Resly CLI is ready in fixture mode. Add RESLY_ACCOUNT_ID and RESLY_API_KEY or run resly init for live API use."@
                } else {
                    "Resly CLI is configured for "@ + runtime.environment@ + " at "@ + runtime.base_url@
                })
                && out.source@ == (if runtime.fixture_mode { "fixture"@ } else { "live"@ })
                && out.extra@.len() == 0,
        },
{
    let path = config_path(home)?;
    let mut auth: Vec<(String, JsonValue)> = Vec::new();
    push_entry(&mut auth, "accountIdAvailable", JsonValue::Bool(runtime.account_id.is_some()));
    push_entry(&mut auth, "apiKeyAvailable", JsonValue::Bool(runtime.api_key.is_some()));
    push_entry(&mut auth, "source", json_str(runtime.auth_source));
    assert(entries_model(auth@) =~= seq![
        ("accountIdAvailable"@, Json::Bool(runtime.account_id is Some)),
        ("apiKeyAvailable"@, Json::Bool(runtime.api_key is Some)),
        ("source"@, Json::Str(runtime.auth_source@)),
    ]);
    let mut e: Vec<(String, JsonValue)> = Vec::new();
    push_entry(&mut e, "version", json_str(version));
    push_entry(&mut e, "environment", json_str(runtime.environment.as_str()));
    push_entry(&mut e, "baseUrl", json_str(runtime.base_url.as_str()));
    push_entry(&mut e, "baseUrlSource", json_str(runtime.base_url_source));
    push_entry(&mut e, "auth", JsonValue::Object(auth));
    push_entry(&mut e, "fixtureMode", JsonValue::Bool(runtime.fixture_mode));
    push_entry(&mut e, "fixtureAvailable", JsonValue::Bool(fixture_available));
    push_entry(&mut e, "configPath", json_str(path.as_str()));
    push_entry(&mut e, "token", token_status(runtime.fixture_mode, token));
    proof {
        let h = home->Some_0;
        assert(entries_model(e@) =~= spec_doctor_data(
            *runtime,
            version@,
            join_path(spec_resly_dir(h@), "config.toml"@),
            fixture_available,
            *token,
        )->Object_0);
    }
    let human = if runtime.fixture_mode {
        String::from_str(
            "Resly CLI is ready in fixture mode. Add RESLY_ACCOUNT_ID and RESLY_API_KEY or run resly init for live API use.",
        )
    } else {
        let mut h = String::from_str("Resly CLI is configured for ");
        h.append(runtime.environment.as_str());
        h.append(" at ");
        h.append(runtime.base_url.as_str());
        h
    };
    let source = if runtime.fixture_mode {
        String::from_str("fixture")
    } else {
        String::from_str("live")
    };
    Ok(CommandOutput { command: String::from_str("doctor"), data: JsonValue::Object(e), human, source, extra: Vec::new() })
}

/// The options of `init`.
pub struct InitArgs {
    pub account_id: String,
    pub api_key: String,
    pub env: ReslyEnvironment,
    pub base_url: Option<String>,
}

/// The base URL that `init` records: the one given, else the
/// environment's own.
pub open spec fn spec_init_base_url(args: InitArgs) -> Seq<char> {
    match args.base_url {
        Some(u) => u@,
        None => args.env.spec_base_url(),
    }
}

/// The text of the configuration file that `init` writes: one
/// `name = "value"` line per setting, each value quoted as Rust quotes it.
pub open spec fn spec_config_text(args: InitArgs) -> Seq<char> {
    "account_id = "@ + debug_text(args.account_id@) + "\napi_key = "@ + debug_text(args.api_key@)
        + "\nbase_url = "@ + debug_text(spec_init_base_url(args)) + "\nenvironment = "@ + debug_text(
        args.env.spec_label(),
    ) + "\n"@
}

/// The data that `init` shows: where it wrote, for which environment and
/// base URL, the account, and the API key redacted.
pub open spec fn spec_init_data(args: InitArgs, path: Seq<char>) -> Json {
    Json::Object(
        seq![
            ("configPath"@, Json::Str(path)),
            ("environment"@, Json::Str(args.env.spec_label())),
            ("baseUrl"@, Json::Str(spec_init_base_url(args))),
            ("accountId"@, Json::Str(args.account_id@)),
            ("apiKey"@, Json::Str(spec_redact(args.api_key@))),
        ],
    )
}

/// What `init` writes and shows: the path of `~/.resly/config.toml`, the
/// text to write there, and the output. Without a home directory this is
/// `env.missing`.
pub fn init_config(args: &InitArgs, home: Option<&str>) -> (r: Result<(String, String, CommandOutput), AppError>)
    requires
        redactable(args.api_key@),
    ensures
        match home {
            None => r matches Err(e) && is_error(e, "env.missing"@, "HOME is not set"@),
            Some(h) => r matches Ok((path, text, out)) && path@ == join_path(spec_resly_dir(h@), "config.toml"@)
                && text@ == spec_config_text(*args) && out.command@ == "init"@
                && out.data@ == spec_init_data(*args, path@)
                && out.human@ == "Wrote "@ + path@ + " for "@ + args.env.spec_label() + " ("@
                    + spec_init_base_url(*args) + ")"@
                && out.source@ == "local"@ && out.extra@.len() == 0,
        },
{
    let base_url = match &args.base_url {
        Some(u) => u.clone(),
        None => String::from_str(args.env.base_url()),
    };
    let path = config_path(home)?;
    let label = args.env.label();
    let mut text = String::from_str("account_id = ");
    text.append(debug_str(args.account_id.as_str()).as_str());
    text.append("\napi_key = ");
    text.append(debug_str(args.api_key.as_str()).as_str());
    text.append("\nbase_url = ");
    text.append(debug_str(base_url.as_str()).as_str());
    text.append("\nenvironment = ");
    text.append(debug_str(label).as_str());
    text.append("\n");
    let mut e: Vec<(String, JsonValue)> = Vec::new();
    push_entry(&mut e, "configPath", json_str(path.as_str()));
    push_entry(&mut e, "environment", json_str(label));
    push_entry(&mut e, "baseUrl", json_str(base_url.as_str()));
    push_entry(&mut e, "accountId", json_str(args.account_id.as_str()));
    push_entry(&mut e, "apiKey", json_str(redact(args.api_key.as_str()).as_str()));
    assert(entries_model(e@) =~= spec_init_data(*args, path@)->Object_0);
    let mut human = String::from_str("Wrote ");
    human.append(path.as_str());
    human.append(" for ");
    human.append(label);
    human.append(" (");
    human.append(base_url.as_str());
    human.append(")");
    let out = CommandOutput {
        command: String::from_str("init"),
        data: JsonValue::Object(e),
        human,
        source: String::from_str("local"),
        extra: Vec::new(),
    };
    Ok((path, text, out))
}

/// The output of `reservations list`: its rows cut to `limit` (see
/// `limit_rows`) and a `pagination` member that gives the limit.
pub fn reservations_output(out: CommandOutput, limit: usize) -> (r: CommandOutput)
    ensures
        r.command@ == out.command@,
        r.data@ == spec_limit_rows(out.data@, limit),
        r.human@ == out.human@,
        r.source@ == out.source@,
        entries_model(r.extra@) == set_entry(
            entries_model(out.extra@),
            "pagination"@,
            Json::Object(seq![("limit"@, Json::Number(JsonNumber::PosInt(limit as u64)))]),
        ),
{
    let CommandOutput { command, data, human, source, extra } = out;
    let mut page: Vec<(String, JsonValue)> = Vec::new();
    push_entry(&mut page, "limit", json_u64(limit as u64));
    assert(entries_model(page@) =~= seq![("limit"@, Json::Number(JsonNumber::PosInt(limit as u64)))]);
    let mut extra = extra;
    set_entry_in(&mut extra, "pagination", JsonValue::Object(page));
    CommandOutput { command, data: limit_rows(data, limit), human, source, extra }
}

/// A fixture-mode read of a whole collection: the fixture entry `key`
/// (see `fixture_value`) as the output of `command`.
pub fn fixture_read(fixture: &JsonValue, command: &str, key: &str) -> (r: Result<CommandOutput, AppError>)
    ensures
        match fixture@.get(key@) {
            Some(v) => r matches Ok(out) && out.command@ == command@ && out.data@ == v && out.human@
                == spec_summarize(command@, v) && out.source@ == "fixture"@ && out.extra@.len() == 0,
            None => r matches Err(e) && is_error(e, "fixture.missing"@, "Missing fixture key "@ + key@),
        },
{
    let data = fixture_value(fixture, key)?;
    Ok(output(command, data, "fixture"))
}

/// A fixture-mode read of one item: the first row of the fixture entry
/// `key` whose id field matches (see `find_in_collection`), as the output
/// of `command`.
pub fn fixture_read_one(
    fixture: &JsonValue,
    command: &str,
    key: &str,
    id: &str,
    id_fields: &[&str],
) -> (r: Result<CommandOutput, AppError>)
    ensures
        match fixture@.get(key@) {
            None => r matches Err(e) && is_error(e, "fixture.missing"@, "Missing fixture key "@ + key@),
            Some(collection) => match get_array(collection, "data"@) {
                None => r matches Err(e) && is_error(e, "fixture.invalid"@, "Fixture collection has no data[]"@),
                Some(items) => if exists|i: int| is_first_with_id(items, id@, id_fields@, i) {
                    r matches Ok(out) && out.command@ == command@ && out.data@ == spec_found(
                        collection,
                        items[choose|i: int| is_first_with_id(items, id@, id_fields@, i)],
                    ) && out.human@ == spec_summarize(command@, out.data@) && out.source@ == "fixture"@
                        && out.extra@.len() == 0
                } else {
                    r matches Err(e) && is_error(e, "not.found"@, id@ + " was not found in fixture data"@)
                },
            },
        },
{
    let collection = fixture_value(fixture, key)?;
    let data = find_in_collection(&collection, id, id_fields)?;
    Ok(output(command, data, "fixture"))
}

/// A fixture-mode `request get`: the raw path is routed (see
/// `fixture_route`) to a dated fixture narrowed to its window, or to a
/// whole fixture entry.
pub fn fixture_request(fixture: &JsonValue, raw_path: &str) -> (r: Result<CommandOutput, AppError>)
    ensures
        match r {
            Ok(out) => out.command@ == "request.get"@ && out.source@ == "fixture"@ && out.extra@.len() == 0
                && out.human@ == spec_summarize("request.get"@, out.data@) && exists|route: FixtureRoute|
                routed(Ok(route), raw_path@) && match route {
                    FixtureRoute::Scoped { scoped_key, fallback_key, id, from, to } => pick_fixture(
                        fixture@,
                        scoped_key@,
                        fallback_key@,
                        id@,
                    ) matches Some(v) && out.data@ == spec_scope_to_window(v, from@, to@),
                    FixtureRoute::Key(k) => fixture@.get(k@) == Some(out.data@),
                },
            Err(e) => (exists|e0: AppError| routed(Err(e0), raw_path@) && e == e0) || exists|route: FixtureRoute|
                routed(Ok(route), raw_path@) && match route {
                    FixtureRoute::Scoped { scoped_key, fallback_key, id, from, to } => pick_fixture(
                        fixture@,
                        scoped_key@,
                        fallback_key@,
                        id@,
                    ) is None && is_error(e, "fixture.missing"@, "Missing fixture for "@ + id@),
                    FixtureRoute::Key(k) => fixture@.get(k@) is None && is_error(
                        e,
                        "fixture.missing"@,
                        "Missing fixture key "@ + k@,
                    ),
                },
        },
{
    let route = fixture_route(raw_path);
    match route {
        Err(e) => Err(e),
        Ok(FixtureRoute::Scoped { scoped_key, fallback_key, id, from, to }) => {
            let ghost g = FixtureRoute::Scoped { scoped_key, fallback_key, id, from, to };
            let data = fixture_scoped_value(fixture, scoped_key, fallback_key, id.as_str(), from.as_str(), to.as_str());
            assert(routed(Ok(g), raw_path@));
            let data = data?;
            Ok(output("request.get", data, "fixture"))
        },
        Ok(FixtureRoute::Key(k)) => {
            assert(routed(Ok(FixtureRoute::Key(k)), raw_path@));
            let data = fixture_value(fixture, k)?;
            Ok(output("request.get", data, "fixture"))
        },
    }
}

} // verus!
