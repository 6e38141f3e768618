use vstd::prelude::*;
use crate::config::{Runtime, clone_opt, opt_view};
use crate::error::{AppError, is_error};
use crate::hashing::{hash_string, payload_hash, spec_hash_text};
use crate::json::{Json, JsonValue};
use crate::redact::{json_redactable, redact_sensitive_json, redacted_json};
use crate::text::{chars_of, debug_str, debug_text, decimal, decimal_chars, is_alnum, str_eq, string_of};

verus! {

/// How long a preview's approval request stays valid, in seconds.
pub const APPROVAL_EXPIRY_SECS: u64 = 900;

/// Where an approval request stands in its life.
#[derive(Clone, Copy, PartialEq, Eq, Structural, Debug)]
pub enum ApprovalStatus {
    Pending,
    Approved,
    Used,
    Revoked,
}

/// The name of an approval status, as stored and shown.
pub open spec fn spec_status_label(status: ApprovalStatus) -> Seq<char> {
    match status {
        ApprovalStatus::Pending => "pending"@,
        ApprovalStatus::Approved => "approved"@,
        ApprovalStatus::Used => "used"@,
        ApprovalStatus::Revoked => "revoked"@,
    }
}

/// The name of an approval status.
pub fn approval_status_label(status: &ApprovalStatus) -> (r: &'static str)
    ensures
        r@ == spec_status_label(*status),
{
    match status {
        ApprovalStatus::Pending => "pending",
        ApprovalStatus::Approved => "approved",
        ApprovalStatus::Used => "used",
        ApprovalStatus::Revoked => "revoked",
    }
}

/// A local record of one previewed write: what it would do, where, with
/// which payload, and whether a person has approved it.
#[derive(Debug)]
pub struct ApprovalRequest {
    pub id: String,
    pub command: String,
    pub method: String,
    pub path: String,
    pub payload_hash: String,
    pub payload_redacted: JsonValue,
    pub account_id: Option<String>,
    pub base_url: String,
    pub environment: String,
    pub created_at: u64,
    pub expires_at: u64,
    pub approved_at: Option<u64>,
    pub used_at: Option<u64>,
    pub status: ApprovalStatus,
    pub approval_token_hash: Option<String>,
}

/// The model of an approval request.
pub struct ApprovalModel {
    pub id: Seq<char>,
    pub command: Seq<char>,
    pub method: Seq<char>,
    pub path: Seq<char>,
    pub payload_hash: Seq<char>,
    pub payload_redacted: Json,
    pub account_id: Option<Seq<char>>,
    pub base_url: Seq<char>,
    pub environment: Seq<char>,
    pub created_at: u64,
    pub expires_at: u64,
    pub approved_at: Option<u64>,
    pub used_at: Option<u64>,
    pub status: ApprovalStatus,
    pub approval_token_hash: Option<Seq<char>>,
}

impl View for ApprovalRequest {
    type V = ApprovalModel;

    open spec fn view(&self) -> ApprovalModel {
        ApprovalModel {
            id: self.id@,
            command: self.command@,
            method: self.method@,
            path: self.path@,
            payload_hash: self.payload_hash@,
            payload_redacted: self.payload_redacted@,
            account_id: opt_view(self.account_id),
            base_url: self.base_url@,
            environment: self.environment@,
            created_at: self.created_at,
            expires_at: self.expires_at,
            approved_at: self.approved_at,
            used_at: self.used_at,
            status: self.status,
            approval_token_hash: opt_view(self.approval_token_hash),
        }
    }
}

/// The identifier of a new approval request: `apr_`, the creation time,
/// the first twelve characters of the payload hash, and a random suffix.
pub open spec fn spec_approval_id(now: u64, hash: Seq<char>, suffix: Seq<char>) -> Seq<char> {
    "apr_"@ + decimal(now as nat) + "_"@ + hash.take(12) + "_"@ + suffix
}

/// The pending approval request that a preview records.
pub open spec fn spec_new_request(
    account_id: Option<Seq<char>>,
    base_url: Seq<char>,
    environment: Seq<char>,
    command: Seq<char>,
    method: Seq<char>,
    path: Seq<char>,
    payload_text: Seq<char>,
    payload: Json,
    now: u64,
    suffix: Seq<char>,
) -> ApprovalModel {
    ApprovalModel {
        id: spec_approval_id(now, spec_hash_text(payload_text), suffix),
        command,
        method,
        path,
        payload_hash: spec_hash_text(payload_text),
        payload_redacted: redacted_json(payload),
        account_id,
        base_url,
        environment,
        created_at: now,
        expires_at: (now + APPROVAL_EXPIRY_SECS) as u64,
        approved_at: None,
        used_at: None,
        status: ApprovalStatus::Pending,
        approval_token_hash: None,
    }
}

/// The approval request that a preview records: pending, bound to the
/// runtime's account, base URL and environment and to the payload's hash,
/// and valid for fifteen minutes from `now`. `payload_text` is the
/// payload's JSON text; `random_suffix` is random hex.
pub fn create_approval_request(
    runtime: &Runtime,
    command: &str,
    method: &str,
    path: &str,
    payload_text: &str,
    payload: &JsonValue,
    now: u64,
    random_suffix: &str,
) -> (r: ApprovalRequest)
    requires
        now <= u64::MAX - APPROVAL_EXPIRY_SECS,
        json_redactable(payload@),
    ensures
        r@ == spec_new_request(
            opt_view(runtime.account_id),
            runtime.base_url@,
            runtime.environment@,
            command@,
            method@,
            path@,
            payload_text@,
            payload@,
            now,
            random_suffix@,
        ),
{
    let hash = payload_hash(payload_text);
    let hash_chars = chars_of(hash.as_str());
    let mut id_chars = chars_of("apr_");
    let mut digits = decimal_chars(now);
    id_chars.append(&mut digits);
    id_chars.push('_');
    let mut k: usize = 0;
    let ghost id0 = id_chars@;
    while k < 12
        invariant
            k <= 12,
            hash_chars@.len() == 64,
            id_chars@ == id0 + hash_chars@.take(k as int),
        decreases 12 - k,
    {
        id_chars.push(hash_chars[k]);
        k = k + 1;
        assert(id_chars@ =~= id0 + hash_chars@.take(k as int));
    }
    id_chars.push('_');
    let mut suffix = chars_of(random_suffix);
    id_chars.append(&mut suffix);
    let id = string_of(id_chars.as_slice());
    proof {
        reveal_strlit("_");
        assert(hash_chars@.take(12) =~= hash@.take(12));
    }
    assert(id@ =~= spec_approval_id(now, hash@, random_suffix@));
    ApprovalRequest {
        id,
        command: String::from_str(command),
        method: String::from_str(method),
        path: String::from_str(path),
        payload_hash: hash,
        payload_redacted: redact_sensitive_json(payload),
        account_id: clone_opt(&runtime.account_id),
        base_url: runtime.base_url.clone(),
        environment: runtime.environment.clone(),
        created_at: now,
        expires_at: now + APPROVAL_EXPIRY_SECS,
        approved_at: None,
        used_at: None,
        status: ApprovalStatus::Pending,
        approval_token_hash: None,
    }
}

/// The operation that a person confirms: the method, a space, the endpoint.
pub open spec fn spec_operation(a: ApprovalModel) -> Seq<char> {
    a.method + " "@ + a.path
}

/// The refusal of an approval, as a code and a message, or none.
pub open spec fn spec_approve_refusal(a: ApprovalModel, now: u64, confirm_operation: Seq<char>) -> Option<
    (Seq<char>, Seq<char>),
> {
    if a.status != ApprovalStatus::Pending {
        Some(
            (
                "approval.invalid"@,
                "Only pending approvals can be approved; "@ + a.id + " is "@ + spec_status_label(
                    a.status,
                ),
            ),
        )
    } else if a.expires_at <= now {
        Some(("approval.expired"@, "Approval "@ + a.id + " has expired; run the preview again"@))
    } else if confirm_operation != spec_operation(a) {
        Some(
            (
                "approval.confirmation_mismatch"@,
                "Expected --confirm-operation "@ + debug_text(spec_operation(a)) + " for approval "@
                    + a.id,
            ),
        )
    } else {
        None
    }
}

/// The one-time approval token made from random hex.
pub open spec fn spec_token(random_hex: Seq<char>) -> Seq<char> {
    "rat_"@ + random_hex
}

/// The request once approved at `now` with the token made from `random_hex`:
/// only the hash of the token is kept.
pub open spec fn spec_approved(a: ApprovalModel, now: u64, random_hex: Seq<char>) -> ApprovalModel {
    ApprovalModel {
        status: ApprovalStatus::Approved,
        approved_at: Some(now),
        approval_token_hash: Some(spec_hash_text(spec_token(random_hex))),
        ..a
    }
}

/// Approves an exact previewed operation: a pending, unexpired request
/// whose operation is confirmed letter for letter becomes approved, and the
/// one-time token (`rat_` and the random hex) is returned beside it.
pub fn approve_request(approval: ApprovalRequest, now: u64, confirm_operation: &str, random_hex: &str) -> (r:
    Result<(ApprovalRequest, String), AppError>)
    ensures
        match spec_approve_refusal(approval@, now, confirm_operation@) {
            Some((code, message)) => r matches Err(e) && is_error(e, code, message),
            None => r matches Ok((a, token)) && a@ == spec_approved(approval@, now, random_hex@)
                && token@ == spec_token(random_hex@),
        },
{
    let mut approval = approval;
    if approval.status != ApprovalStatus::Pending {
        let mut m = String::from_str("Only pending approvals can be approved; ");
        m.append(approval.id.as_str());
        m.append(" is ");
        m.append(approval_status_label(&approval.status));
        return Err(AppError::new("approval.invalid", m.as_str()));
    }
    if approval.expires_at <= now {
        let mut m = String::from_str("Approval ");
        m.append(approval.id.as_str());
        m.append(" has expired; run the preview again");
        return Err(AppError::new("approval.expired", m.as_str()));
    }
    let mut expected = approval.method.clone();
    expected.append(" ");
    expected.append(approval.path.as_str());
    if !str_eq(confirm_operation, expected.as_str()) {
        let mut m = String::from_str("Expected --confirm-operation ");
        let quoted = debug_str(expected.as_str());
        m.append(quoted.as_str());
        m.append(" for approval ");
        m.append(approval.id.as_str());
        return Err(AppError::new("approval.confirmation_mismatch", m.as_str()));
    }
    let mut token = String::from_str("rat_");
    token.append(random_hex);
    approval.status = ApprovalStatus::Approved;
    approval.approved_at = Some(now);
    approval.approval_token_hash = Some(hash_string(token.as_str()));
    Ok((approval, token))
}

/// The request once revoked.
pub open spec fn spec_revoked(a: ApprovalModel) -> ApprovalModel {
    ApprovalModel { status: ApprovalStatus::Revoked, ..a }
}

/// Revokes an approval request that has not been used; `id` is the
/// identifier the request was asked for by.
pub fn revoke_request(approval: ApprovalRequest, id: &str) -> (r: Result<ApprovalRequest, AppError>)
    ensures
        approval.status == ApprovalStatus::Used ==> (r matches Err(e) && is_error(
            e,
            "approval.invalid"@,
            "Approval "@ + id@ + " has already been used and cannot be revoked"@,
        )),
        approval.status != ApprovalStatus::Used ==> (r matches Ok(a) && a@ == spec_revoked(approval@)),
{
    let mut approval = approval;
    if approval.status == ApprovalStatus::Used {
        let mut m = String::from_str("Approval ");
        m.append(id);
        m.append(" has already been used and cannot be revoked");
        return Err(AppError::new("approval.invalid", m.as_str()));
    }
    approval.status = ApprovalStatus::Revoked;
    Ok(approval)
}

/// The request once its live write has been applied at `now`.
pub open spec fn spec_used(a: ApprovalModel, now: u64) -> ApprovalModel {
    ApprovalModel { status: ApprovalStatus::Used, used_at: Some(now), ..a }
}

/// Marks an approval request as used by a live write at `now`.
pub fn mark_approval_used(approval: ApprovalRequest, now: u64) -> (r: ApprovalRequest)
    ensures
        r@ == spec_used(approval@, now),
{
    let mut approval = approval;
    approval.status = ApprovalStatus::Used;
    approval.used_at = Some(now);
    approval
}

/// Whether `c` may stand in an approval identifier.
pub open spec fn id_char(c: char) -> bool {
    is_alnum(c) || c == '_' || c == '-'
}

/// Refuses an approval identifier that holds anything but ASCII letters,
/// digits, `_` and `-`, so that it always names a file in the store.
pub fn check_approval_id(id: &str) -> (r: Result<(), AppError>)
    ensures
        (forall|i: int| 0 <= i < id@.len() ==> id_char(#[trigger] id@[i])) ==> r is Ok,
        !(forall|i: int| 0 <= i < id@.len() ==> id_char(#[trigger] id@[i])) ==> (r matches Err(e)
            && is_error(
            e,
            "approval.invalid"@,
            "Approval IDs may contain only ASCII letters, numbers, '_' and '-'"@,
        )),
{
    let cs = chars_of(id);
    let mut i: usize = 0;
    while i < cs.len()
        invariant
            cs@ == id@,
            i <= cs@.len(),
            forall|j: int| 0 <= j < i ==> id_char(#[trigger] id@[j]),
        decreases cs@.len() - i,
    {
        let c = cs[i];
        let ok = ('0' <= c && c <= '9') || ('a' <= c && c <= 'z') || ('A' <= c && c <= 'Z') || c == '_'
            || c == '-';
        if !ok {
            assert(!id_char(id@[i as int]));
            return Err(
                AppError::new(
                    "approval.invalid",
                    "Approval IDs may contain only ASCII letters, numbers, '_' and '-'",
                ),
            );
        }
        i = i + 1;
    }
    Ok(())
}

/// Refuses a live write that does not name both an approval and its token.
pub fn require_approval_inputs(approval_id: Option<&str>, approval_token: Option<&str>) -> (r: Result<
    (),
    AppError,
>)
    ensures
        approval_id is None ==> (r matches Err(e) && is_error(
            e,
            "approval.required"@,
            "Live writes require --approval-id from a matching preview"@,
        )),
        approval_id is Some && approval_token is None ==> (r matches Err(e) && is_error(
            e,
            "approval.required"@,
            "Live writes require --approval-token from resly approvals approve"@,
        )),
        approval_id is Some && approval_token is Some ==> r is Ok,
{
    if approval_id.is_none() {
        return Err(AppError::new("approval.required", "Live writes require --approval-id from a matching preview"));
    }
    if approval_token.is_none() {
        return Err(
            AppError::new("approval.required", "Live writes require --approval-token from resly approvals approve"),
        );
    }
    Ok(())
}

/// Why an approved operation may not be applied, as a code and a message,
/// or none when it may.
pub open spec fn spec_check_refusal(
    a: ApprovalModel,
    account_id: Option<Seq<char>>,
    base_url: Seq<char>,
    environment: Seq<char>,
    command: Seq<char>,
    method: Seq<char>,
    path: Seq<char>,
    payload_text: Seq<char>,
    token: Seq<char>,
    now: u64,
) -> Option<(Seq<char>, Seq<char>)> {
    if a.status != ApprovalStatus::Approved {
        Some(
            (
                "approval.invalid"@,
                "Approval "@ + a.id + " is "@ + spec_status_label(a.status)
                    + "; approve a fresh preview first"@,
            ),
        )
    } else if a.expires_at <= now {
        Some(("approval.expired"@, "Approval "@ + a.id + " has expired; run the preview again"@))
    } else if a.command != command || a.method != method || a.path != path {
        Some(("approval.mismatch"@, "Approval does not match this command, method, or endpoint"@))
    } else if a.account_id != account_id || a.base_url != base_url || a.environment != environment {
        Some(
            (
                "approval.environment_mismatch"@,
                "Approval was created for a different account, base URL, or environment"@,
            ),
        )
    } else if a.payload_hash != spec_hash_text(payload_text) {
        Some(
            (
                "approval.payload_mismatch"@,
                "Approval payload hash does not match the payload being applied"@,
            ),
        )
    } else if a.approval_token_hash is None {
        Some(("approval.invalid"@, "Approval is missing its token hash; approve a fresh preview"@))
    } else if spec_hash_text(token) != a.approval_token_hash->0 {
        Some(("approval.token_mismatch"@, "Approval token does not match this approval request"@))
    } else {
        None
    }
}

fn opt_str_eq(a: &Option<String>, b: &Option<String>) -> (r: bool)
    ensures
        r == (opt_view(*a) == opt_view(*b)),
{
    match (a, b) {
        (Some(x), Some(y)) => str_eq(x.as_str(), y.as_str()),
        (None, None) => true,
        _ => false,
    }
}

/// Checks that an approval request allows this exact live write now: it is
/// approved and unexpired, it was made for this command, method, endpoint,
/// account, base URL and environment, its payload hash is that of
/// `payload_text`, and `approval_token` hashes to the hash it keeps.
pub fn check_approved_operation(
    approval: &ApprovalRequest,
    runtime: &Runtime,
    command: &str,
    method: &str,
    path: &str,
    payload_text: &str,
    approval_token: &str,
    now: u64,
) -> (r: Result<(), AppError>)
    ensures
        match spec_check_refusal(
            approval@,
            opt_view(runtime.account_id),
            runtime.base_url@,
            runtime.environment@,
            command@,
            method@,
            path@,
            payload_text@,
            approval_token@,
            now,
        ) {
            Some((code, message)) => r matches Err(e) && is_error(e, code, message),
            None => r is Ok,
        },
{
    if approval.status != ApprovalStatus::Approved {
        let mut m = String::from_str("Approval ");
        m.append(approval.id.as_str());
        m.append(" is ");
        m.append(approval_status_label(&approval.status));
        m.append("; approve a fresh preview first");
        return Err(AppError::new("approval.invalid", m.as_str()));
    }
    if approval.expires_at <= now {
        let mut m = String::from_str("Approval ");
        m.append(approval.id.as_str());
        m.append(" has expired; run the preview again");
        return Err(AppError::new("approval.expired", m.as_str()));
    }
    if !str_eq(approval.command.as_str(), command) || !str_eq(approval.method.as_str(), method)
        || !str_eq(approval.path.as_str(), path) {
        return Err(AppError::new("approval.mismatch", "Approval does not match this command, method, or endpoint"));
    }
    if !opt_str_eq(&approval.account_id, &runtime.account_id) || !str_eq(
        approval.base_url.as_str(),
        runtime.base_url.as_str(),
    ) || !str_eq(approval.environment.as_str(), runtime.environment.as_str()) {
        return Err(
            AppError::new(
                "approval.environment_mismatch",
                "Approval was created for a different account, base URL, or environment",
            ),
        );
    }
    let hash = payload_hash(payload_text);
    if !str_eq(approval.payload_hash.as_str(), hash.as_str()) {
        return Err(
            AppError::new(
                "approval.payload_mismatch",
                "Approval payload hash does not match the payload being applied",
            ),
        );
    }
    let expected = match &approval.approval_token_hash {
        Some(h) => h,
        None => {
            return Err(
                AppError::new("approval.invalid", "Approval is missing its token hash; approve a fresh preview"),
            );
        },
    };
    let token_hash = hash_string(approval_token);
    if !str_eq(token_hash.as_str(), expected.as_str()) {
        return Err(AppError::new("approval.token_mismatch", "Approval token does not match this approval request"));
    }
    Ok(())
}


/// A preview that a person approves with its exact operation before it
/// expires, and that is then applied with the token that approval printed,
/// for the same payload, command, account, base URL and environment before
/// it expires, is allowed.
pub proof fn law_approved_preview_is_applied(
    account_id: Option<Seq<char>>,
    base_url: Seq<char>,
    environment: Seq<char>,
    command: Seq<char>,
    method: Seq<char>,
    path: Seq<char>,
    payload_text: Seq<char>,
    payload: Json,
    created: u64,
    suffix: Seq<char>,
    approved_at: u64,
    random_hex: Seq<char>,
    now: u64,
)
    requires
        created <= u64::MAX - APPROVAL_EXPIRY_SECS,
        approved_at < created + APPROVAL_EXPIRY_SECS,
        now < created + APPROVAL_EXPIRY_SECS,
    ensures
        ({
            let a = spec_new_request(
                account_id,
                base_url,
                environment,
                command,
                method,
                path,
                payload_text,
                payload,
                created,
                suffix,
            );
            &&& spec_approve_refusal(a, approved_at, method + " "@ + path) is None
            &&& spec_check_refusal(
                spec_approved(a, approved_at, random_hex),
                account_id,
                base_url,
                environment,
                command,
                method,
                path,
                payload_text,
                spec_token(random_hex),
                now,
            ) is None
        }),
{
}

/// Once an approval has been used by a live write, it allows no other:
/// every later check refuses it as invalid.
pub proof fn law_used_approval_is_refused(
    a: ApprovalModel,
    used_at: u64,
    account_id: Option<Seq<char>>,
    base_url: Seq<char>,
    environment: Seq<char>,
    command: Seq<char>,
    method: Seq<char>,
    path: Seq<char>,
    payload_text: Seq<char>,
    token: Seq<char>,
    now: u64,
)
    ensures
        spec_check_refusal(
            spec_used(a, used_at),
            account_id,
            base_url,
            environment,
            command,
            method,
            path,
            payload_text,
            token,
            now,
        ) matches Some((code, _)) && code == "approval.invalid"@,
{
}

/// A revoked approval allows no live write.
pub proof fn law_revoked_approval_is_refused(
    a: ApprovalModel,
    account_id: Option<Seq<char>>,
    base_url: Seq<char>,
    environment: Seq<char>,
    command: Seq<char>,
    method: Seq<char>,
    path: Seq<char>,
    payload_text: Seq<char>,
    token: Seq<char>,
    now: u64,
)
    ensures
        spec_check_refusal(
            spec_revoked(a),
            account_id,
            base_url,
            environment,
            command,
            method,
            path,
            payload_text,
            token,
            now,
        ) matches Some((code, _)) && code == "approval.invalid"@,
{
}

/// Only a pending request can be approved: an approved, used or revoked one
/// is refused, so a request is approved at most once.
pub proof fn law_only_pending_is_approved(a: ApprovalModel, now: u64, confirm_operation: Seq<char>)
    requires
        a.status != ApprovalStatus::Pending,
    ensures
        spec_approve_refusal(a, now, confirm_operation) matches Some((code, _)) && code
            == "approval.invalid"@,
{
}

/// A live write is allowed only when the approval binds it exactly: the
/// approval is approved and unexpired, and its command, method, endpoint,
/// account, base URL, environment and payload hash are those of the write,
/// and the token given hashes to the hash the approval keeps.
pub proof fn law_allowed_write_matches_approval(
    a: ApprovalModel,
    account_id: Option<Seq<char>>,
    base_url: Seq<char>,
    environment: Seq<char>,
    command: Seq<char>,
    method: Seq<char>,
    path: Seq<char>,
    payload_text: Seq<char>,
    token: Seq<char>,
    now: u64,
)
    requires
        spec_check_refusal(
            a,
            account_id,
            base_url,
            environment,
            command,
            method,
            path,
            payload_text,
            token,
            now,
        ) is None,
    ensures
        a.status == ApprovalStatus::Approved,
        now < a.expires_at,
        a.command == command && a.method == method && a.path == path,
        a.account_id == account_id && a.base_url == base_url && a.environment == environment,
        a.payload_hash == spec_hash_text(payload_text),
        a.approval_token_hash == Some(spec_hash_text(token)),
{
}

/// An approval request expires fifteen minutes after the preview that made
/// it: from then on it can neither be approved nor allow a write.
pub proof fn law_preview_expires(
    account_id: Option<Seq<char>>,
    base_url: Seq<char>,
    environment: Seq<char>,
    command: Seq<char>,
    method: Seq<char>,
    path: Seq<char>,
    payload_text: Seq<char>,
    payload: Json,
    created: u64,
    suffix: Seq<char>,
    a: ApprovalModel,
    confirm_operation: Seq<char>,
    now: u64,
    token: Seq<char>,
)
    requires
        created <= u64::MAX - APPROVAL_EXPIRY_SECS,
        a.expires_at == spec_new_request(
            account_id,
            base_url,
            environment,
            command,
            method,
            path,
            payload_text,
            payload,
            created,
            suffix,
        ).expires_at,
        now >= created + APPROVAL_EXPIRY_SECS,
    ensures
        spec_approve_refusal(a, now, confirm_operation) is Some,
        spec_check_refusal(
            a,
            account_id,
            base_url,
            environment,
            command,
            method,
            path,
            payload_text,
            token,
            now,
        ) is Some,
{
}

} // verus!
