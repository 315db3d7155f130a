//! Moderation workflow: reports, cases, content and account states,
//! restrictions and role bindings, and the audit entry each change leaves.
//! Every update is idempotent: asking for the state that is already recorded
//! changes nothing and leaves no audit entry.

use vstd::prelude::*;

use crate::error::{is_bad_request, refused_as_bad_request, ApiError};
use crate::moderation::{
    account_state_name, case_state_name, content_state_name, restriction_scope_name, role_name,
    target_type_name, AccountState, CaseState, ContentState, RestrictionScope, Role, TargetType,
};
use crate::text::same_text;
use crate::validation::{
    at_most_message, fits_optional, fits_required, optional_text, present_text, range_message,
    required_text, text_view,
};

verus! {

/// Filter and page size of the case list.
#[derive(Debug, Clone, Copy, PartialEq, Eq, Structural)]
pub struct CaseQuery {
    pub state: Option<CaseState>,
    pub limit: Option<i64>,
}

/// A requested case state and its resolution note.
#[derive(Debug, Clone)]
pub struct SetCaseState {
    pub state: CaseState,
    pub resolution_note: Option<String>,
}

/// A requested moderation role and the reason for it.
#[derive(Debug, Clone)]
pub struct SetRole {
    pub role: Role,
    pub reason: Option<String>,
}

/// Page size of the audit log.
#[derive(Debug, Clone, Copy, PartialEq, Eq, Structural)]
pub struct AuditQuery {
    pub limit: Option<i64>,
}

/// A requested page size, defaulted and clamped into `[low, high]`.
pub open spec fn clamped_limit(limit: Option<i64>, default: i64, low: i64, high: i64) -> i64 {
    let v = match limit {
        Some(l) => l,
        None => default,
    };
    if v < low {
        low
    } else if v > high {
        high
    } else {
        v
    }
}

/// A page size: the requested one or `default`, clamped into `[low, high]`.
pub fn page_size(limit: Option<i64>, default: i64, low: i64, high: i64) -> (r: i64)
    requires
        low <= high,
    ensures
        r == clamped_limit(limit, default, low, high),
        low <= r <= high,
{
    let v = match limit {
        Some(l) => l,
        None => default,
    };
    if v < low {
        low
    } else if v > high {
        high
    } else {
        v
    }
}

impl CaseQuery {
    /// How many cases one page holds: 50 unless asked, between 1 and 100.
    pub fn page_size(&self) -> (r: i64)
        ensures
            r == clamped_limit(self.limit, 50, 1, 100),
    {
        page_size(self.limit, 50, 1, 100)
    }
}

impl AuditQuery {
    /// How many audit entries one page holds: 100 unless asked, between 1 and 250.
    pub fn page_size(&self) -> (r: i64)
        ensures
            r == clamped_limit(self.limit, 100, 1, 250),
    {
        page_size(self.limit, 100, 1, 250)
    }
}

/// The checked text of a new report.
#[derive(Debug, Clone, Copy)]
pub struct ReportText<'a> {
    pub category: &'a str,
    pub context: Option<&'a str>,
    pub idempotency_key: Option<&'a str>,
}

/// Checks the text of a new report: a category of 1 to 80 characters, an
/// optional context of at most 2000, and an optional idempotency key of at
/// most 128; all trimmed, empty optional text counting as absent.
pub fn validate_report<'a>(
    category: &'a str,
    context: Option<&'a str>,
    idempotency_key: Option<&'a str>,
) -> (r: Result<ReportText<'a>, ApiError>)
    ensures
        !fits_required(category@, 80) ==> refused_as_bad_request(
            r,
            range_message("category"@, 80),
        ),
        fits_required(category@, 80) && !fits_optional(text_view(context), 2000)
            ==> refused_as_bad_request(r, at_most_message("context"@, 2000)),
        fits_required(category@, 80) && fits_optional(text_view(context), 2000) && !fits_optional(
            text_view(idempotency_key),
            128,
        ) ==> refused_as_bad_request(r, at_most_message("idempotencyKey"@, 128)),
        fits_required(category@, 80) && fits_optional(text_view(context), 2000) && fits_optional(
            text_view(idempotency_key),
            128,
        ) ==> (r matches Ok(t) && t.category@ == crate::text::trimmed(category@) && text_view(
            t.context,
        ) == present_text(text_view(context)) && text_view(t.idempotency_key) == present_text(
            text_view(idempotency_key),
        )),
{
    let category = match required_text(category, "category", 80) {
        Ok(c) => c,
        Err(e) => {
            return Err(e);
        },
    };
    let context = match optional_text(context, "context", 2000) {
        Ok(c) => c,
        Err(e) => {
            return Err(e);
        },
    };
    let idempotency_key = match optional_text(idempotency_key, "idempotencyKey", 128) {
        Ok(k) => k,
        Err(e) => {
            return Err(e);
        },
    };
    Ok(ReportText { category, context, idempotency_key })
}

pub(crate) fn same_optional_text(a: Option<&str>, b: Option<&str>) -> (r: bool)
    ensures
        r == (text_view(a) == text_view(b)),
{
    match (a, b) {
        (None, None) => true,
        (Some(x), Some(y)) => same_text(x, y),
        _ => false,
    }
}

/// A replayed report (same reporter and idempotency key) must repeat the
/// stored report's target, category and context.
pub fn report_replay_check(
    stored_target_type: TargetType,
    stored_target_id: u128,
    stored_category: &str,
    stored_context: Option<&str>,
    target_type: TargetType,
    target_id: u128,
    category: &str,
    context: Option<&str>,
) -> (r: Result<(), ApiError>)
    ensures
        r is Ok <==> (stored_target_type == target_type && stored_target_id == target_id
            && stored_category@ == category@ && text_view(stored_context) == text_view(context)),
        r matches Err(e) ==> is_bad_request(
            e,
            "idempotencyKey was already used for a different report"@,
        ),
{
    if stored_target_type != target_type || stored_target_id != target_id || !same_text(
        stored_category,
        category,
    ) || !same_optional_text(stored_context, context) {
        return Err(
            ApiError::BadRequest(
                "idempotencyKey was already used for a different report".to_owned(),
            ),
        );
    }
    Ok(())
}

/// Answers a replayed report (same reporter and idempotency key): the stored
/// report itself when the replay repeats its target, category and context,
/// else the bad request that the key was used for a different report.
pub fn replayed_report<T>(
    stored: T,
    stored_target_type: TargetType,
    stored_target_id: u128,
    stored_category: &str,
    stored_context: Option<&str>,
    target_type: TargetType,
    target_id: u128,
    category: &str,
    context: Option<&str>,
) -> (r: Result<T, ApiError>)
    ensures
        (stored_target_type == target_type && stored_target_id == target_id && stored_category@
            == category@ && text_view(stored_context) == text_view(context)) ==> r == Ok::<
            T,
            ApiError,
        >(stored),
        !(stored_target_type == target_type && stored_target_id == target_id && stored_category@
            == category@ && text_view(stored_context) == text_view(context))
            ==> refused_as_bad_request(
            r,
            "idempotencyKey was already used for a different report"@,
        ),
{
    match report_replay_check(
        stored_target_type,
        stored_target_id,
        stored_category,
        stored_context,
        target_type,
        target_id,
        category,
        context,
    ) {
        Ok(()) => Ok(stored),
        Err(e) => Err(e),
    }
}

/// A report insert that met a conflict can only be a replay under a key.
pub fn replay_key(idempotency_key: Option<&str>) -> (r: Result<&str, ApiError>)
    ensures
        match idempotency_key {
            Some(k) => r == Ok::<&str, ApiError>(k),
            None => refused_as_bad_request(r, "report idempotency conflict without a key"@),
        },
{
    match idempotency_key {
        Some(k) => Ok(k),
        None => Err(ApiError::BadRequest("report idempotency conflict without a key".to_owned())),
    }
}

/// A resolution note: trimmed, empty counts as absent, at most 4000 characters.
pub fn validate_resolution_note(note: Option<&str>) -> (r: Result<Option<&str>, ApiError>)
    ensures
        r is Ok <==> fits_optional(text_view(note), 4000),
        r matches Ok(t) ==> text_view(t) == present_text(text_view(note)),
        r matches Err(e) ==> is_bad_request(e, at_most_message("resolutionNote"@, 4000)),
{
    optional_text(note, "resolutionNote", 4000)
}

/// A case update changes nothing when both its state and its note are already recorded.
pub fn case_update_needed(
    current_state: CaseState,
    current_note: Option<&str>,
    state: CaseState,
    note: Option<&str>,
) -> (r: bool)
    ensures
        r == !(current_state == state && text_view(current_note) == text_view(note)),
{
    !(current_state == state && same_optional_text(current_note, note))
}

/// The recorded content state, where none recorded means active.
pub open spec fn effective_content_state(recorded: Option<ContentState>) -> ContentState {
    match recorded {
        Some(s) => s,
        None => ContentState::Active,
    }
}

/// The state a content update replaces, or nothing when the requested state is in force.
pub open spec fn content_update(recorded: Option<ContentState>, requested: ContentState) -> Option<
    ContentState,
> {
    if effective_content_state(recorded) == requested {
        None
    } else {
        Some(effective_content_state(recorded))
    }
}

/// The state a content update replaces, or nothing when the requested state is in force.
pub fn content_state_update(recorded: Option<ContentState>, requested: ContentState) -> (r: Option<
    ContentState,
>)
    ensures
        r == content_update(recorded, requested),
        r is None <==> (recorded == Some(requested) || (recorded is None && requested
            == ContentState::Active)),
        recorded matches Some(x) ==> (x != requested ==> r == Some(x)),
        recorded is None && requested != ContentState::Active ==> r == Some(ContentState::Active),
{
    let previous = match recorded {
        Some(s) => s,
        None => ContentState::Active,
    };
    if previous == requested {
        None
    } else {
        Some(previous)
    }
}

/// The recorded account state, where none recorded means active.
pub open spec fn effective_account_state(recorded: Option<AccountState>) -> AccountState {
    match recorded {
        Some(s) => s,
        None => AccountState::Active,
    }
}

/// The state an account update replaces, or nothing when the requested state is in force.
pub open spec fn account_update(recorded: Option<AccountState>, requested: AccountState) -> Option<
    AccountState,
> {
    if effective_account_state(recorded) == requested {
        None
    } else {
        Some(effective_account_state(recorded))
    }
}

/// The state an account update replaces, or nothing when the requested state is in force.
pub fn account_state_update(recorded: Option<AccountState>, requested: AccountState) -> (r: Option<
    AccountState,
>)
    ensures
        r == account_update(recorded, requested),
        r is None <==> (recorded == Some(requested) || (recorded is None && requested
            == AccountState::Active)),
        recorded matches Some(x) ==> (x != requested ==> r == Some(x)),
        recorded is None && requested != AccountState::Active ==> r == Some(AccountState::Active),
{
    let previous = match recorded {
        Some(s) => s,
        None => AccountState::Active,
    };
    if previous == requested {
        None
    } else {
        Some(previous)
    }
}

/// A restriction update changes something unless the restriction is recorded with the same reason.
pub open spec fn restriction_changes(recorded: Option<Option<Seq<char>>>, reason: Option<Seq<char>>) -> bool {
    !(recorded matches Some(previous) && previous == reason)
}

/// The view of a recorded optional reason.
pub open spec fn recorded_view(recorded: Option<Option<&str>>) -> Option<Option<Seq<char>>> {
    match recorded {
        Some(p) => Some(text_view(p)),
        None => None,
    }
}

/// A restriction update changes nothing when the restriction is recorded with the same reason.
pub fn restriction_update_needed(recorded: Option<Option<&str>>, reason: Option<&str>) -> (r: bool)
    ensures
        r == restriction_changes(recorded_view(recorded), text_view(reason)),
{
    match recorded {
        Some(previous) => !same_optional_text(previous, reason),
        None => true,
    }
}

/// A role binding update changes nothing when the role is already bound.
pub fn role_update_needed(recorded: Option<Role>, requested: Role) -> (r: bool)
    ensures
        r == (recorded != Some(requested)),
{
    match recorded {
        Some(role) => role != requested,
        None => true,
    }
}

/// A state update changes something exactly when the requested state differs
/// from the one in force (active when none is recorded), and then it reports
/// the state it replaces: restoring hidden or removed content to active, or
/// lifting a suspension or ban, is a change.
pub proof fn law_updates_change_what_differs(
    content_recorded: Option<ContentState>,
    content: ContentState,
    account_recorded: Option<AccountState>,
    account: AccountState,
)
    ensures
        content_recorded matches Some(x) ==> (x != content <==> content_update(
            content_recorded,
            content,
        ) == Some(x)),
        content_recorded matches Some(x) ==> (x == content <==> content_update(
            content_recorded,
            content,
        ) is None),
        content_recorded is None && content != ContentState::Active ==> content_update(
            content_recorded,
            content,
        ) == Some(ContentState::Active),
        content_update(Some(ContentState::Hidden), ContentState::Active) == Some(
            ContentState::Hidden,
        ),
        content_update(Some(ContentState::Removed), ContentState::Active) == Some(
            ContentState::Removed,
        ),
        account_recorded matches Some(x) ==> (x != account <==> account_update(
            account_recorded,
            account,
        ) == Some(x)),
        account_recorded matches Some(x) ==> (x == account <==> account_update(
            account_recorded,
            account,
        ) is None),
        account_recorded is None && account != AccountState::Active ==> account_update(
            account_recorded,
            account,
        ) == Some(AccountState::Active),
{
}

/// Updates are idempotent: once the requested state, restriction or role is
/// recorded, asking for it again changes nothing; with nothing recorded,
/// asking for the active state changes nothing either.
pub proof fn law_updates_are_idempotent(
    content_recorded: Option<ContentState>,
    content: ContentState,
    account_recorded: Option<AccountState>,
    account: AccountState,
    reason: Option<Seq<char>>,
)
    ensures
        content_update(Some(content), content) is None,
        content_update(None, ContentState::Active) is None,
        content_update(content_recorded, content) matches Some(previous) ==> previous != content,
        account_update(Some(account), account) is None,
        account_update(None, AccountState::Active) is None,
        account_update(account_recorded, account) matches Some(previous) ==> previous != account,
        !restriction_changes(Some(reason), reason),
        restriction_changes(None, reason),
{
}

/// An entry of the moderation audit log.
#[derive(Debug, Clone)]
pub struct AuditEntry {
    pub action: &'static str,
    pub target_kind: &'static str,
    pub target_id: Option<u128>,
    pub reason: Option<String>,
    pub previous_state: Option<&'static str>,
    pub new_state: Option<&'static str>,
    pub case_id: Option<u128>,
}

/// The view of an optional static text.
pub open spec fn static_view(value: Option<&'static str>) -> Option<Seq<char>> {
    match value {
        Some(v) => Some(v@),
        None => None,
    }
}

/// The view of an optional owned text.
pub open spec fn string_view(value: Option<String>) -> Option<Seq<char>> {
    match value {
        Some(v) => Some(v@),
        None => None,
    }
}

fn owned(value: Option<&str>) -> (r: Option<String>)
    ensures
        string_view(r) == text_view(value),
{
    match value {
        Some(v) => Some(v.to_owned()),
        None => None,
    }
}

/// The audit entry `r` has these fields.
pub open spec fn audit_fields(
    r: AuditEntry,
    action: Seq<char>,
    target_kind: Seq<char>,
    target_id: Option<u128>,
    reason: Option<Seq<char>>,
    previous_state: Option<Seq<char>>,
    new_state: Option<Seq<char>>,
    case_id: Option<u128>,
) -> bool {
    &&& r.action@ == action
    &&& r.target_kind@ == target_kind
    &&& r.target_id == target_id
    &&& string_view(r.reason) == reason
    &&& static_view(r.previous_state) == previous_state
    &&& static_view(r.new_state) == new_state
    &&& r.case_id == case_id
}

/// The audit entry of a case state change; the note is its reason.
pub fn case_state_audit(case_id: u128, previous: CaseState, next: CaseState, note: Option<&str>) -> (r: AuditEntry)
    ensures
        audit_fields(
            r,
            "case.state"@,
            "case"@,
            Some(case_id),
            text_view(note),
            Some(case_state_name(previous)),
            Some(case_state_name(next)),
            Some(case_id),
        ),
{
    AuditEntry {
        action: "case.state",
        target_kind: "case",
        target_id: Some(case_id),
        reason: owned(note),
        previous_state: Some(previous.as_str()),
        new_state: Some(next.as_str()),
        case_id: Some(case_id),
    }
}

/// The audit entry of a content state change.
pub fn content_state_audit(
    target_type: TargetType,
    target_id: u128,
    previous: ContentState,
    next: ContentState,
    reason: Option<&str>,
    case_id: Option<u128>,
) -> (r: AuditEntry)
    ensures
        audit_fields(
            r,
            "content.state"@,
            target_type_name(target_type),
            Some(target_id),
            text_view(reason),
            Some(content_state_name(previous)),
            Some(content_state_name(next)),
            case_id,
        ),
{
    AuditEntry {
        action: "content.state",
        target_kind: target_type.as_str(),
        target_id: Some(target_id),
        reason: owned(reason),
        previous_state: Some(previous.as_str()),
        new_state: Some(next.as_str()),
        case_id,
    }
}

/// The audit entry of an account state change.
pub fn account_state_audit(
    user_id: u128,
    previous: AccountState,
    next: AccountState,
    reason: Option<&str>,
    case_id: Option<u128>,
) -> (r: AuditEntry)
    ensures
        audit_fields(
            r,
            "account.state"@,
            "user"@,
            Some(user_id),
            text_view(reason),
            Some(account_state_name(previous)),
            Some(account_state_name(next)),
            case_id,
        ),
{
    AuditEntry {
        action: "account.state",
        target_kind: "user",
        target_id: Some(user_id),
        reason: owned(reason),
        previous_state: Some(previous.as_str()),
        new_state: Some(next.as_str()),
        case_id,
    }
}

/// The audit entry of setting a restriction; the previous state says whether
/// one was recorded, the new state names the scope.
pub fn restriction_set_audit(
    user_id: u128,
    scope: RestrictionScope,
    was_restricted: bool,
    reason: Option<&str>,
    case_id: Option<u128>,
) -> (r: AuditEntry)
    ensures
        audit_fields(
            r,
            "restriction.set"@,
            "user"@,
            Some(user_id),
            text_view(reason),
            if was_restricted {
                Some("restricted"@)
            } else {
                None
            },
            Some(restriction_scope_name(scope)),
            case_id,
        ),
{
    AuditEntry {
        action: "restriction.set",
        target_kind: "user",
        target_id: Some(user_id),
        reason: owned(reason),
        previous_state: if was_restricted {
            Some("restricted")
        } else {
            None
        },
        new_state: Some(scope.as_str()),
        case_id,
    }
}

/// The audit entry of clearing a restriction.
pub fn restriction_clear_audit(user_id: u128, scope: RestrictionScope) -> (r: AuditEntry)
    ensures
        audit_fields(
            r,
            "restriction.clear"@,
            "user"@,
            Some(user_id),
            None,
            Some(restriction_scope_name(scope)),
            None,
            None,
        ),
{
    AuditEntry {
        action: "restriction.clear",
        target_kind: "user",
        target_id: Some(user_id),
        reason: None,
        previous_state: Some(scope.as_str()),
        new_state: None,
        case_id: None,
    }
}

/// The audit entry of binding a role.
pub fn role_set_audit(user_id: u128, previous: Option<Role>, next: Role, reason: Option<&str>) -> (r:
    AuditEntry)
    ensures
        audit_fields(
            r,
            "role.set"@,
            "user"@,
            Some(user_id),
            text_view(reason),
            match previous {
                Some(p) => Some(role_name(p)),
                None => None,
            },
            Some(role_name(next)),
            None,
        ),
{
    AuditEntry {
        action: "role.set",
        target_kind: "user",
        target_id: Some(user_id),
        reason: owned(reason),
        previous_state: match previous {
            Some(p) => Some(p.as_str()),
            None => None,
        },
        new_state: Some(next.as_str()),
        case_id: None,
    }
}

/// The audit entry of removing a role binding.
pub fn role_clear_audit(user_id: u128, previous: Role) -> (r: AuditEntry)
    ensures
        audit_fields(
            r,
            "role.clear"@,
            "user"@,
            Some(user_id),
            None,
            Some(role_name(previous)),
            None,
            None,
        ),
{
    AuditEntry {
        action: "role.clear",
        target_kind: "user",
        target_id: Some(user_id),
        reason: None,
        previous_state: Some(previous.as_str()),
        new_state: None,
        case_id: None,
    }
}

/// A case named by an update must exist for the same application and target.
pub fn case_reference_check(case_given: bool, case_matches: bool) -> (r: Result<(), ApiError>)
    ensures
        r is Ok <==> (!case_given || case_matches),
        r matches Err(e) ==> is_bad_request(
            e,
            "caseId must reference a case for the same app and target"@,
        ),
{
    if case_given && !case_matches {
        Err(
            ApiError::BadRequest(
                "caseId must reference a case for the same app and target".to_owned(),
            ),
        )
    } else {
        Ok(())
    }
}

} // verus!
