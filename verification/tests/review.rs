use social_service::moderation::{AccountState, CaseState, ContentState, RestrictionScope, Role, TargetType};
use social_service::review::{
    account_state_audit, account_state_update, case_reference_check, case_state_audit,
    case_update_needed, content_state_audit, content_state_update, page_size, replay_key,
    replayed_report, report_replay_check, restriction_clear_audit, restriction_set_audit,
    restriction_update_needed, role_clear_audit, role_set_audit, role_update_needed,
    validate_report, validate_resolution_note, AuditQuery, CaseQuery, SetCaseState, SetRole,
};

#[test]
fn page_sizes_are_defaulted_and_clamped() {
    assert_eq!(CaseQuery { state: None, limit: None }.page_size(), 50);
    assert_eq!(CaseQuery { state: Some(CaseState::Open), limit: Some(500) }.page_size(), 100);
    assert_eq!(CaseQuery { state: None, limit: Some(0) }.page_size(), 1);
    assert_eq!(AuditQuery { limit: None }.page_size(), 100);
    assert_eq!(AuditQuery { limit: Some(300) }.page_size(), 250);
    assert_eq!(page_size(Some(7), 50, 1, 100), 7);
}

#[test]
fn reports_are_checked() {
    let report = validate_report(" spam ", Some("  "), Some(" key ")).expect("valid");
    assert_eq!((report.category, report.context, report.idempotency_key), ("spam", None, Some("key")));
    assert_eq!(
        validate_report(" ", None, None).expect_err("category").message(),
        "bad request: category must contain 1-80 characters"
    );
    assert_eq!(
        validate_report("spam", Some(&"c".repeat(2001)), None).expect_err("context").message(),
        "bad request: context must contain at most 2000 characters"
    );
    assert_eq!(
        validate_report("spam", None, Some(&"k".repeat(129))).expect_err("key").message(),
        "bad request: idempotencyKey must contain at most 128 characters"
    );
}

#[test]
fn replayed_reports_must_match() {
    assert!(report_replay_check(TargetType::Post, 1, "spam", None, TargetType::Post, 1, "spam", None).is_ok());
    assert_eq!(
        report_replay_check(TargetType::Post, 1, "spam", None, TargetType::Post, 1, "abuse", None)
            .expect_err("different")
            .message(),
        "bad request: idempotencyKey was already used for a different report"
    );
    assert!(report_replay_check(TargetType::Post, 1, "spam", Some("a"), TargetType::Post, 1, "spam", None).is_err());
    assert_eq!(replay_key(Some("k")).expect("key"), "k");
    assert_eq!(
        replay_key(None).expect_err("no key").message(),
        "bad request: report idempotency conflict without a key"
    );
}

#[test]
fn case_updates() {
    let request = SetCaseState { state: CaseState::Resolved, resolution_note: Some(" done ".to_owned()) };
    let note = validate_resolution_note(request.resolution_note.as_deref()).expect("valid");
    assert_eq!(note, Some("done"));
    assert!(!case_update_needed(CaseState::Resolved, Some("done"), request.state, note));
    assert!(case_update_needed(CaseState::Open, Some("done"), request.state, note));
    assert!(case_update_needed(CaseState::Resolved, None, request.state, note));
    assert_eq!(
        validate_resolution_note(Some(&"n".repeat(4001))).expect_err("long").message(),
        "bad request: resolutionNote must contain at most 4000 characters"
    );
    let audit = case_state_audit(3, CaseState::Open, CaseState::Resolved, note);
    assert_eq!((audit.action, audit.target_kind, audit.previous_state, audit.new_state), ("case.state", "case", Some("open"), Some("resolved")));
    assert_eq!(audit.reason.as_deref(), Some("done"));
    assert_eq!(audit.case_id, Some(3));
}

#[test]
fn state_updates_are_idempotent() {
    assert_eq!(content_state_update(None, ContentState::Active), None);
    assert_eq!(content_state_update(None, ContentState::Hidden), Some(ContentState::Active));
    assert_eq!(content_state_update(Some(ContentState::Hidden), ContentState::Hidden), None);
    assert_eq!(account_state_update(None, AccountState::Banned), Some(AccountState::Active));
    assert_eq!(account_state_update(Some(AccountState::Banned), AccountState::Banned), None);
    assert!(!restriction_update_needed(Some(Some("r")), Some("r")));
    assert!(restriction_update_needed(Some(None), Some("r")));
    assert!(restriction_update_needed(None, None));
    assert!(!role_update_needed(Some(Role::Admin), Role::Admin));
    assert!(role_update_needed(None, Role::Moderator));
    let request = SetRole { role: Role::Moderator, reason: None };
    assert!(role_update_needed(Some(Role::Admin), request.role));
}

#[test]
fn audit_entries() {
    let content = content_state_audit(TargetType::Comment, 5, ContentState::Active, ContentState::Removed, Some("r"), Some(9));
    assert_eq!((content.action, content.target_kind, content.target_id, content.case_id), ("content.state", "comment", Some(5), Some(9)));
    assert_eq!((content.previous_state, content.new_state), (Some("active"), Some("removed")));
    let account = account_state_audit(6, AccountState::Active, AccountState::Suspended, None, None);
    assert_eq!((account.action, account.target_kind, account.new_state), ("account.state", "user", Some("suspended")));
    let set = restriction_set_audit(6, RestrictionScope::Chat, true, Some("x"), None);
    assert_eq!((set.action, set.previous_state, set.new_state), ("restriction.set", Some("restricted"), Some("chat")));
    assert_eq!(restriction_set_audit(6, RestrictionScope::Post, false, None, None).previous_state, None);
    let clear = restriction_clear_audit(6, RestrictionScope::Follow);
    assert_eq!((clear.action, clear.previous_state, clear.new_state), ("restriction.clear", Some("follow"), None));
    let role = role_set_audit(6, None, Role::Admin, Some("promote"));
    assert_eq!((role.action, role.previous_state, role.new_state), ("role.set", None, Some("admin")));
    let cleared = role_clear_audit(6, Role::Moderator);
    assert_eq!((cleared.action, cleared.previous_state, cleared.new_state), ("role.clear", Some("moderator"), None));
    assert!(case_reference_check(false, false).is_ok());
    assert_eq!(
        case_reference_check(true, false).expect_err("mismatch").message(),
        "bad request: caseId must reference a case for the same app and target"
    );
}

#[test]
fn a_matching_report_replay_gives_the_stored_report() {
    let stored = ("report-1", 3u32);
    assert_eq!(
        replayed_report(stored, TargetType::Post, 5, "spam", Some("ctx"), TargetType::Post, 5, "spam", Some("ctx"))
            .expect("same report"),
        stored
    );
    assert_eq!(
        replayed_report(stored, TargetType::Post, 5, "spam", None, TargetType::Post, 5, "abuse", None)
            .expect_err("different category")
            .message(),
        "bad request: idempotencyKey was already used for a different report"
    );
}
