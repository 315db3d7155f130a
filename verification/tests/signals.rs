use social_service::moderation::TargetType;
use social_service::signals::{
    evidence_check, replayed_signal, signal_case_check, signal_replay_check, validate_signal_text, SignalIdentity,
    SignalQuery, SignalSeverity,
};
use social_service::validation::{optional_text, required_text};

#[test]
fn trims_and_bounds_signal_identifiers() {
    assert_eq!(required_text("  spam  ", "kind", 10).expect("valid"), "spam");
    assert!(required_text("   ", "kind", 10).is_err());
    assert_eq!(optional_text(Some(" model "), "model", 10).expect("valid"), Some("model"));
    assert_eq!(optional_text(Some("  "), "model", 10).expect("valid"), None);
}

#[test]
fn text_bound_messages_render_the_limit() {
    assert_eq!(
        required_text("", "kind", 120).expect_err("empty").message(),
        "bad request: kind must contain 1-120 characters"
    );
    assert_eq!(
        optional_text(Some("abcdef"), "model", 5).expect_err("long").message(),
        "bad request: model must contain at most 5 characters"
    );
}

#[test]
fn signal_text_checks_in_order() {
    let ok = validate_signal_text(" classifier ", " spam ", " k1 ", Some(" m "), None).expect("valid");
    assert_eq!((ok.source, ok.kind, ok.idempotency_key, ok.model, ok.model_version), ("classifier", "spam", "k1", Some("m"), None));
    assert_eq!(
        validate_signal_text("", "", "", None, None).expect_err("source first").message(),
        "bad request: source must contain 1-120 characters"
    );
    assert_eq!(
        validate_signal_text("s", "k", &"x".repeat(129), None, None).expect_err("key").message(),
        "bad request: idempotencyKey must contain 1-128 characters"
    );
    assert_eq!(
        validate_signal_text("s", "k", "i", None, Some(&"v".repeat(121))).expect_err("version").message(),
        "bad request: modelVersion must contain at most 120 characters"
    );
}

#[test]
fn evidence_and_case_checks() {
    assert!(evidence_check(true, 16384).is_ok());
    assert_eq!(
        evidence_check(true, 16385).expect_err("too big").message(),
        "bad request: evidence must be at most 16384 bytes"
    );
    assert_eq!(
        evidence_check(false, 2).expect_err("array").message(),
        "bad request: evidence must be a JSON object"
    );
    assert!(signal_case_check(Some((TargetType::Post, 7)), TargetType::Post, 7).is_ok());
    assert_eq!(
        signal_case_check(Some((TargetType::Post, 7)), TargetType::Comment, 7).expect_err("mismatch").message(),
        "bad request: caseId does not match moderation signal target"
    );
    assert_eq!(
        signal_case_check(None, TargetType::Post, 7).expect_err("missing").message(),
        "moderation case not found"
    );
}

#[test]
fn signal_query_filters() {
    let mut query = SignalQuery {
        target_type: Some(TargetType::Post),
        target_id: None,
        case_id: None,
        minimum_severity: Some(SignalSeverity::High),
        source: Some(" model ".to_owned()),
        limit: Some(1000),
    };
    assert_eq!(
        query.source_filter().expect_err("pair").message(),
        "bad request: targetType and targetId must be provided together"
    );
    query.target_id = Some(3);
    assert_eq!(query.source_filter().expect("valid"), Some("model"));
    assert_eq!(query.page_size(), 100);
    query.limit = None;
    assert_eq!(query.page_size(), 50);
    query.limit = Some(-4);
    assert_eq!(query.page_size(), 1);
}

fn identity<'a>(kind: &'a str, model: Option<&'a str>) -> SignalIdentity<'a> {
    SignalIdentity {
        case_id: None,
        target_type: TargetType::Post,
        target_id: 7,
        kind,
        severity: SignalSeverity::High,
        model,
        model_version: None,
    }
}

#[test]
fn signal_replay_must_repeat_every_field() {
    let stored = identity("spam", Some("m1"));
    assert!(signal_replay_check(stored, identity("spam", Some("m1")), true, true, true, true).is_ok());
    assert!(signal_replay_check(stored, identity("spam", Some("m1")), true, true, false, false).is_ok());
    let refused = [
        signal_replay_check(stored, identity("abuse", Some("m1")), true, true, false, false),
        signal_replay_check(stored, identity("spam", None), true, true, false, false),
        signal_replay_check(stored, identity("spam", Some("m1")), false, true, false, false),
        signal_replay_check(stored, identity("spam", Some("m1")), true, false, false, false),
        signal_replay_check(stored, identity("spam", Some("m1")), true, true, true, false),
    ];
    for outcome in refused {
        assert_eq!(
            outcome.expect_err("different signal").message(),
            "bad request: idempotencyKey was already used for a different moderation signal"
        );
    }
    let mut other = identity("spam", Some("m1"));
    other.severity = SignalSeverity::Low;
    assert!(signal_replay_check(stored, other, true, true, false, false).is_err());
}

#[test]
fn a_matching_signal_replay_gives_the_stored_signal() {
    let stored = identity("spam", Some("m1"));
    assert_eq!(replayed_signal("signal-1", stored, identity("spam", Some("m1")), true, true, false, false).expect("same"), "signal-1");
    assert_eq!(
        replayed_signal("signal-1", stored, identity("spam", Some("m1")), true, false, false, false)
            .expect_err("different evidence")
            .message(),
        "bad request: idempotencyKey was already used for a different moderation signal"
    );
}
