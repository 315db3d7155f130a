use social_service::auth::{AppId, HeaderText, RequestContext, UserId};
use social_service::error::ApiError;
use social_service::moderation::{
    account_visible, content_visible, correlation_id, trusted_capabilities, user_can_act,
    validate_reason, AccountState, Capability, CapabilitySet, ContentState, ModerationActor, Role,
    TargetType,
};

#[test]
fn moderator_role_has_no_role_management_capability() {
    assert!(
        Role::Moderator
            .capabilities()
            .contains(&Capability::ReportsRead)
    );
    assert!(
        !Role::Moderator
            .capabilities()
            .contains(&Capability::RolesManage)
    );
    assert!(
        Role::Admin
            .capabilities()
            .contains(&Capability::RolesManage)
    );
}

#[test]
fn trusted_capability_claims_are_fail_closed() {
    let header = Some(HeaderText::Text("reports.read,unknown".to_owned()));
    let error = trusted_capabilities(&header).expect_err("unknown claim must fail");
    assert_eq!(
        error.message(),
        "bad request: unknown moderation capability `unknown`"
    );
}

fn context() -> RequestContext {
    RequestContext { app_id: AppId(1), user_id: UserId(2) }
}

#[test]
fn actor_holds_claims_and_role_grants() {
    let claims = trusted_capabilities(&Some(HeaderText::Text(" audit.read , signals.write ".to_owned())))
        .expect("known claims");
    let actor = ModerationActor::new(context(), Some(Role::Moderator), claims);
    assert_eq!(
        actor.capability_names(),
        vec!["reports.read", "content.moderate", "users.restrict", "audit.read", "signals.write"]
    );
    assert!(actor.require(Capability::SignalsWrite).is_ok());
    assert!(matches!(actor.require(Capability::RolesManage), Err(ApiError::Forbidden)));
    assert_eq!(actor.role(), Some(Role::Moderator));
    assert_eq!(actor.context(), context());
}

#[test]
fn admin_holds_every_capability_and_absent_header_grants_nothing() {
    let none = trusted_capabilities(&None).expect("absent header");
    let plain = ModerationActor::new(
        context(),
        None,
        trusted_capabilities(&None).expect("absent header"),
    );
    assert!(plain.capability_names().is_empty());
    let admin = ModerationActor::new(context(), Some(Role::Admin), none);
    assert_eq!(admin.capability_names().len(), 7);
    assert_eq!(
        trusted_capabilities(&Some(HeaderText::Unreadable)).expect_err("unreadable").message(),
        "bad request: invalid `x-social-moderation-capabilities` header"
    );
}

#[test]
fn capability_names_round_trip() {
    for capability in Capability::all() {
        assert_eq!(Capability::parse(capability.as_str()), Some(capability));
    }
    assert_eq!(Capability::parse("Reports.Read"), None);
}

#[test]
fn enum_names_match_storage() {
    assert_eq!(TargetType::Conversation.as_str(), "conversation");
    assert_eq!(ContentState::Removed.as_str(), "removed");
    assert_eq!(AccountState::Suspended.as_str(), "suspended");
    assert_eq!(Role::Admin.as_str(), "admin");
}

#[test]
fn correlation_ids_are_bounded() {
    assert_eq!(correlation_id(&None).expect("absent"), None);
    assert_eq!(
        correlation_id(&Some(HeaderText::Text("req-1".to_owned()))).expect("valid"),
        Some("req-1".to_owned())
    );
    assert_eq!(
        correlation_id(&Some(HeaderText::Text(String::new()))).expect_err("empty").message(),
        "bad request: x-request-id must contain 1-128 characters"
    );
    assert!(correlation_id(&Some(HeaderText::Text("x".repeat(129)))).is_err());
    assert!(correlation_id(&Some(HeaderText::Text("é".repeat(128)))).is_ok());
    assert_eq!(
        correlation_id(&Some(HeaderText::Unreadable)).expect_err("unreadable").message(),
        "bad request: invalid `x-request-id` header"
    );
}

#[test]
fn reasons_are_trimmed_and_bounded() {
    assert_eq!(validate_reason(Some("  spam ")).expect("valid"), Some("spam"));
    assert_eq!(validate_reason(Some("   ")).expect("valid"), None);
    assert_eq!(validate_reason(None).expect("valid"), None);
    assert_eq!(
        validate_reason(Some(&"r".repeat(2001))).expect_err("too long").message(),
        "bad request: reason must contain at most 2000 characters"
    );
    assert!(validate_reason(Some(&"r".repeat(2000))).is_ok());
}

#[test]
fn moderation_gates_ordinary_activity() {
    assert!(user_can_act(false, Some(AccountState::Banned), true).is_ok());
    assert!(user_can_act(true, None, false).is_ok());
    assert!(matches!(user_can_act(true, Some(AccountState::Suspended), false), Err(ApiError::Forbidden)));
    assert!(matches!(user_can_act(true, Some(AccountState::Active), true), Err(ApiError::Forbidden)));
    assert!(matches!(account_visible(true, Some(AccountState::Banned)), Err(ApiError::NotFound("profile"))));
    assert!(account_visible(true, Some(AccountState::Active)).is_ok());
    assert!(matches!(content_visible(true, Some(ContentState::Hidden), "post"), Err(ApiError::NotFound("post"))));
    assert!(content_visible(false, Some(ContentState::Removed), "post").is_ok());
    assert!(content_visible(true, None, "post").is_ok());
    let _ = CapabilitySet::none();
}

#[test]
fn either_of_two_capabilities_is_enough() {
    let claimed = trusted_capabilities(&Some(HeaderText::Text("content.moderate".to_owned())))
        .expect("known claim");
    let actor = ModerationActor::new(context(), None, claimed);
    assert!(actor.require_either(Capability::ReportsRead, Capability::ContentModerate).is_ok());
    assert!(actor.require_either(Capability::ContentModerate, Capability::AuditRead).is_ok());
    assert!(matches!(
        actor.require_either(Capability::ReportsRead, Capability::RolesManage),
        Err(ApiError::Forbidden)
    ));
}
