use social_service::error::ApiError;
use social_service::groups::{
    add_member_decision, group_actor_available, group_chat_members_check, group_members_available,
    initial_role, leave_group_decision, normalize_members, remove_member_decision,
    require_group_manager, role_change_events, set_member_role_decision, validate_name, Addition,
    GroupRole, Removal, RoleChange, SetGroupRole,
};
use social_service::groups::{group_chat_plan, GroupChatPlan};
use social_service::moderation::AccountState;

#[test]
fn owners_and_admins_manage() {
    assert!(GroupRole::Owner.can_manage_members());
    assert!(GroupRole::Admin.can_manage_group());
    assert!(!GroupRole::Member.can_manage_members());
    assert!(matches!(require_group_manager(GroupRole::Member), Err(ApiError::Forbidden)));
}

#[test]
fn new_group_members_put_the_creator_first_once() {
    assert_eq!(normalize_members(5, vec![7, 5, 7, 8]).expect("valid"), vec![5, 7, 8]);
    assert_eq!(normalize_members(5, vec![]).expect("valid"), vec![5]);
    let many: Vec<u128> = (1..=100).collect();
    assert_eq!(
        normalize_members(0, many.clone()).expect_err("101 members").message(),
        "bad request: a group can contain at most 100 unique members"
    );
    assert_eq!(normalize_members(1, many).expect("100 members").len(), 100);
    assert_eq!(initial_role(5, 5), GroupRole::Owner);
    assert_eq!(initial_role(6, 5), GroupRole::Member);
}

#[test]
fn group_names_are_trimmed_and_bounded() {
    assert_eq!(validate_name("  Book club ").expect("valid"), "Book club");
    assert_eq!(
        validate_name("   ").expect_err("empty").message(),
        "bad request: group name must contain 1-120 characters"
    );
    assert!(validate_name(&"n".repeat(121)).is_err());
}

#[test]
fn additions() {
    assert!(matches!(add_member_decision(GroupRole::Member, true, false, 3), Err(ApiError::Forbidden)));
    assert_eq!(
        add_member_decision(GroupRole::Admin, false, false, 3).expect_err("unavailable").message(),
        "bad request: group members must be available in this app"
    );
    assert_eq!(add_member_decision(GroupRole::Admin, true, true, 100).expect("member"), Addition::AlreadyMember);
    assert_eq!(
        add_member_decision(GroupRole::Owner, true, false, 100).expect_err("full").message(),
        "bad request: a group can contain at most 100 members"
    );
    assert_eq!(add_member_decision(GroupRole::Owner, true, false, 99).expect("joins"), Addition::Join);
}

#[test]
fn removals_never_touch_the_owner() {
    assert!(matches!(remove_member_decision(GroupRole::Member, Some(GroupRole::Member)), Err(ApiError::Forbidden)));
    assert_eq!(remove_member_decision(GroupRole::Admin, None).expect("absent"), Removal::NotMember);
    assert!(matches!(remove_member_decision(GroupRole::Owner, Some(GroupRole::Owner)), Err(ApiError::Forbidden)));
    assert!(matches!(remove_member_decision(GroupRole::Admin, Some(GroupRole::Admin)), Err(ApiError::Forbidden)));
    assert_eq!(
        remove_member_decision(GroupRole::Admin, Some(GroupRole::Member)).expect("member"),
        Removal::Remove(GroupRole::Member)
    );
    assert_eq!(
        remove_member_decision(GroupRole::Owner, Some(GroupRole::Admin)).expect("admin"),
        Removal::Remove(GroupRole::Admin)
    );
}

#[test]
fn owners_transfer_before_leaving() {
    assert_eq!(
        leave_group_decision(GroupRole::Owner).expect_err("owner").message(),
        "bad request: transfer group ownership before leaving"
    );
    assert!(leave_group_decision(GroupRole::Admin).is_ok());
}

#[test]
fn role_changes() {
    let owner = 1;
    let other = 2;
    let request = SetGroupRole { role: GroupRole::Owner };
    assert!(matches!(
        set_member_role_decision(owner, GroupRole::Admin, other, Some(GroupRole::Member), request.role),
        Err(ApiError::Forbidden)
    ));
    assert_eq!(
        set_member_role_decision(owner, GroupRole::Owner, other, None, GroupRole::Admin)
            .expect_err("not a member")
            .message(),
        "bad request: target user is not a group member"
    );
    assert_eq!(
        set_member_role_decision(owner, GroupRole::Owner, other, Some(GroupRole::Admin), GroupRole::Admin).expect("same"),
        RoleChange::Unchanged
    );
    assert_eq!(
        set_member_role_decision(owner, GroupRole::Owner, owner, Some(GroupRole::Owner), GroupRole::Owner).expect("self"),
        RoleChange::Unchanged
    );
    let transfer = set_member_role_decision(owner, GroupRole::Owner, other, Some(GroupRole::Member), GroupRole::Owner)
        .expect("transfer");
    assert_eq!(transfer, RoleChange::TransferOwnership { previous_target_role: GroupRole::Member });
    let events = role_change_events(owner, other, transfer);
    assert_eq!(events.len(), 2);
    assert_eq!((events[0].user_id, events[0].previous_role, events[0].new_role), (owner, Some(GroupRole::Owner), Some(GroupRole::Admin)));
    assert_eq!((events[1].user_id, events[1].previous_role, events[1].new_role), (other, Some(GroupRole::Member), Some(GroupRole::Owner)));
    assert_eq!(events[1].event_type, "role_changed");
    assert_eq!(
        set_member_role_decision(owner, GroupRole::Owner, owner, Some(GroupRole::Owner), GroupRole::Admin)
            .expect_err("self demotion")
            .message(),
        "bad request: transfer ownership before changing the owner's role"
    );
    let change = set_member_role_decision(owner, GroupRole::Owner, other, Some(GroupRole::Member), GroupRole::Admin)
        .expect("promote");
    assert_eq!(change, RoleChange::Change { from: GroupRole::Member, to: GroupRole::Admin });
    assert_eq!(role_change_events(owner, other, change).len(), 1);
    assert!(role_change_events(owner, other, RoleChange::Unchanged).is_empty());
}

#[test]
fn availability_and_chat_checks() {
    assert!(matches!(group_actor_available(true, Some(AccountState::Banned)), Err(ApiError::Forbidden)));
    assert!(group_actor_available(false, Some(AccountState::Banned)).is_ok());
    assert!(group_members_available(true, true).is_err());
    assert!(group_members_available(false, true).is_ok());
    assert_eq!(
        group_chat_members_check(1).expect_err("alone").message(),
        "bad request: a group chat requires at least 2 members"
    );
    assert!(group_chat_members_check(2).is_ok());
}

#[test]
fn opening_a_group_chat_again_reuses_the_linked_one() {
    assert_eq!(group_chat_plan(Some(9), 0).expect("linked"), GroupChatPlan::Reuse(9));
    assert_eq!(group_chat_plan(Some(9), 40).expect("linked"), GroupChatPlan::Reuse(9));
    assert_eq!(group_chat_plan(None, 2).expect("two members"), GroupChatPlan::Create);
    assert_eq!(
        group_chat_plan(None, 1).expect_err("one member").message(),
        "bad request: a group chat requires at least 2 members"
    );
}
