use social_service::error::ApiError;
use social_service::relationships::{
    acceptance_outcome, block_check_needed, blocked_outcome, direct_conversation_outcome,
    follow_counterpart_check, follow_target_check, lock_order, members_check_needed,
    pair_check_needed, relationship_target_check, Acceptance,
};

#[test]
fn block_checks_skip_self_and_anonymous_viewers() {
    assert!(block_check_needed(true, Some(1), 2));
    assert!(!block_check_needed(true, Some(2), 2));
    assert!(!block_check_needed(true, None, 2));
    assert!(!block_check_needed(false, Some(1), 2));
    assert!(pair_check_needed(true, 1, 2));
    assert!(!pair_check_needed(true, 3, 3));
    assert!(!members_check_needed(true, 1));
    assert!(members_check_needed(true, 2));
    assert!(matches!(blocked_outcome(true, "comment"), Err(ApiError::NotFound("comment"))));
    assert!(blocked_outcome(false, "comment").is_ok());
}

#[test]
fn blocked_direct_conversations_are_closed() {
    assert!(matches!(direct_conversation_outcome(false, 2, true), Err(ApiError::Forbidden)));
    assert!(direct_conversation_outcome(true, 2, true).is_ok());
    assert!(direct_conversation_outcome(false, 3, true).is_ok());
    assert!(direct_conversation_outcome(false, 2, false).is_ok());
}

#[test]
fn safety_relationships_target_someone_else() {
    assert_eq!(
        relationship_target_check(1, 1, 2).expect_err("self").message(),
        "bad request: a user safety relationship cannot target the current user"
    );
    assert!(matches!(relationship_target_check(1, 2, 1), Err(ApiError::NotFound("profile"))));
    assert!(relationship_target_check(1, 2, 2).is_ok());
    assert_eq!(
        follow_counterpart_check(3, 3, 2).expect_err("self").message(),
        "bad request: users cannot request or approve a follow for themselves"
    );
    assert!(matches!(follow_counterpart_check(3, 4, 0), Err(ApiError::NotFound("profile"))));
    assert_eq!(
        follow_target_check(5, 5).expect_err("self").message(),
        "bad request: users cannot follow themselves"
    );
}

#[test]
fn acceptance_is_idempotent() {
    assert_eq!(acceptance_outcome(true, false).expect("approve"), Acceptance::Approve);
    assert_eq!(acceptance_outcome(false, true).expect("repeat"), Acceptance::AlreadyApproved);
    assert_eq!(
        acceptance_outcome(false, false).expect_err("nothing").message(),
        "follow request not found"
    );
}

#[test]
fn users_are_locked_in_ascending_order_once() {
    assert_eq!(lock_order(&vec![9, 3, 9, 1, 3]), vec![1, 3, 9]);
    assert!(lock_order(&vec![]).is_empty());
    assert_eq!(lock_order(&vec![u128::MAX, 0]), vec![0, u128::MAX]);
}
