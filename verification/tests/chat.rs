use social_service::chat::{
    conversation_members, conversation_members_available, new_conversation_blocks_check,
    require_membership, validate_message,
};
use social_service::error::ApiError;

#[test]
fn conversations_hold_two_to_a_hundred_members() {
    assert_eq!(conversation_members(1, &vec![2, 1, 2]).expect("valid"), vec![1, 2]);
    assert_eq!(
        conversation_members(1, &vec![1]).expect_err("alone").message(),
        "bad request: a conversation must contain 2-100 unique members"
    );
    let many: Vec<u128> = (2..=101).collect();
    assert!(conversation_members(1, &many).is_err());
    assert!(conversation_members(1, &(2..=100).collect()).is_ok());
    assert!(conversation_members_available(true).is_err());
    assert!(matches!(require_membership(false), Err(ApiError::Forbidden)));
}

#[test]
fn messages_need_text_or_media() {
    assert_eq!(validate_message(Some("  hi "), &vec![]).expect("text"), Some("hi"));
    assert_eq!(validate_message(Some("  "), &vec![9]).expect("media only"), None);
    assert_eq!(
        validate_message(Some(" "), &vec![]).expect_err("empty").message(),
        "bad request: a message requires body text or media"
    );
    assert_eq!(
        validate_message(Some(&"a".repeat(10_001)), &vec![]).expect_err("long").message(),
        "bad request: message body must contain at most 10000 characters"
    );
    assert!(validate_message(Some(&"a".repeat(10_000)), &vec![]).is_ok());
    assert_eq!(
        validate_message(None, &(0..9).collect()).expect_err("many").message(),
        "bad request: at most 8 media attachments are allowed"
    );
    assert_eq!(
        validate_message(None, &vec![4, 4]).expect_err("dup").message(),
        "bad request: mediaIds must not contain duplicates"
    );
}

#[test]
fn new_conversations_refuse_a_blocked_pair() {
    assert!(new_conversation_blocks_check(false).is_ok());
    assert!(matches!(new_conversation_blocks_check(true), Err(ApiError::Forbidden)));
}
