use social_service::error::ApiError;
use social_service::moderation::AccountState;
use social_service::profiles::{actor_active_check, owned_media_check, stored_bio, validate_media, validate_profile};
use social_service::text::{decimal_text, trim};
use social_service::validation::validate_text;

#[test]
fn profiles_are_bounded() {
    assert!(validate_profile(" Ada ", Some("bio")).is_ok());
    assert_eq!(
        validate_profile("  ", None).expect_err("empty").message(),
        "bad request: displayName must contain 1-120 characters"
    );
    assert_eq!(
        validate_profile("Ada", Some(&"b".repeat(2001))).expect_err("bio").message(),
        "bad request: bio must contain at most 2000 characters"
    );
    assert_eq!(stored_bio(Some("  hi ")), Some("hi"));
    assert_eq!(stored_bio(Some("   ")), None);
}

#[test]
fn media_registration_is_bounded() {
    assert_eq!(validate_media(" https://x ", " image/png ").expect("valid"), ("https://x", "image/png"));
    assert_eq!(
        validate_media(" ", "image/png").expect_err("url").message(),
        "bad request: url must contain 1-4096 characters"
    );
    assert_eq!(
        validate_media("u", &"t".repeat(256)).expect_err("type").message(),
        "bad request: contentType must contain 1-255 characters"
    );
    assert_eq!(
        owned_media_check(false, true).expect_err("group").message(),
        "bad request: group avatar media must belong to the current user and app"
    );
    assert_eq!(
        owned_media_check(false, false).expect_err("profile").message(),
        "bad request: avatar media must belong to the current user and app"
    );
}

#[test]
fn active_actors() {
    assert!(matches!(actor_active_check(false, false, None), Err(ApiError::NotFound("profile"))));
    assert!(matches!(actor_active_check(true, true, Some(AccountState::Suspended)), Err(ApiError::Forbidden)));
    assert!(actor_active_check(true, true, Some(AccountState::Active)).is_ok());
}

#[test]
fn text_helpers() {
    assert_eq!(trim("\u{3000}\t hello \u{2009}\n"), "hello");
    assert_eq!(trim("   "), "");
    assert_eq!(decimal_text(0), "0");
    assert_eq!(decimal_text(10_000), "10000");
    assert_eq!(
        validate_text(" ", 5_000, "body").expect_err("empty").message(),
        "bad request: body must contain 1-5000 characters"
    );
    assert!(validate_text(&"é".repeat(5_000), 5_000, "body").is_ok());
}
