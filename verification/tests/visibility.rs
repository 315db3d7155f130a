use social_service::features::FeatureSet;
use social_service::posts::{
    comment_deletion, post_audience_check, post_audience_outcome, resolve_post_audience,
    unique_media_ids, AudienceCheck, CommentDeletion, PostAudience, Visibility,
};
use social_service::error::ApiError;
use social_service::features::Feature;

#[test]
fn public_content_is_visible_without_a_viewer() {
    assert!(Visibility::Public.can_view(7, None));
}

#[test]
fn private_content_is_visible_only_to_its_owner() {
    let owner = 41;
    assert!(Visibility::Private.can_view(owner, Some(owner)));
    assert!(!Visibility::Private.can_view(owner, None));
    assert!(!Visibility::Private.can_view(owner, Some(99)));
}

#[test]
fn audience_and_visibility_projection() {
    let with_requests = FeatureSet::from_csv("posts,follow_requests").expect("valid");
    let without = FeatureSet::from_csv("posts").expect("valid");
    assert_eq!(
        resolve_post_audience(&without, None, None).expect("default"),
        (PostAudience::Public, Visibility::Public)
    );
    assert_eq!(
        resolve_post_audience(&without, Some(Visibility::Private), None).expect("legacy"),
        (PostAudience::OwnerOnly, Visibility::Private)
    );
    assert_eq!(
        resolve_post_audience(&with_requests, None, Some(PostAudience::ApprovedFollowers)).expect("approved"),
        (PostAudience::ApprovedFollowers, Visibility::Private)
    );
    assert!(matches!(
        resolve_post_audience(&without, None, Some(PostAudience::ApprovedFollowers)),
        Err(ApiError::FeatureDisabled(Feature::FollowRequests))
    ));
    assert_eq!(
        resolve_post_audience(&without, Some(Visibility::Public), Some(PostAudience::OwnerOnly))
            .expect_err("conflict")
            .message(),
        "bad request: visibility conflicts with the requested post audience"
    );
}

#[test]
fn audience_admits_the_right_readers() {
    let author = 1;
    assert_eq!(post_audience_check(false, author, PostAudience::OwnerOnly, Some(author)), AudienceCheck::Visible);
    assert_eq!(post_audience_check(false, author, PostAudience::Public, None), AudienceCheck::Visible);
    assert_eq!(post_audience_check(true, author, PostAudience::OwnerOnly, Some(2)), AudienceCheck::Hidden);
    assert_eq!(post_audience_check(false, author, PostAudience::ApprovedFollowers, Some(2)), AudienceCheck::Hidden);
    assert_eq!(post_audience_check(true, author, PostAudience::ApprovedFollowers, None), AudienceCheck::Hidden);
    assert_eq!(post_audience_check(true, author, PostAudience::ApprovedFollowers, Some(2)), AudienceCheck::NeedsApproval(2));
    assert!(post_audience_outcome(AudienceCheck::NeedsApproval(2), true).is_ok());
    assert!(matches!(post_audience_outcome(AudienceCheck::NeedsApproval(2), false), Err(ApiError::NotFound("post"))));
    assert!(matches!(post_audience_outcome(AudienceCheck::Hidden, true), Err(ApiError::NotFound("post"))));
}

#[test]
fn media_attachments_are_bounded_and_unique() {
    assert_eq!(unique_media_ids(vec![3, 1, 2]).expect("valid"), vec![3, 1, 2]);
    assert_eq!(
        unique_media_ids((0..9).collect()).expect_err("too many").message(),
        "bad request: at most 8 media attachments are allowed"
    );
    assert_eq!(
        unique_media_ids(vec![1, 2, 1]).expect_err("dup").message(),
        "bad request: mediaIds must not contain duplicates"
    );
}

#[test]
fn deleting_a_comment_keeps_branches_whole() {
    assert_eq!(comment_deletion(true, true), CommentDeletion::AlreadyDeleted);
    assert_eq!(comment_deletion(false, true), CommentDeletion::Tombstone);
    assert_eq!(comment_deletion(false, false), CommentDeletion::Remove);
}
