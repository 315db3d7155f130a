use social_service::error::ApiError;
use social_service::features::{Feature, FeatureError, FeatureSet, FeaturesResponse};

#[test]
fn parses_enabled_features_in_canonical_order() {
    let features = FeatureSet::from_csv("chat,profiles").expect("valid feature set");
    assert_eq!(features.enabled(), vec![Feature::Profiles, Feature::Chat]);
}

#[test]
fn resolves_transitive_dependencies() {
    let features = FeatureSet::from_csv("comments").expect("dependencies resolve");
    assert_eq!(features.app_requested(), vec![Feature::Comments]);
    assert_eq!(
        features.effective(),
        vec![Feature::Profiles, Feature::Posts, Feature::Comments]
    );
}

#[test]
fn moderation_resolves_profiles_without_enabling_social_surfaces() {
    let features = FeatureSet::from_csv("moderation").expect("moderation should resolve");
    assert_eq!(features.app_requested(), vec![Feature::Moderation]);
    assert_eq!(
        features.effective(),
        vec![Feature::Profiles, Feature::Moderation]
    );
}

#[test]
fn app_requests_are_bounded_by_deployment_support() {
    let deployment = FeatureSet::from_csv("comments,follows").expect("valid deployment features");
    let app = deployment
        .for_app_csv("comments")
        .expect("supported app subset");
    assert_eq!(app.app_requested(), vec![Feature::Comments]);
    assert_eq!(
        app.effective(),
        vec![Feature::Profiles, Feature::Posts, Feature::Comments]
    );
    assert_eq!(
        app.deployment_supported(),
        vec![
            Feature::Profiles,
            Feature::Posts,
            Feature::Comments,
            Feature::Follows
        ]
    );
}

#[test]
fn rejects_app_requests_outside_deployment_support() {
    let deployment = FeatureSet::from_csv("profiles").expect("valid deployment features");
    assert_eq!(
        deployment
            .for_app_csv("chat")
            .expect_err("chat is outside deployment support"),
        FeatureError::Unsupported(Feature::Chat)
    );
}

#[test]
fn rejects_unknown_features() {
    assert_eq!(
        FeatureSet::from_csv("profiles,telepathy").expect_err("unknown feature must fail"),
        FeatureError::Unknown("telepathy".to_owned())
    );
}

#[test]
fn default_deployment_list_resolves_every_documented_capability_but_moderation() {
    let features = FeatureSet::from_csv(
        "profiles,media,posts,comments,reactions,votes,follows,follow_requests,saves,blocks,mutes,groups,chat",
    )
    .expect("default list is valid");
    assert_eq!(
        features.effective(),
        vec![
            Feature::Profiles,
            Feature::Media,
            Feature::Posts,
            Feature::Comments,
            Feature::Reactions,
            Feature::Votes,
            Feature::Follows,
            Feature::FollowRequests,
            Feature::Saves,
            Feature::Blocks,
            Feature::Mutes,
            Feature::Groups,
            Feature::Chat,
        ]
    );
    assert!(!features.is_enabled(Feature::Moderation));
    assert_eq!(features.implemented().len(), 14);
}

#[test]
fn documented_requirement_closures() {
    let cases: Vec<(&str, Vec<Feature>)> = vec![
        ("reactions", vec![Feature::Profiles, Feature::Posts, Feature::Reactions]),
        ("votes", vec![Feature::Profiles, Feature::Posts, Feature::Votes]),
        (
            "follow_requests",
            vec![Feature::Profiles, Feature::Follows, Feature::FollowRequests],
        ),
        ("blocks", vec![Feature::Profiles, Feature::Blocks]),
        ("mutes", vec![Feature::Profiles, Feature::Mutes]),
        ("groups", vec![Feature::Profiles, Feature::Groups]),
    ];
    for (csv, expected) in cases {
        let features = FeatureSet::from_csv(csv).expect("valid");
        assert_eq!(features.effective(), expected, "{csv}");
    }
}

#[test]
fn csv_entries_are_trimmed_and_empty_entries_ignored() {
    let features = FeatureSet::from_csv(" chat , ,\tprofiles,").expect("valid");
    assert_eq!(features.app_requested(), vec![Feature::Profiles, Feature::Chat]);
    let empty = FeatureSet::from_csv("").expect("empty list is valid");
    assert!(empty.effective().is_empty());
    assert!(empty.deployment_supported().is_empty());
}

#[test]
fn first_unknown_entry_is_reported() {
    assert_eq!(
        FeatureSet::from_csv("posts, Chat ,nope").expect_err("case matters"),
        FeatureError::Unknown("Chat".to_owned())
    );
}

#[test]
fn app_dependencies_come_from_the_deployment_closure() {
    let deployment = FeatureSet::from_csv("follow_requests").expect("valid");
    let app = deployment.for_app_csv("follows").expect("follows is supported");
    assert_eq!(app.effective(), vec![Feature::Profiles, Feature::Follows]);
    assert_eq!(
        deployment.for_app_csv("profiles,posts").expect_err("posts unsupported"),
        FeatureError::Unsupported(Feature::Posts)
    );
    assert_eq!(
        deployment.for_app_csv("bogus").expect_err("unknown"),
        FeatureError::Unknown("bogus".to_owned())
    );
}

#[test]
fn require_reports_disabled_features() {
    let features = FeatureSet::from_csv("posts").expect("valid");
    assert!(features.require(Feature::Profiles).is_ok());
    match features.require(Feature::Chat) {
        Err(error @ ApiError::FeatureDisabled(Feature::Chat)) => {
            assert_eq!(error.message(), "feature `chat` is disabled");
        }
        other => panic!("unexpected {other:?}"),
    }
}

#[test]
fn feature_requirements_and_integrations() {
    assert!(Feature::Profiles.required_features().is_empty());
    assert_eq!(Feature::Comments.required_features(), vec![Feature::Posts]);
    assert_eq!(Feature::FollowRequests.required_features(), vec![Feature::Follows]);
    assert_eq!(Feature::Chat.required_features(), vec![Feature::Profiles]);
    assert_eq!(Feature::Groups.integrates_with(), vec![Feature::Media, Feature::Chat]);
    assert_eq!(Feature::Posts.integrates_with(), vec![Feature::Media]);
    assert!(Feature::Moderation.conflicts().is_empty());
    assert_eq!(Feature::parse("follow_requests"), Some(Feature::FollowRequests));
    assert_eq!(Feature::parse("telepathy"), None);
    assert_eq!(Feature::FollowRequests.as_str(), "follow_requests");
}

#[test]
fn feature_error_messages() {
    assert_eq!(
        FeatureError::Unknown("x".to_owned()).message(),
        "unknown social feature `x`"
    );
    assert_eq!(
        FeatureError::Unsupported(Feature::Chat).message(),
        "feature `chat` is not supported by this deployment"
    );
    assert_eq!(
        FeatureError::UnsupportedDependency { feature: Feature::Comments, dependency: Feature::Posts }
            .message(),
        "feature `comments` requires unsupported feature `posts`"
    );
    assert_eq!(
        FeatureError::Conflict { feature: Feature::Chat, conflict: Feature::Media }.message(),
        "feature `chat` conflicts with `media`"
    );
}

#[test]
fn features_response_lists_every_layer() {
    let deployment = FeatureSet::from_csv("comments,chat").expect("valid");
    let app = deployment.for_app_csv("chat").expect("valid");
    let response = FeaturesResponse::from_features(&app);
    assert_eq!(response.enabled, vec![Feature::Profiles, Feature::Chat]);
    assert_eq!(response.effective, response.enabled);
    assert_eq!(response.app_requested, vec![Feature::Chat]);
    assert_eq!(
        response.deployment_supported,
        vec![Feature::Profiles, Feature::Posts, Feature::Comments, Feature::Chat]
    );
    assert_eq!(response.implemented.len(), 14);
}
