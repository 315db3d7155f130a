use social_service::auth::{app_id, header_identifier, optional_user_id, HeaderText, RequestContext};
use uuid::Uuid;

#[test]
fn parses_request_context() {
    let app = Uuid::new_v4();
    let user = Uuid::new_v4();
    let app_header = Some(HeaderText::Text(app.to_string()));
    let user_header = Some(HeaderText::Text(user.to_string()));

    let context = RequestContext::from_headers(&app_header, &user_header).expect("valid headers");
    assert_eq!(context.app_id.0, app.as_u128());
    assert_eq!(context.user_id.0, user.as_u128());
}

#[test]
fn optional_user_id_allows_public_reads_without_a_user() {
    assert_eq!(
        optional_user_id(&None).expect("missing optional user is valid"),
        None
    );
}

#[test]
fn optional_user_id_still_validates_a_present_header() {
    let header = Some(HeaderText::Text("not-a-uuid".to_owned()));
    let error = optional_user_id(&header).expect_err("invalid UUID must fail");
    assert_eq!(error.message(), "bad request: `x-user-id` must be a UUID");
}

#[test]
fn reads_the_uuid_value() {
    let header = Some(HeaderText::Text("550e8400-e29b-41d4-a716-446655440000".to_owned()));
    assert_eq!(
        app_id(&header).expect("valid").0,
        0x550e8400_e29b_41d4_a716_446655440000_u128
    );
}

#[test]
fn missing_and_unreadable_headers_are_reported_by_name() {
    let user = Some(HeaderText::Text(Uuid::new_v4().to_string()));
    assert_eq!(
        RequestContext::from_headers(&None, &user).expect_err("missing app").message(),
        "bad request: missing `x-app-id` header"
    );
    let app = Some(HeaderText::Text(Uuid::new_v4().to_string()));
    assert_eq!(
        RequestContext::from_headers(&app, &Some(HeaderText::Unreadable)).expect_err("bad user").message(),
        "bad request: invalid `x-user-id` header"
    );
    assert_eq!(
        RequestContext::from_headers(&Some(HeaderText::Text("x".to_owned())), &None)
            .expect_err("app is read first")
            .message(),
        "bad request: `x-app-id` must be a UUID"
    );
}

#[test]
fn header_identifier_keeps_a_read_uuid_and_refuses_a_missing_one() {
    assert_eq!(header_identifier(Some(42), "x-app-id").expect("read"), 42);
    assert_eq!(
        header_identifier(None, "x-user-id").expect_err("unread").message(),
        "bad request: `x-user-id` must be a UUID"
    );
}
