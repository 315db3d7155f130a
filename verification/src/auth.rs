//! Caller identity taken from the trusted gateway's headers: the application
//! scope and, where present, the user.

use vstd::prelude::*;

use crate::error::{is_bad_request, ApiError};
use crate::text::join3;

verus! {

/// A header that is present, as the gateway delivered it.
#[derive(Debug, Clone)]
pub enum HeaderText {
    /// The value is visible ASCII text.
    Text(String),
    /// The value holds bytes that are not visible ASCII.
    Unreadable,
}

/// The application a request is scoped to.
#[derive(Debug, Clone, Copy, PartialEq, Eq, Structural)]
pub struct AppId(pub u128);

/// The user a request acts for.
#[derive(Debug, Clone, Copy, PartialEq, Eq, Structural)]
pub struct UserId(pub u128);

/// The application and the user of an authenticated request.
#[derive(Debug, Clone, Copy, PartialEq, Eq, Structural)]
pub struct RequestContext {
    pub app_id: AppId,
    pub user_id: UserId,
}

/// The UUID, as its 128-bit value, that `uuid::Uuid::parse_str` reads from a text.
pub uninterp spec fn parsed_uuid(text: Seq<char>) -> Option<u128>;

/// Reads a UUID with `uuid::Uuid::parse_str`.
///
/// The contract names the outcome `parsed_uuid` of the text and says nothing
/// more of which texts the crate accepts (any of its hyphenated, simple, URN
/// and braced forms).
#[verifier::external_body]
fn uuid_from_text(text: &str) -> (r: Option<u128>)
    ensures
        r == parsed_uuid(text@),
{
    match uuid::Uuid::parse_str(text) {
        Ok(id) => Some(id.as_u128()),
        Err(_) => None,
    }
}

/// The UUID a present header holds, or the message that refuses it.
pub open spec fn header_uuid(value: HeaderText, name: Seq<char>) -> Result<u128, Seq<char>> {
    match value {
        HeaderText::Unreadable => Err("invalid `"@ + name + "` header"@),
        HeaderText::Text(t) => match parsed_uuid(t@) {
            Some(id) => Ok(id),
            None => Err("`"@ + name + "` must be a UUID"@),
        },
    }
}

/// The UUID a required header holds, or the message that refuses it.
pub open spec fn required_header_uuid(value: Option<HeaderText>, name: Seq<char>) -> Result<
    u128,
    Seq<char>,
> {
    match value {
        None => Err("missing `"@ + name + "` header"@),
        Some(v) => header_uuid(v, name),
    }
}

/// `r` is the UUID that `expected` gives, or the bad request it describes.
pub open spec fn uuid_outcome(expected: Result<u128, Seq<char>>, r: Result<u128, ApiError>) -> bool {
    match expected {
        Ok(id) => r == Ok::<u128, ApiError>(id),
        Err(m) => r matches Err(e) && is_bad_request(e, m),
    }
}

/// The identifier a header named `name` gives, from what reading its text as a
/// UUID gave: the UUID, or a bad request saying the header must be one.
pub fn header_identifier(parsed: Option<u128>, name: &str) -> (r: Result<u128, ApiError>)
    ensures
        match parsed {
            Some(id) => r == Ok::<u128, ApiError>(id),
            None => r matches Err(e) && is_bad_request(e, "`"@ + name@ + "` must be a UUID"@),
        },
{
    match parsed {
        Some(id) => Ok(id),
        None => Err(ApiError::BadRequest(join3("`", name, "` must be a UUID"))),
    }
}

fn parse_uuid(value: &HeaderText, name: &str) -> (r: Result<u128, ApiError>)
    ensures
        uuid_outcome(header_uuid(*value, name@), r),
{
    match value {
        HeaderText::Unreadable => Err(ApiError::BadRequest(join3("invalid `", name, "` header"))),
        HeaderText::Text(t) => header_identifier(uuid_from_text(t.as_str()), name),
    }
}

fn required_uuid(value: &Option<HeaderText>, name: &str) -> (r: Result<u128, ApiError>)
    ensures
        uuid_outcome(required_header_uuid(*value, name@), r),
{
    match value {
        None => Err(ApiError::BadRequest(join3("missing `", name, "` header"))),
        Some(v) => parse_uuid(v, name),
    }
}

impl RequestContext {
    /// The application and user of an authenticated request, from the
    /// `x-app-id` and `x-user-id` headers; the application is read first.
    pub fn from_headers(app: &Option<HeaderText>, user: &Option<HeaderText>) -> (r: Result<
        RequestContext,
        ApiError,
    >)
        ensures
            match (required_header_uuid(*app, "x-app-id"@), required_header_uuid(
                *user,
                "x-user-id"@,
            )) {
                (Ok(a), Ok(u)) => r == Ok::<RequestContext, ApiError>(
                    RequestContext { app_id: AppId(a), user_id: UserId(u) },
                ),
                (Err(m), _) => r matches Err(e) && is_bad_request(e, m),
                (Ok(_), Err(m)) => r matches Err(e) && is_bad_request(e, m),
            },
    {
        let a = match required_uuid(app, "x-app-id") {
            Ok(a) => a,
            Err(e) => {
                return Err(e);
            },
        };
        let u = match required_uuid(user, "x-user-id") {
            Ok(u) => u,
            Err(e) => {
                return Err(e);
            },
        };
        Ok(RequestContext { app_id: AppId(a), user_id: UserId(u) })
    }
}

/// The application of a request, from the `x-app-id` header.
pub fn app_id(app: &Option<HeaderText>) -> (r: Result<AppId, ApiError>)
    ensures
        match required_header_uuid(*app, "x-app-id"@) {
            Ok(a) => r == Ok::<AppId, ApiError>(AppId(a)),
            Err(m) => r matches Err(e) && is_bad_request(e, m),
        },
{
    match required_uuid(app, "x-app-id") {
        Ok(a) => Ok(AppId(a)),
        Err(e) => Err(e),
    }
}

/// The user of a request that may be anonymous: no `x-user-id` header means
/// no user, and a present header must hold a UUID.
pub fn optional_user_id(user: &Option<HeaderText>) -> (r: Result<Option<UserId>, ApiError>)
    ensures
        match *user {
            None => r == Ok::<Option<UserId>, ApiError>(None),
            Some(v) => match header_uuid(v, "x-user-id"@) {
                Ok(u) => r == Ok::<Option<UserId>, ApiError>(Some(UserId(u))),
                Err(m) => r matches Err(e) && is_bad_request(e, m),
            },
        },
{
    match user {
        None => Ok(None),
        Some(v) => match parse_uuid(v, "x-user-id") {
            Ok(u) => Ok(Some(UserId(u))),
            Err(e) => Err(e),
        },
    }
}

} // verus!
