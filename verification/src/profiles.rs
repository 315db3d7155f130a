//! Profiles and registered media: the bounds on their text and who may act.

use vstd::prelude::*;

use crate::error::{refused_as_bad_request, refused_with, ApiError};
use crate::moderation::{account_available, is_account_available, AccountState};
use crate::text::trim;
use crate::validation::{
    at_most_error, at_most_message, fits_required, present_text, range_message, required_text, text_view,
};

verus! {

/// Checks a profile: the trimmed display name holds 1 to 120 characters and
/// the bio, as given, at most 2000.
pub fn validate_profile(display_name: &str, bio: Option<&str>) -> (r: Result<(), ApiError>)
    ensures
        !fits_required(display_name@, 120) ==> refused_as_bad_request(
            r,
            range_message("displayName"@, 120),
        ),
        fits_required(display_name@, 120) && (bio matches Some(b) && b@.len() > 2000)
            ==> refused_as_bad_request(r, at_most_message("bio"@, 2000)),
        fits_required(display_name@, 120) && !(bio matches Some(b) && b@.len() > 2000) ==> r is Ok,
{
    match required_text(display_name, "displayName", 120) {
        Ok(_) => {},
        Err(e) => {
            return Err(e);
        },
    }
    match bio {
        Some(b) => {
            if b.unicode_len() > 2000 {
                return Err(at_most_error("bio", 2000));
            }
        },
        None => {},
    }
    Ok(())
}

/// The bio a profile stores: trimmed, none when empty.
pub fn stored_bio(bio: Option<&str>) -> (r: Option<&str>)
    ensures
        text_view(r) == present_text(text_view(bio)),
{
    match bio {
        Some(b) => {
            let t = trim(b);
            if t.unicode_len() == 0 {
                None
            } else {
                Some(t)
            }
        },
        None => None,
    }
}

/// Checks a media registration: a trimmed URL of 1 to 4096 characters and a
/// trimmed content type of 1 to 255; gives both trimmed.
pub fn validate_media<'a>(url: &'a str, content_type: &'a str) -> (r: Result<(&'a str, &'a str), ApiError>)
    ensures
        !fits_required(url@, 4096) ==> refused_as_bad_request(r, range_message("url"@, 4096)),
        fits_required(url@, 4096) && !fits_required(content_type@, 255) ==> refused_as_bad_request(
            r,
            range_message("contentType"@, 255),
        ),
        fits_required(url@, 4096) && fits_required(content_type@, 255) ==> (r matches Ok(p)
            && p.0@ == crate::text::trimmed(url@) && p.1@ == crate::text::trimmed(content_type@)),
{
    let u = match required_text(url, "url", 4096) {
        Ok(u) => u,
        Err(e) => {
            return Err(e);
        },
    };
    let c = match required_text(content_type, "contentType", 255) {
        Ok(c) => c,
        Err(e) => {
            return Err(e);
        },
    };
    Ok((u, c))
}

/// A user may react or vote only with a profile and, with moderation
/// enabled, an available account.
pub fn actor_active_check(profile_exists: bool, moderation_enabled: bool, account_state: Option<AccountState>) -> (r: Result<(), ApiError>)
    ensures
        !profile_exists ==> refused_with(r, ApiError::NotFound("profile")),
        profile_exists ==> (r is Ok <==> (!moderation_enabled || account_available(account_state))),
        profile_exists ==> (r matches Err(e) ==> e == ApiError::Forbidden),
{
    if !profile_exists {
        return Err(ApiError::NotFound("profile"));
    }
    if moderation_enabled && !is_account_available(account_state) {
        Err(ApiError::Forbidden)
    } else {
        Ok(())
    }
}

/// Media a user attaches or sets as an avatar must be their own in this app.
pub fn owned_media_check(owned: bool, group_avatar: bool) -> (r: Result<(), ApiError>)
    ensures
        r is Ok <==> owned,
        !owned && group_avatar ==> refused_as_bad_request(
            r,
            "group avatar media must belong to the current user and app"@,
        ),
        !owned && !group_avatar ==> refused_as_bad_request(
            r,
            "avatar media must belong to the current user and app"@,
        ),
{
    if owned {
        Ok(())
    } else if group_avatar {
        Err(
            ApiError::BadRequest(
                "group avatar media must belong to the current user and app".to_owned(),
            ),
        )
    } else {
        Err(ApiError::BadRequest("avatar media must belong to the current user and app".to_owned()))
    }
}

} // verus!
