//! Bounds on user-supplied text: required fields, optional notes, and the
//! messages that report a violation.

use vstd::prelude::*;

use crate::error::{is_bad_request, ApiError};
use crate::text::{decimal, decimal_text, join2, join3, trim, trimmed};

verus! {

/// "`field` must contain 1-`max` characters".
pub open spec fn range_message(field: Seq<char>, max: nat) -> Seq<char> {
    field + " must contain 1-"@ + decimal(max) + " characters"@
}

/// "`field` must contain at most `max` characters".
pub open spec fn at_most_message(field: Seq<char>, max: nat) -> Seq<char> {
    field + " must contain at most "@ + decimal(max) + " characters"@
}

/// The trimmed text holds between 1 and `max` characters.
pub open spec fn fits_required(value: Seq<char>, max: nat) -> bool {
    1 <= trimmed(value).len() <= max
}

/// The trimmed text, when it is not empty; empty input counts as absent.
pub open spec fn present_text(value: Option<Seq<char>>) -> Option<Seq<char>> {
    match value {
        Some(v) => if trimmed(v).len() == 0 {
            None
        } else {
            Some(trimmed(v))
        },
        None => None,
    }
}

/// The optional text is absent or holds at most `max` characters once trimmed.
pub open spec fn fits_optional(value: Option<Seq<char>>, max: nat) -> bool {
    match present_text(value) {
        Some(t) => t.len() <= max,
        None => true,
    }
}

/// The view of an optional text.
pub open spec fn text_view(value: Option<&str>) -> Option<Seq<char>> {
    match value {
        Some(v) => Some(v@),
        None => None,
    }
}

fn range_error(field: &str, max: usize) -> (e: ApiError)
    ensures
        is_bad_request(e, range_message(field@, max as nat)),
{
    let digits = decimal_text(max);
    let head = join3(field, " must contain 1-", digits.as_str());
    ApiError::BadRequest(join2(head.as_str(), " characters"))
}

/// The bad request "`field` must contain at most `max` characters".
pub fn at_most_error(field: &str, max: usize) -> (e: ApiError)
    ensures
        is_bad_request(e, at_most_message(field@, max as nat)),
{
    let digits = decimal_text(max);
    let head = join3(field, " must contain at most ", digits.as_str());
    ApiError::BadRequest(join2(head.as_str(), " characters"))
}

/// A required text field: trimmed, it must hold 1 to `max` characters.
pub fn required_text<'a>(value: &'a str, field: &str, max: usize) -> (r: Result<&'a str, ApiError>)
    ensures
        r is Ok <==> fits_required(value@, max as nat),
        r matches Ok(t) ==> t@ == trimmed(value@),
        r matches Err(e) ==> is_bad_request(e, range_message(field@, max as nat)),
{
    let t = trim(value);
    let n = t.unicode_len();
    if n == 0 || n > max {
        return Err(range_error(field, max));
    }
    Ok(t)
}

/// An optional text field: trimmed, empty counts as absent, and a present value
/// must hold at most `max` characters.
pub fn optional_text<'a>(value: Option<&'a str>, field: &str, max: usize) -> (r: Result<
    Option<&'a str>,
    ApiError,
>)
    ensures
        r is Ok <==> fits_optional(text_view(value), max as nat),
        r matches Ok(t) ==> text_view(t) == present_text(text_view(value)),
        r matches Err(e) ==> is_bad_request(e, at_most_message(field@, max as nat)),
{
    match value {
        None => Ok(None),
        Some(v) => {
            let t = trim(v);
            let n = t.unicode_len();
            if n == 0 {
                Ok(None)
            } else if n > max {
                Err(at_most_error(field, max))
            } else {
                Ok(Some(t))
            }
        },
    }
}

/// A body text: trimmed, it must hold 1 to `max` characters.
pub fn validate_text(value: &str, max: usize, field: &str) -> (r: Result<(), ApiError>)
    ensures
        r is Ok <==> fits_required(value@, max as nat),
        r matches Err(e) ==> is_bad_request(e, range_message(field@, max as nat)),
{
    match required_text(value, field, max) {
        Ok(_) => Ok(()),
        Err(e) => Err(e),
    }
}

} // verus!
