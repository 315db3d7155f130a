//! Conversations and messages: who a conversation holds and what a message
//! must carry.

use vstd::prelude::*;

use crate::error::{refused_as_bad_request, ApiError};
use crate::groups::{dedup, unique_in_order};
use crate::posts::{distinct_ids, has_duplicate};
use crate::text::trim;
use crate::validation::{present_text, text_view};

verus! {

/// The members of a new conversation: the creator first, then each listed user
/// once; there must be 2 to 100 of them.
pub fn conversation_members(creator_id: u128, member_ids: &Vec<u128>) -> (r: Result<Vec<u128>, ApiError>)
    ensures
        ({
            let members = dedup(seq![creator_id] + member_ids@);
            if 2 <= members.len() <= 100 {
                r matches Ok(m) && m@ == members
            } else {
                refused_as_bad_request(r, "a conversation must contain 2-100 unique members"@)
            }
        }),
{
    let mut listed: Vec<u128> = Vec::new();
    listed.push(creator_id);
    let mut k: usize = 0;
    while k < member_ids.len()
        invariant
            k <= member_ids.len(),
            listed@ == seq![creator_id] + member_ids@.take(k as int),
        decreases member_ids.len() - k,
    {
        listed.push(member_ids[k]);
        k = k + 1;
        assert(listed@ =~= seq![creator_id] + member_ids@.take(k as int));
    }
    assert(member_ids@.take(member_ids.len() as int) =~= member_ids@);
    let members = unique_in_order(&listed);
    if members.len() < 2 || members.len() > 100 {
        return Err(
            ApiError::BadRequest("a conversation must contain 2-100 unique members".to_owned()),
        );
    }
    Ok(members)
}

/// Members of a new conversation must be available.
pub fn conversation_members_available(any_unavailable: bool) -> (r: Result<(), ApiError>)
    ensures
        r is Ok <==> !any_unavailable,
        r matches Err(e) ==> crate::error::is_bad_request(
            e,
            "conversation members must be available in this app"@,
        ),
{
    if any_unavailable {
        Err(ApiError::BadRequest("conversation members must be available in this app".to_owned()))
    } else {
        Ok(())
    }
}

/// A new conversation cannot include a pair of members where one blocks the
/// other; such a conversation is refused like a blocked direct conversation.
pub fn new_conversation_blocks_check(members_blocked: bool) -> (r: Result<(), ApiError>)
    ensures
        r is Ok <==> !members_blocked,
        r matches Err(e) ==> e == ApiError::Forbidden,
{
    if members_blocked {
        Err(ApiError::Forbidden)
    } else {
        Ok(())
    }
}

/// Only members read and write a conversation.
pub fn require_membership(is_member: bool) -> (r: Result<(), ApiError>)
    ensures
        r is Ok <==> is_member,
        r matches Err(e) ==> e == ApiError::Forbidden,
{
    if is_member {
        Ok(())
    } else {
        Err(ApiError::Forbidden)
    }
}

/// Checks a new message: it needs body text or media; the trimmed body holds
/// at most 10000 characters; at most 8 attachments, none twice. The stored
/// body is the trimmed text, or none when empty.
pub fn validate_message<'a>(body: Option<&'a str>, media_ids: &Vec<u128>) -> (r: Result<
    Option<&'a str>,
    ApiError,
>)
    ensures
        ({
            let b = present_text(text_view(body));
            if b is None && media_ids@.len() == 0 {
                refused_as_bad_request(r, "a message requires body text or media"@)
            } else if b matches Some(t) && t.len() > 10000 {
                refused_as_bad_request(r, "message body must contain at most 10000 characters"@)
            } else if media_ids@.len() > 8 {
                refused_as_bad_request(r, "at most 8 media attachments are allowed"@)
            } else if !distinct_ids(media_ids@) {
                refused_as_bad_request(r, "mediaIds must not contain duplicates"@)
            } else {
                r matches Ok(kept) && text_view(kept) == b
            }
        }),
{
    let kept = match body {
        Some(v) => {
            let t = trim(v);
            if t.unicode_len() == 0 {
                None
            } else {
                Some(t)
            }
        },
        None => None,
    };
    let count = match kept {
        Some(t) => t.unicode_len(),
        None => 0,
    };
    if kept.is_none() && media_ids.len() == 0 {
        return Err(ApiError::BadRequest("a message requires body text or media".to_owned()));
    }
    if count > 10000 {
        return Err(
            ApiError::BadRequest("message body must contain at most 10000 characters".to_owned()),
        );
    }
    if media_ids.len() > 8 {
        return Err(ApiError::BadRequest("at most 8 media attachments are allowed".to_owned()));
    }
    if has_duplicate(media_ids) {
        return Err(ApiError::BadRequest("mediaIds must not contain duplicates".to_owned()));
    }
    Ok(kept)
}

} // verus!
