//! User safety relationships: blocks, mutes and follow consent. A block is
//! stored in one direction but bars contact both ways; no relationship can
//! target its own user.

use vstd::prelude::*;

use crate::error::{is_bad_request, refused_as_bad_request, refused_with, ApiError};

verus! {

/// Whether a read by `viewer` of content by `subject` must consult blocks: only
/// with blocks enabled, a known viewer, and a viewer other than the subject.
pub fn block_check_needed(blocks_enabled: bool, viewer_id: Option<u128>, subject_id: u128) -> (r: bool)
    ensures
        r == (blocks_enabled && viewer_id is Some && viewer_id != Some(subject_id)),
{
    match viewer_id {
        Some(v) => blocks_enabled && v != subject_id,
        None => false,
    }
}

/// Whether two users must be checked for a block: only with blocks enabled
/// and two different users; a user never blocks themselves.
pub fn pair_check_needed(blocks_enabled: bool, left_id: u128, right_id: u128) -> (r: bool)
    ensures
        r == (blocks_enabled && left_id != right_id),
{
    blocks_enabled && left_id != right_id
}

/// A block between the viewer and the author hides the resource.
pub fn blocked_outcome(blocked: bool, resource_name: &'static str) -> (r: Result<(), ApiError>)
    ensures
        r is Ok <==> !blocked,
        r matches Err(e) ==> e == ApiError::NotFound(resource_name),
{
    if blocked {
        Err(ApiError::NotFound(resource_name))
    } else {
        Ok(())
    }
}

/// Whether a set of members must be checked for a block among them: only with
/// blocks enabled and at least two members.
pub fn members_check_needed(blocks_enabled: bool, member_count: usize) -> (r: bool)
    ensures
        r == (blocks_enabled && member_count >= 2),
{
    blocks_enabled && member_count >= 2
}

/// A two-person conversation that is not a group chat is closed for writing
/// while either member blocks the other.
pub fn direct_conversation_outcome(is_group_conversation: bool, member_count: usize, members_blocked: bool) -> (r: Result<(), ApiError>)
    ensures
        r is Ok <==> (is_group_conversation || member_count != 2 || !members_blocked),
        r matches Err(e) ==> e == ApiError::Forbidden,
{
    if !is_group_conversation && member_count == 2 && members_blocked {
        Err(ApiError::Forbidden)
    } else {
        Ok(())
    }
}

/// A block or mute needs another user, and both users must have profiles.
pub fn relationship_target_check(actor_id: u128, target_id: u128, profile_count: i64) -> (r: Result<(), ApiError>)
    ensures
        actor_id == target_id ==> refused_as_bad_request(
            r,
            "a user safety relationship cannot target the current user"@,
        ),
        actor_id != target_id && profile_count == 2 ==> r is Ok,
        actor_id != target_id && profile_count != 2 ==> refused_with(r, ApiError::NotFound("profile")),
{
    if actor_id == target_id {
        return Err(
            ApiError::BadRequest(
                "a user safety relationship cannot target the current user".to_owned(),
            ),
        );
    }
    if profile_count == 2 {
        Ok(())
    } else {
        Err(ApiError::NotFound("profile"))
    }
}

/// A follow request or approval needs another user, and both users must have profiles.
pub fn follow_counterpart_check(actor_id: u128, counterpart_id: u128, profile_count: i64) -> (r: Result<(), ApiError>)
    ensures
        actor_id == counterpart_id ==> refused_as_bad_request(
            r,
            "users cannot request or approve a follow for themselves"@,
        ),
        actor_id != counterpart_id && profile_count == 2 ==> r is Ok,
        actor_id != counterpart_id && profile_count != 2 ==> refused_with(
            r,
            ApiError::NotFound("profile"),
        ),
{
    if actor_id == counterpart_id {
        return Err(
            ApiError::BadRequest(
                "users cannot request or approve a follow for themselves".to_owned(),
            ),
        );
    }
    if profile_count != 2 {
        return Err(ApiError::NotFound("profile"));
    }
    Ok(())
}

/// A user cannot follow themselves.
pub fn follow_target_check(actor_id: u128, target_id: u128) -> (r: Result<(), ApiError>)
    ensures
        r is Ok <==> actor_id != target_id,
        r matches Err(e) ==> is_bad_request(e, "users cannot follow themselves"@),
{
    if actor_id == target_id {
        Err(ApiError::BadRequest("users cannot follow themselves".to_owned()))
    } else {
        Ok(())
    }
}

/// What accepting a follow request does.
#[derive(Debug, Clone, Copy, PartialEq, Eq, Structural)]
pub enum Acceptance {
    /// The pending request became a follow plus a durable approval.
    Approve,
    /// The follower was approved before; nothing changes.
    AlreadyApproved,
}

/// Decides an acceptance: a pending request is approved; without one, an
/// earlier approval makes the call a no-op, and otherwise there is nothing to accept.
pub fn acceptance_outcome(request_removed: bool, already_approved: bool) -> (r: Result<Acceptance, ApiError>)
    ensures
        request_removed ==> r == Ok::<Acceptance, ApiError>(Acceptance::Approve),
        !request_removed && already_approved ==> r == Ok::<Acceptance, ApiError>(
            Acceptance::AlreadyApproved,
        ),
        !request_removed && !already_approved ==> refused_with(r, ApiError::NotFound("follow request")),
{
    if request_removed {
        Ok(Acceptance::Approve)
    } else if already_approved {
        Ok(Acceptance::AlreadyApproved)
    } else {
        Err(ApiError::NotFound("follow request"))
    }
}

/// `s` is strictly increasing.
pub open spec fn strictly_increasing(s: Seq<u128>) -> bool {
    forall|i: int, j: int| 0 <= i < j < s.len() ==> s[i] < s[j]
}

/// The order in which users are locked: each once, ascending, so that
/// concurrent transactions take the locks in one global order.
pub fn lock_order(user_ids: &Vec<u128>) -> (r: Vec<u128>)
    ensures
        strictly_increasing(r@),
        forall|u: u128| #[trigger] r@.contains(u) <==> user_ids@.contains(u),
{
    let mut out: Vec<u128> = Vec::new();
    let mut i: usize = 0;
    while i < user_ids.len()
        invariant
            i <= user_ids.len(),
            strictly_increasing(out@),
            forall|u: u128| #[trigger] out@.contains(u) <==> user_ids@.take(i as int).contains(u),
        decreases user_ids.len() - i,
    {
        let u = user_ids[i];
        let mut p: usize = 0;
        while p < out.len() && out[p] < u
            invariant
                p <= out.len(),
                strictly_increasing(out@),
                forall|k: int| 0 <= k < p ==> out@[k] < u,
            decreases out.len() - p,
        {
            p = p + 1;
        }
        let ghost before = out@;
        let ghost next = user_ids@.take(i + 1);
        let ghost prev = user_ids@.take(i as int);
        proof {
            assert(next =~= prev.push(u));
        }
        if p < out.len() && out[p] == u {
            proof {
                assert forall|x: u128| #[trigger] out@.contains(x) <==> next.contains(x) by {
                    if next.contains(x) {
                        let k = choose|k: int| 0 <= k < i + 1 && next[k] == x;
                        if k < i {
                            assert(prev[k] == x);
                        } else {
                            assert(out@[p as int] == x);
                        }
                    }
                    if out@.contains(x) {
                        assert(prev.contains(x));
                        let k = choose|k: int| 0 <= k < i && prev[k] == x;
                        assert(next[k] == x);
                    }
                }
            }
        } else {
            out.insert(p, u);
            proof {
                assert(out@ == before.insert(p as int, u));
                assert forall|a: int, b: int| 0 <= a < b < out@.len() implies out@[a] < out@[b] by {
                    if b < p {
                    } else if a < p && b == p {
                    } else if a < p {
                        assert(out@[b] == before[b - 1]);
                    } else if a == p {
                        assert(out@[b] == before[b - 1]);
                        assert(before[p as int] > u);
                        if b - 1 > p {
                            assert(before[p as int] < before[b - 1]);
                        }
                    } else {
                        assert(out@[a] == before[a - 1]);
                        assert(out@[b] == before[b - 1]);
                    }
                }
                assert forall|x: u128| #[trigger] out@.contains(x) <==> next.contains(x) by {
                    if next.contains(x) {
                        let k = choose|k: int| 0 <= k < i + 1 && next[k] == x;
                        if k < i {
                            assert(prev[k] == x);
                            assert(before.contains(x));
                            let m = choose|m: int| 0 <= m < before.len() && before[m] == x;
                            if m < p {
                                assert(out@[m] == x);
                            } else {
                                assert(out@[m + 1] == x);
                            }
                        } else {
                            assert(out@[p as int] == x);
                        }
                    }
                    if out@.contains(x) {
                        let m = choose|m: int| 0 <= m < out@.len() && out@[m] == x;
                        if m < p {
                            assert(before[m] == x);
                        } else if m == p {
                            assert(next[i as int] == x);
                        } else {
                            assert(before[m - 1] == x);
                        }
                        if m != p {
                            assert(before.contains(x));
                            assert(prev.contains(x));
                            let k = choose|k: int| 0 <= k < i && prev[k] == x;
                            assert(next[k] == x);
                        }
                    }
                }
            }
        }
        i = i + 1;
    }
    assert(user_ids@.take(user_ids.len() as int) =~= user_ids@);
    out
}

} // verus!
