//! Who may read a post: the stable public/private visibility projection, the
//! authoritative post audience, and the checks on post and comment input.

use vstd::prelude::*;

use crate::error::{refused_as_bad_request, refused_with, ApiError};
use crate::features::{Feature, FeatureSet};

verus! {

/// Public or private, as profiles and the compatibility field of posts have it.
#[derive(Debug, Clone, Copy, PartialEq, Eq, Structural)]
pub enum Visibility {
    Public,
    Private,
}

impl Visibility {
    /// Visibility when none is given.
    pub fn default_visibility() -> (r: Visibility)
        ensures
            r == Visibility::Public,
    {
        Visibility::Public
    }

    /// Whether a viewer may read what `owner` owns: anyone when public, only
    /// the owner when private.
    pub fn can_view(self, owner_id: u128, viewer_id: Option<u128>) -> (r: bool)
        ensures
            r == (self == Visibility::Public || viewer_id == Some(owner_id)),
    {
        match self {
            Visibility::Public => true,
            Visibility::Private => match viewer_id {
                Some(v) => v == owner_id,
                None => false,
            },
        }
    }
}

/// Who may read a post.
#[derive(Debug, Clone, Copy, PartialEq, Eq, Structural)]
pub enum PostAudience {
    /// Anyone in the application.
    Public,
    /// Only the author.
    OwnerOnly,
    /// The author and users the author has durably approved as followers.
    ApprovedFollowers,
}

/// The visibility that an audience projects to.
pub open spec fn projected_visibility(audience: PostAudience) -> Visibility {
    match audience {
        PostAudience::Public => Visibility::Public,
        _ => Visibility::Private,
    }
}

/// The audience a legacy visibility stands for.
pub open spec fn legacy_audience(visibility: Visibility) -> PostAudience {
    match visibility {
        Visibility::Public => PostAudience::Public,
        Visibility::Private => PostAudience::OwnerOnly,
    }
}

/// The audience a new post asks for: the explicit audience, else the one the
/// legacy visibility stands for, else public.
pub open spec fn requested_audience(visibility: Option<Visibility>, audience: Option<PostAudience>) -> PostAudience {
    match audience {
        Some(a) => a,
        None => match visibility {
            Some(v) => legacy_audience(v),
            None => PostAudience::Public,
        },
    }
}

/// An explicit audience is the audience asked for, whatever legacy visibility
/// accompanies it; the legacy visibility decides only when no audience is
/// given (private meaning owner-only), and with neither the post is public.
pub proof fn law_explicit_audience_wins(visibility: Option<Visibility>, audience: PostAudience)
    ensures
        requested_audience(visibility, Some(audience)) == audience,
        requested_audience(Some(Visibility::Private), None) == PostAudience::OwnerOnly,
        requested_audience(Some(Visibility::Public), None) == PostAudience::Public,
        requested_audience(None, None) == PostAudience::Public,
{
}

/// Settles the audience and visibility of a new post. An approved-follower
/// audience needs the `follow_requests` capability; a given visibility must
/// agree with the audience's projection.
pub fn resolve_post_audience(
    features: &FeatureSet,
    visibility: Option<Visibility>,
    audience: Option<PostAudience>,
) -> (r: Result<(PostAudience, Visibility), ApiError>)
    ensures
        ({
            let a = requested_audience(visibility, audience);
            if a == PostAudience::ApprovedFollowers && !features@.app_effective.contains(
                Feature::FollowRequests,
            ) {
                refused_with(r, ApiError::FeatureDisabled(Feature::FollowRequests))
            } else if visibility is Some && visibility != Some(projected_visibility(a)) {
                refused_as_bad_request(r, "visibility conflicts with the requested post audience"@)
            } else {
                r == Ok::<(PostAudience, Visibility), ApiError>((a, projected_visibility(a)))
            }
        }),
        audience matches Some(a) ==> (r matches Ok(p) ==> p.0 == a),
{
    let legacy = match visibility {
        Some(Visibility::Public) => Some(PostAudience::Public),
        Some(Visibility::Private) => Some(PostAudience::OwnerOnly),
        None => None,
    };
    let audience = match audience {
        Some(a) => a,
        None => match legacy {
            Some(a) => a,
            None => PostAudience::Public,
        },
    };
    if audience == PostAudience::ApprovedFollowers {
        match features.require(Feature::FollowRequests) {
            Ok(()) => {},
            Err(e) => {
                return Err(e);
            },
        }
    }
    let projected = match audience {
        PostAudience::Public => Visibility::Public,
        PostAudience::OwnerOnly | PostAudience::ApprovedFollowers => Visibility::Private,
    };
    match visibility {
        Some(v) => {
            if v != projected {
                return Err(
                    ApiError::BadRequest(
                        "visibility conflicts with the requested post audience".to_owned(),
                    ),
                );
            }
        },
        None => {},
    }
    Ok((audience, projected))
}

/// What the audience check of a post asks for next.
#[derive(Debug, Clone, Copy, PartialEq, Eq, Structural)]
pub enum AudienceCheck {
    /// The viewer may read the post.
    Visible,
    /// The post is hidden from the viewer.
    Hidden,
    /// The viewer may read the post exactly when the author has durably
    /// approved this viewer as a follower.
    NeedsApproval(u128),
}

/// The first step of the audience check: the author and a public audience
/// pass, an owner-only audience or a disabled `follow_requests` capability
/// hides the post, and an approved-follower post needs the viewer's approval.
pub fn post_audience_check(
    follow_requests_enabled: bool,
    author_id: u128,
    audience: PostAudience,
    viewer_id: Option<u128>,
) -> (r: AudienceCheck)
    ensures
        r == (if viewer_id == Some(author_id) || audience == PostAudience::Public {
            AudienceCheck::Visible
        } else if audience == PostAudience::OwnerOnly || !follow_requests_enabled {
            AudienceCheck::Hidden
        } else {
            match viewer_id {
                Some(v) => AudienceCheck::NeedsApproval(v),
                None => AudienceCheck::Hidden,
            }
        }),
{
    let is_author = match viewer_id {
        Some(v) => v == author_id,
        None => false,
    };
    if is_author || audience == PostAudience::Public {
        return AudienceCheck::Visible;
    }
    if audience == PostAudience::OwnerOnly || !follow_requests_enabled {
        return AudienceCheck::Hidden;
    }
    match viewer_id {
        Some(v) => AudienceCheck::NeedsApproval(v),
        None => AudienceCheck::Hidden,
    }
}

/// Who may read a post with this audience.
pub open spec fn audience_admits(
    follow_requests_enabled: bool,
    author_id: u128,
    audience: PostAudience,
    viewer_id: Option<u128>,
    approved: bool,
) -> bool {
    ||| viewer_id == Some(author_id)
    ||| audience == PostAudience::Public
    ||| (audience == PostAudience::ApprovedFollowers && follow_requests_enabled && viewer_id is Some
        && approved)
}

/// The whole audience check, given whether the viewer holds a durable approval
/// from the author: a hidden post is reported as a missing post.
pub fn post_audience_outcome(check: AudienceCheck, approved: bool) -> (r: Result<(), ApiError>)
    ensures
        r is Ok <==> (check == AudienceCheck::Visible || (check is NeedsApproval && approved)),
        r matches Err(e) ==> e == ApiError::NotFound("post"),
{
    match check {
        AudienceCheck::Visible => Ok(()),
        AudienceCheck::Hidden => Err(ApiError::NotFound("post")),
        AudienceCheck::NeedsApproval(_) => if approved {
            Ok(())
        } else {
            Err(ApiError::NotFound("post"))
        },
    }
}

/// The author always reads their posts; anyone reads a public post; an
/// owner-only post is read by its author alone; an approved-follower post is
/// read by others only with the capability enabled and a durable approval.
pub proof fn law_post_audience(
    follow_requests_enabled: bool,
    author_id: u128,
    audience: PostAudience,
    viewer_id: Option<u128>,
    approved: bool,
)
    ensures
        audience_admits(follow_requests_enabled, author_id, audience, Some(author_id), approved),
        audience_admits(follow_requests_enabled, author_id, PostAudience::Public, viewer_id, approved),
        audience_admits(follow_requests_enabled, author_id, PostAudience::OwnerOnly, viewer_id, approved)
            <==> viewer_id == Some(author_id),
        viewer_id != Some(author_id) ==> (audience_admits(
            follow_requests_enabled,
            author_id,
            PostAudience::ApprovedFollowers,
            viewer_id,
            approved,
        ) <==> (follow_requests_enabled && viewer_id is Some && approved)),
{
}

/// The two steps of the audience check admit exactly the readers the audience admits.
pub proof fn law_audience_check_agrees(
    follow_requests_enabled: bool,
    author_id: u128,
    audience: PostAudience,
    viewer_id: Option<u128>,
    approved: bool,
)
    ensures
        ({
            let check = if viewer_id == Some(author_id) || audience == PostAudience::Public {
                AudienceCheck::Visible
            } else if audience == PostAudience::OwnerOnly || !follow_requests_enabled {
                AudienceCheck::Hidden
            } else {
                match viewer_id {
                    Some(v) => AudienceCheck::NeedsApproval(v),
                    None => AudienceCheck::Hidden,
                }
            };
            (check == AudienceCheck::Visible || (check is NeedsApproval && approved))
                <==> audience_admits(follow_requests_enabled, author_id, audience, viewer_id, approved)
        }),
{
}

/// The identifiers hold no duplicate.
pub open spec fn distinct_ids(ids: Seq<u128>) -> bool {
    forall|i: int, j: int| 0 <= i < j < ids.len() ==> ids[i] != ids[j]
}

/// Whether some identifier occurs twice.
pub fn has_duplicate(ids: &Vec<u128>) -> (r: bool)
    ensures
        r == !distinct_ids(ids@),
{
    let mut i: usize = 0;
    while i < ids.len()
        invariant
            i <= ids.len(),
            forall|a: int, b: int| 0 <= a < b < ids@.len() && a < i ==> ids@[a] != ids@[b],
        decreases ids.len() - i,
    {
        let mut j: usize = i + 1;
        while j < ids.len()
            invariant
                i < ids.len(),
                i + 1 <= j <= ids.len(),
                forall|a: int, b: int| 0 <= a < b < ids@.len() && a < i ==> ids@[a] != ids@[b],
                forall|b: int| i < b < j ==> ids@[i as int] != ids@[b],
            decreases ids.len() - j,
        {
            if ids[i] == ids[j] {
                return true;
            }
            j = j + 1;
        }
        i = i + 1;
    }
    false
}

/// Media attachments of a post: at most 8, none twice.
pub fn unique_media_ids(media_ids: Vec<u128>) -> (r: Result<Vec<u128>, ApiError>)
    ensures
        media_ids@.len() > 8 ==> refused_as_bad_request(r, "at most 8 media attachments are allowed"@),
        media_ids@.len() <= 8 && !distinct_ids(media_ids@) ==> refused_as_bad_request(
            r,
            "mediaIds must not contain duplicates"@,
        ),
        media_ids@.len() <= 8 && distinct_ids(media_ids@) ==> (r matches Ok(ids) && ids@ == media_ids@),
{
    if media_ids.len() > 8 {
        return Err(ApiError::BadRequest("at most 8 media attachments are allowed".to_owned()));
    }
    if has_duplicate(&media_ids) {
        return Err(ApiError::BadRequest("mediaIds must not contain duplicates".to_owned()));
    }
    Ok(media_ids)
}

/// What deleting one's own comment does.
#[derive(Debug, Clone, Copy, PartialEq, Eq, Structural)]
pub enum CommentDeletion {
    /// The comment is already a tombstone; nothing changes.
    AlreadyDeleted,
    /// The comment has replies: its body is emptied and it is marked deleted,
    /// so the branch stays whole.
    Tombstone,
    /// The comment is a leaf and is removed.
    Remove,
}

/// Decides the deletion of a comment that exists and belongs to the caller.
pub fn comment_deletion(already_deleted: bool, has_children: bool) -> (r: CommentDeletion)
    ensures
        already_deleted ==> r == CommentDeletion::AlreadyDeleted,
        !already_deleted && has_children ==> r == CommentDeletion::Tombstone,
        !already_deleted && !has_children ==> r == CommentDeletion::Remove,
{
    if already_deleted {
        CommentDeletion::AlreadyDeleted
    } else if has_children {
        CommentDeletion::Tombstone
    } else {
        CommentDeletion::Remove
    }
}

} // verus!
