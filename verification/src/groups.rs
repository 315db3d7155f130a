//! Groups: durable membership with group-local roles, and the rules for who
//! may change it. A group always has exactly one owner.

use vstd::prelude::*;

use crate::error::{is_bad_request, refused_as_bad_request, refused_with, ApiError};
use crate::validation::{fits_required, range_message, required_text};
use crate::text::trimmed;
use crate::moderation::{account_available, is_account_available, AccountState};

verus! {

/// A member's role inside one group.
#[derive(Debug, Clone, Copy, PartialEq, Eq, Structural)]
pub enum GroupRole {
    Owner,
    Admin,
    Member,
}

/// The requested new role of a member.
#[derive(Debug, Clone, Copy, PartialEq, Eq, Structural)]
pub struct SetGroupRole {
    pub role: GroupRole,
}

/// Owners and admins manage members and group metadata.
pub open spec fn manages(role: GroupRole) -> bool {
    role == GroupRole::Owner || role == GroupRole::Admin
}

impl GroupRole {
    /// Whether this role may add and remove members.
    pub fn can_manage_members(self) -> (r: bool)
        ensures
            r == manages(self),
    {
        match self {
            GroupRole::Owner | GroupRole::Admin => true,
            GroupRole::Member => false,
        }
    }

    /// Whether this role may update the group and open its chat.
    pub fn can_manage_group(self) -> (r: bool)
        ensures
            r == manages(self),
    {
        match self {
            GroupRole::Owner | GroupRole::Admin => true,
            GroupRole::Member => false,
        }
    }
}

/// The group's members and their roles.
pub type Membership = Map<u128, GroupRole>;

/// Exactly one member is the owner.
pub open spec fn single_owner(m: Membership) -> bool {
    exists|o: u128|
        m.contains_key(o) && m[o] == GroupRole::Owner && forall|u: u128|
            #[trigger] m.contains_key(u) && m[u] == GroupRole::Owner ==> u == o
}

/// `o` is the owner of a group with a single owner.
pub open spec fn is_owner(m: Membership, o: u128) -> bool {
    m.contains_key(o) && m[o] == GroupRole::Owner
}

/// The first occurrence of each identifier, in order.
pub open spec fn dedup(s: Seq<u128>) -> Seq<u128>
    decreases s.len(),
{
    if s.len() == 0 {
        Seq::empty()
    } else {
        let d = dedup(s.drop_last());
        if d.contains(s.last()) {
            d
        } else {
            d.push(s.last())
        }
    }
}

/// `dedup` keeps each identifier once, keeps every identifier, and keeps the first first.
pub proof fn lemma_dedup(s: Seq<u128>)
    ensures
        dedup(s).no_duplicates(),
        forall|u: u128| #[trigger] dedup(s).contains(u) <==> s.contains(u),
        s.len() > 0 ==> dedup(s).len() > 0 && dedup(s)[0] == s[0],
        dedup(s).len() <= s.len(),
    decreases s.len(),
{
    if s.len() > 0 {
        let p = s.drop_last();
        lemma_dedup(p);
        let d = dedup(p);
        assert forall|u: u128| #[trigger] dedup(s).contains(u) <==> s.contains(u) by {
            if s.contains(u) {
                let k = choose|k: int| 0 <= k < s.len() && s[k] == u;
                if k < p.len() {
                    assert(p[k] == u);
                    assert(p.contains(u));
                    assert(d.contains(u));
                    let j = choose|j: int| 0 <= j < d.len() && d[j] == u;
                    assert(dedup(s)[j] == u);
                } else if d.contains(u) {
                    let j = choose|j: int| 0 <= j < d.len() && d[j] == u;
                    assert(dedup(s)[j] == u);
                } else {
                    assert(dedup(s)[d.len() as int] == u);
                }
            }
            if dedup(s).contains(u) {
                let k = choose|k: int| 0 <= k < dedup(s).len() && dedup(s)[k] == u;
                if k < d.len() {
                    assert(d[k] == u);
                    assert(d.contains(u));
                    assert(p.contains(u));
                    let k2 = choose|k2: int| 0 <= k2 < p.len() && p[k2] == u;
                    assert(s[k2] == u);
                } else {
                    assert(s[s.len() - 1] == u);
                }
            }
        }
        if p.len() == 0 {
            assert(d =~= Seq::<u128>::empty());
        }
    }
}

/// Each identifier once, at its first position.
pub fn unique_in_order(listed: &Vec<u128>) -> (r: Vec<u128>)
    ensures
        r@ == dedup(listed@),
{
    let mut members: Vec<u128> = Vec::new();
    let mut i: usize = 0;
    while i < listed.len()
        invariant
            i <= listed.len(),
            members@ == dedup(listed@.take(i as int)),
        decreases listed.len() - i,
    {
        let u = listed[i];
        let mut seen = false;
        let mut j: usize = 0;
        while j < members.len()
            invariant
                j <= members.len(),
                seen <==> exists|a: int| 0 <= a < j && members@[a] == u,
            decreases members.len() - j,
        {
            if members[j] == u {
                seen = true;
            }
            j = j + 1;
        }
        proof {
            assert(listed@.take(i + 1).drop_last() =~= listed@.take(i as int));
            assert(listed@.take(i + 1).last() == u);
        }
        if !seen {
            members.push(u);
        }
        i = i + 1;
    }
    assert(listed@.take(listed.len() as int) =~= listed@);
    members
}

/// "a group can contain at most 100 unique members".
pub open spec fn too_many_unique_members() -> Seq<char> {
    "a group can contain at most 100 unique members"@
}

/// The members of a new group: the creator first, then each listed user once.
/// More than 100 of them is refused.
pub fn normalize_members(owner_id: u128, member_ids: Vec<u128>) -> (r: Result<Vec<u128>, ApiError>)
    ensures
        r is Ok <==> dedup(seq![owner_id] + member_ids@).len() <= 100,
        r matches Ok(members) ==> members@ == dedup(seq![owner_id] + member_ids@),
        r matches Err(e) ==> is_bad_request(e, too_many_unique_members()),
{
    let mut listed: Vec<u128> = Vec::new();
    listed.push(owner_id);
    let mut k: usize = 0;
    while k < member_ids.len()
        invariant
            k <= member_ids.len(),
            listed@ == seq![owner_id] + member_ids@.take(k as int),
        decreases member_ids.len() - k,
    {
        listed.push(member_ids[k]);
        k = k + 1;
        assert(listed@ =~= seq![owner_id] + member_ids@.take(k as int));
    }
    assert(member_ids@.take(member_ids.len() as int) =~= member_ids@);
    let members = unique_in_order(&listed);
    if members.len() > 100 {
        return Err(ApiError::BadRequest("a group can contain at most 100 unique members".to_owned()));
    }
    Ok(members)
}

/// The membership of a new group: the creator owns it, everyone else is a member.
pub open spec fn initial_membership(members: Seq<u128>, creator: u128) -> Membership {
    Map::new(
        |u: u128| members.contains(u),
        |u: u128|
            if u == creator {
                GroupRole::Owner
            } else {
                GroupRole::Member
            },
    )
}

/// The role a new group gives a user: the creator owns it.
pub fn initial_role(user_id: u128, creator_id: u128) -> (r: GroupRole)
    ensures
        r == (if user_id == creator_id {
            GroupRole::Owner
        } else {
            GroupRole::Member
        }),
{
    if user_id == creator_id {
        GroupRole::Owner
    } else {
        GroupRole::Member
    }
}

/// A new group has exactly one owner, its creator, and holds each listed user.
pub proof fn law_new_group_has_single_owner(creator: u128, member_ids: Seq<u128>)
    ensures
        single_owner(initial_membership(dedup(seq![creator] + member_ids), creator)),
        is_owner(initial_membership(dedup(seq![creator] + member_ids), creator), creator),
        forall|u: u128|
            #[trigger] member_ids.contains(u) ==> initial_membership(
                dedup(seq![creator] + member_ids),
                creator,
            ).contains_key(u),
{
    let listed = seq![creator] + member_ids;
    lemma_dedup(listed);
    assert(listed[0] == creator);
    let m = initial_membership(dedup(listed), creator);
    assert(dedup(listed).contains(dedup(listed)[0]));
    assert(m.contains_key(creator));
    assert(m[creator] == GroupRole::Owner);
    assert forall|u: u128| #[trigger] m.contains_key(u) && m[u] == GroupRole::Owner implies u
        == creator by {}
    assert forall|u: u128| #[trigger] member_ids.contains(u) implies m.contains_key(u) by {
        let k = choose|k: int| 0 <= k < member_ids.len() && member_ids[k] == u;
        assert(listed[k + 1] == u);
    }
}

/// "group name must contain 1-120 characters" when the trimmed name is not 1 to 120 characters.
pub fn validate_name(name: &str) -> (r: Result<&str, ApiError>)
    ensures
        r is Ok <==> fits_required(name@, 120),
        r matches Ok(t) ==> t@ == trimmed(name@),
        r matches Err(e) ==> is_bad_request(e, range_message("group name"@, 120)),
{
    required_text(name, "group name", 120)
}

/// Refuses a group update or chat opening by a plain member.
pub fn require_group_manager(actor_role: GroupRole) -> (r: Result<(), ApiError>)
    ensures
        r is Ok <==> manages(actor_role),
        r matches Err(e) ==> e == ApiError::Forbidden,
{
    if actor_role.can_manage_group() {
        Ok(())
    } else {
        Err(ApiError::Forbidden)
    }
}

/// What adding a user to a group does.
#[derive(Debug, Clone, Copy, PartialEq, Eq, Structural)]
pub enum Addition {
    /// The user is already a member; nothing changes.
    AlreadyMember,
    /// The user joins as a plain member.
    Join,
}

/// Decides an addition: only managers add; the user must be available; a user
/// already in the group is left as is; a group of 100 members takes no more.
pub fn add_member_decision(
    actor_role: GroupRole,
    target_available: bool,
    already_member: bool,
    member_count: i64,
) -> (r: Result<Addition, ApiError>)
    ensures
        !manages(actor_role) ==> refused_with(r, ApiError::Forbidden),
        manages(actor_role) && !target_available ==> refused_as_bad_request(r, "group members must be available in this app"@,
        ),
        manages(actor_role) && target_available && already_member ==> r == Ok::<
            Addition,
            ApiError,
        >(Addition::AlreadyMember),
        manages(actor_role) && target_available && !already_member && member_count >= 100 ==> refused_as_bad_request(r, "a group can contain at most 100 members"@),
        manages(actor_role) && target_available && !already_member && member_count < 100 ==> r
            == Ok::<Addition, ApiError>(Addition::Join),
{
    if !actor_role.can_manage_members() {
        return Err(ApiError::Forbidden);
    }
    if !target_available {
        return Err(ApiError::BadRequest("group members must be available in this app".to_owned()));
    }
    if already_member {
        return Ok(Addition::AlreadyMember);
    }
    if member_count >= 100 {
        return Err(ApiError::BadRequest("a group can contain at most 100 members".to_owned()));
    }
    Ok(Addition::Join)
}

/// What removing a user from a group does.
#[derive(Debug, Clone, Copy, PartialEq, Eq, Structural)]
pub enum Removal {
    /// The user is not a member; nothing changes.
    NotMember,
    /// The member, who held this role, leaves the group.
    Remove(GroupRole),
}

/// A manager may remove this member: never the owner, and an admin only plain members.
pub open spec fn removal_permitted(actor_role: GroupRole, target_role: GroupRole) -> bool {
    &&& manages(actor_role)
    &&& target_role != GroupRole::Owner
    &&& (actor_role == GroupRole::Admin ==> target_role == GroupRole::Member)
}

/// Decides a removal by another member.
pub fn remove_member_decision(actor_role: GroupRole, target_role: Option<GroupRole>) -> (r: Result<
    Removal,
    ApiError,
>)
    ensures
        !manages(actor_role) ==> refused_with(r, ApiError::Forbidden),
        manages(actor_role) && target_role is None ==> r == Ok::<Removal, ApiError>(
            Removal::NotMember,
        ),
        manages(actor_role) ==> match target_role {
            Some(t) => if removal_permitted(actor_role, t) {
                r == Ok::<Removal, ApiError>(Removal::Remove(t))
            } else {
                refused_with(r, ApiError::Forbidden)
            },
            None => true,
        },
{
    if !actor_role.can_manage_members() {
        return Err(ApiError::Forbidden);
    }
    let target = match target_role {
        None => {
            return Ok(Removal::NotMember);
        },
        Some(t) => t,
    };
    if target == GroupRole::Owner || (actor_role == GroupRole::Admin && target != GroupRole::Member) {
        return Err(ApiError::Forbidden);
    }
    Ok(Removal::Remove(target))
}

/// Decides leaving a group: the owner must hand ownership over first.
pub fn leave_group_decision(actor_role: GroupRole) -> (r: Result<(), ApiError>)
    ensures
        r is Ok <==> actor_role != GroupRole::Owner,
        r matches Err(e) ==> is_bad_request(e, "transfer group ownership before leaving"@),
{
    if actor_role == GroupRole::Owner {
        Err(ApiError::BadRequest("transfer group ownership before leaving".to_owned()))
    } else {
        Ok(())
    }
}

/// What a role change does.
#[derive(Debug, Clone, Copy, PartialEq, Eq, Structural)]
pub enum RoleChange {
    /// Nothing changes.
    Unchanged,
    /// The owner becomes an admin and the target, who held this role, the owner.
    TransferOwnership { previous_target_role: GroupRole },
    /// The target's role changes between these two roles, neither of them owner.
    Change { from: GroupRole, to: GroupRole },
}

/// The change the owner `actor` asks for by giving `target`, now `target_role`, the role `new_role`.
pub open spec fn planned_role_change(
    actor_id: u128,
    target_id: u128,
    target_role: GroupRole,
    new_role: GroupRole,
) -> RoleChange {
    if target_role == new_role {
        RoleChange::Unchanged
    } else if new_role == GroupRole::Owner {
        if target_id == actor_id {
            RoleChange::Unchanged
        } else {
            RoleChange::TransferOwnership { previous_target_role: target_role }
        }
    } else {
        RoleChange::Change { from: target_role, to: new_role }
    }
}

/// The owner would demote themselves without handing ownership over.
pub open spec fn self_demotion(actor_id: u128, target_id: u128, target_role: GroupRole, new_role: GroupRole) -> bool {
    target_role != new_role && new_role != GroupRole::Owner && target_id == actor_id
}

/// Decides a role change: only the owner changes roles, the target must be a
/// member, and the owner hands ownership over rather than demoting themselves.
pub fn set_member_role_decision(
    actor_id: u128,
    actor_role: GroupRole,
    target_id: u128,
    target_role: Option<GroupRole>,
    new_role: GroupRole,
) -> (r: Result<RoleChange, ApiError>)
    ensures
        actor_role != GroupRole::Owner ==> refused_with(r, ApiError::Forbidden),
        actor_role == GroupRole::Owner && target_role is None ==> refused_as_bad_request(r, "target user is not a group member"@),
        actor_role == GroupRole::Owner ==> match target_role {
            Some(t) => if self_demotion(actor_id, target_id, t, new_role) {
            refused_as_bad_request(r, "transfer ownership before changing the owner's role"@,
            )
        } else {
                r == Ok::<RoleChange, ApiError>(
                    planned_role_change(actor_id, target_id, t, new_role),
                )
            },
            None => true,
        },
{
    if actor_role != GroupRole::Owner {
        return Err(ApiError::Forbidden);
    }
    let target = match target_role {
        None => {
            return Err(ApiError::BadRequest("target user is not a group member".to_owned()));
        },
        Some(t) => t,
    };
    if target == new_role {
        return Ok(RoleChange::Unchanged);
    }
    if new_role == GroupRole::Owner {
        if target_id == actor_id {
            return Ok(RoleChange::Unchanged);
        }
        Ok(RoleChange::TransferOwnership { previous_target_role: target })
    } else {
        if target_id == actor_id {
            return Err(
                ApiError::BadRequest(
                    "transfer ownership before changing the owner's role".to_owned(),
                ),
            );
        }
        Ok(RoleChange::Change { from: target, to: new_role })
    }
}

/// The membership after a role change by the owner `actor` on `target`.
pub open spec fn apply_role_change(
    m: Membership,
    actor_id: u128,
    target_id: u128,
    change: RoleChange,
) -> Membership {
    match change {
        RoleChange::Unchanged => m,
        RoleChange::TransferOwnership { .. } => m.insert(actor_id, GroupRole::Admin).insert(
            target_id,
            GroupRole::Owner,
        ),
        RoleChange::Change { to, .. } => m.insert(target_id, to),
    }
}

/// What a role change by the owner does to the membership: giving another
/// member a different non-owner role leaves that member holding exactly the
/// new role; giving another member ownership makes them the owner and the
/// former owner an admin; asking for the role a member already holds changes
/// nothing; and no other member's role moves.
pub proof fn law_role_change_gives_the_requested_role(
    m: Membership,
    actor_id: u128,
    target_id: u128,
    new_role: GroupRole,
)
    requires
        single_owner(m),
        is_owner(m, actor_id),
        m.contains_key(target_id),
    ensures
        ({
            let change = planned_role_change(actor_id, target_id, m[target_id], new_role);
            let m2 = apply_role_change(m, actor_id, target_id, change);
            &&& m[target_id] == new_role ==> m2 == m
            &&& (target_id != actor_id && m[target_id] != new_role && new_role != GroupRole::Owner)
                ==> change == RoleChange::Change { from: m[target_id], to: new_role }
            &&& (target_id != actor_id && new_role != GroupRole::Owner) ==> m2[target_id]
                == new_role
            &&& (target_id != actor_id && new_role == GroupRole::Owner) ==> m2[target_id]
                == GroupRole::Owner && m2[actor_id] == GroupRole::Admin
            &&& target_id != actor_id ==> m2.dom() == m.dom()
            &&& forall|u: u128|
                #![trigger m2[u]]
                m.contains_key(u) && u != target_id && u != actor_id ==> m2[u] == m[u]
        }),
{
    let change = planned_role_change(actor_id, target_id, m[target_id], new_role);
    let m2 = apply_role_change(m, actor_id, target_id, change);
    if m[target_id] == new_role {
        assert(m2 =~= m);
    }
    if target_id != actor_id {
        assert(m2.dom() =~= m.dom());
        if new_role != GroupRole::Owner {
            assert(m2[target_id] == new_role);
        } else {
            let o = choose|o: u128|
                m.contains_key(o) && m[o] == GroupRole::Owner && forall|u: u128|
                    #[trigger] m.contains_key(u) && m[u] == GroupRole::Owner ==> u == o;
            assert(actor_id == o);
            assert(m[target_id] != GroupRole::Owner);
            assert(m2[target_id] == GroupRole::Owner);
            assert(m2[actor_id] == GroupRole::Admin);
        }
    }
    assert forall|u: u128|
        #![trigger m2[u]]
        m.contains_key(u) && u != target_id && u != actor_id implies m2[u] == m[u] by {}
}

/// Who may remove whom: the owner removes any member but the owner; an admin
/// removes plain members only; a plain member removes no one.
pub proof fn law_removal_authority(target_role: GroupRole)
    ensures
        removal_permitted(GroupRole::Owner, target_role) <==> target_role != GroupRole::Owner,
        removal_permitted(GroupRole::Admin, target_role) <==> target_role == GroupRole::Member,
        !removal_permitted(GroupRole::Member, target_role),
{
}

/// Every permitted role change keeps exactly one owner; a transfer makes the
/// target the owner and the former owner an admin.
pub proof fn law_role_change_keeps_single_owner(
    m: Membership,
    actor_id: u128,
    target_id: u128,
    new_role: GroupRole,
)
    requires
        single_owner(m),
        is_owner(m, actor_id),
        m.contains_key(target_id),
        !self_demotion(actor_id, target_id, m[target_id], new_role),
    ensures
        single_owner(
            apply_role_change(
                m,
                actor_id,
                target_id,
                planned_role_change(actor_id, target_id, m[target_id], new_role),
            ),
        ),
        planned_role_change(actor_id, target_id, m[target_id], new_role) is TransferOwnership
            ==> {
            let m2 = apply_role_change(
                m,
                actor_id,
                target_id,
                planned_role_change(actor_id, target_id, m[target_id], new_role),
            );
            is_owner(m2, target_id) && m2[actor_id] == GroupRole::Admin
        },
{
    let change = planned_role_change(actor_id, target_id, m[target_id], new_role);
    let m2 = apply_role_change(m, actor_id, target_id, change);
    match change {
        RoleChange::Unchanged => {},
        RoleChange::TransferOwnership { .. } => {
            assert forall|u: u128| #[trigger] m2.contains_key(u) && m2[u] == GroupRole::Owner implies u
                == target_id by {
                if u != target_id && u != actor_id {
                    assert(m[u] == GroupRole::Owner);
                }
            }
            assert(m2.contains_key(target_id) && m2[target_id] == GroupRole::Owner);
        },
        RoleChange::Change { to, .. } => {
            assert(target_id != actor_id);
            assert forall|u: u128| #[trigger] m2.contains_key(u) && m2[u] == GroupRole::Owner implies u
                == actor_id by {
                if u != target_id {
                    assert(m[u] == GroupRole::Owner);
                }
            }
            assert(m2.contains_key(actor_id) && m2[actor_id] == GroupRole::Owner);
        },
    }
}

/// Adding a new plain member, removing a permitted member, and a non-owner
/// leaving all keep exactly one owner.
pub proof fn law_membership_changes_keep_single_owner(
    m: Membership,
    actor_id: u128,
    user_id: u128,
)
    requires
        single_owner(m),
        m.contains_key(actor_id),
    ensures
        !m.contains_key(user_id) ==> single_owner(m.insert(user_id, GroupRole::Member)),
        m.contains_key(user_id) && removal_permitted(m[actor_id], m[user_id]) ==> single_owner(
            m.remove(user_id),
        ),
        m[actor_id] != GroupRole::Owner ==> single_owner(m.remove(actor_id)),
{
    let o = choose|o: u128|
        m.contains_key(o) && m[o] == GroupRole::Owner && forall|u: u128|
            #[trigger] m.contains_key(u) && m[u] == GroupRole::Owner ==> u == o;
    if !m.contains_key(user_id) {
        let m2 = m.insert(user_id, GroupRole::Member);
        assert(m2.contains_key(o) && m2[o] == GroupRole::Owner);
        assert forall|u: u128| #[trigger] m2.contains_key(u) && m2[u] == GroupRole::Owner implies u
            == o by {
            if u != user_id {
                assert(m.contains_key(u) && m[u] == GroupRole::Owner);
            }
        }
    }
    if m.contains_key(user_id) && removal_permitted(m[actor_id], m[user_id]) {
        let m2 = m.remove(user_id);
        assert(user_id != o);
        assert(m2.contains_key(o) && m2[o] == GroupRole::Owner);
        assert forall|u: u128| #[trigger] m2.contains_key(u) && m2[u] == GroupRole::Owner implies u
            == o by {
            assert(m.contains_key(u) && m[u] == GroupRole::Owner);
        }
    }
    if m[actor_id] != GroupRole::Owner {
        let m2 = m.remove(actor_id);
        assert(actor_id != o);
        assert(m2.contains_key(o) && m2[o] == GroupRole::Owner);
        assert forall|u: u128| #[trigger] m2.contains_key(u) && m2[u] == GroupRole::Owner implies u
            == o by {
            assert(m.contains_key(u) && m[u] == GroupRole::Owner);
        }
    }
}

/// A membership-log entry: which member joined, left or changed role, and how.
#[derive(Debug, Clone, Copy, PartialEq, Eq)]
pub struct MembershipEvent {
    pub user_id: u128,
    pub event_type: &'static str,
    pub previous_role: Option<GroupRole>,
    pub new_role: Option<GroupRole>,
}

/// The log entries a role change appends, in order.
pub fn role_change_events(actor_id: u128, target_id: u128, change: RoleChange) -> (r: Vec<
    MembershipEvent,
>)
    ensures
        match change {
            RoleChange::Unchanged => r@.len() == 0,
            RoleChange::TransferOwnership { previous_target_role } => r@.len() == 2
                && r@[0].user_id == actor_id && r@[0].event_type@ == "role_changed"@
                && r@[0].previous_role == Some(GroupRole::Owner) && r@[0].new_role == Some(
                GroupRole::Admin,
            ) && r@[1].user_id == target_id && r@[1].event_type@ == "role_changed"@
                && r@[1].previous_role == Some(previous_target_role) && r@[1].new_role == Some(
                GroupRole::Owner,
            ),
            RoleChange::Change { from, to } => r@.len() == 1 && r@[0].user_id == target_id
                && r@[0].event_type@ == "role_changed"@ && r@[0].previous_role == Some(from)
                && r@[0].new_role == Some(to),
        },
{
    let mut r: Vec<MembershipEvent> = Vec::new();
    match change {
        RoleChange::Unchanged => {},
        RoleChange::TransferOwnership { previous_target_role } => {
            r.push(
                MembershipEvent {
                    user_id: actor_id,
                    event_type: "role_changed",
                    previous_role: Some(GroupRole::Owner),
                    new_role: Some(GroupRole::Admin),
                },
            );
            r.push(
                MembershipEvent {
                    user_id: target_id,
                    event_type: "role_changed",
                    previous_role: Some(previous_target_role),
                    new_role: Some(GroupRole::Owner),
                },
            );
        },
        RoleChange::Change { from, to } => {
            r.push(
                MembershipEvent {
                    user_id: target_id,
                    event_type: "role_changed",
                    previous_role: Some(from),
                    new_role: Some(to),
                },
            );
        },
    }
    r
}

/// Decides opening a group chat when none is linked yet: it needs two members.
pub fn group_chat_members_check(member_count: usize) -> (r: Result<(), ApiError>)
    ensures
        r is Ok <==> member_count >= 2,
        r matches Err(e) ==> is_bad_request(e, "a group chat requires at least 2 members"@),
{
    if member_count < 2 {
        Err(ApiError::BadRequest("a group chat requires at least 2 members".to_owned()))
    } else {
        Ok(())
    }
}

/// What opening a group's primary chat does.
#[derive(Debug, Clone, Copy, PartialEq, Eq, Structural)]
pub enum GroupChatPlan {
    /// The group already links this conversation; it is reused, none is created.
    Reuse(u128),
    /// A conversation is created for the group's members and linked.
    Create,
}

/// Decides opening a group's primary chat, which is idempotent: a linked
/// conversation is always reused; without one, a chat is created when the
/// group has at least two members.
pub fn group_chat_plan(linked: Option<u128>, member_count: usize) -> (r: Result<
    GroupChatPlan,
    ApiError,
>)
    ensures
        linked matches Some(k) ==> r == Ok::<GroupChatPlan, ApiError>(GroupChatPlan::Reuse(k)),
        linked is None ==> (r is Ok <==> member_count >= 2),
        linked is None && member_count >= 2 ==> r == Ok::<GroupChatPlan, ApiError>(
            GroupChatPlan::Create,
        ),
        r matches Err(e) ==> is_bad_request(e, "a group chat requires at least 2 members"@),
{
    match linked {
        Some(k) => Ok(GroupChatPlan::Reuse(k)),
        None => match group_chat_members_check(member_count) {
            Ok(()) => Ok(GroupChatPlan::Create),
            Err(e) => Err(e),
        },
    }
}

/// With moderation enabled, a suspended or banned user cannot change groups.
pub fn group_actor_available(moderation_enabled: bool, account_state: Option<AccountState>) -> (r: Result<(), ApiError>)
    ensures
        r is Ok <==> (!moderation_enabled || account_available(account_state)),
        r matches Err(e) ==> e == ApiError::Forbidden,
{
    if moderation_enabled && !is_account_available(account_state) {
        Err(ApiError::Forbidden)
    } else {
        Ok(())
    }
}

/// With moderation enabled, suspended or banned users cannot be made members.
pub fn group_members_available(moderation_enabled: bool, any_unavailable: bool) -> (r: Result<(), ApiError>)
    ensures
        r is Ok <==> (!moderation_enabled || !any_unavailable),
        r matches Err(e) ==> is_bad_request(e, "group members must be available in this app"@),
{
    if moderation_enabled && any_unavailable {
        Err(ApiError::BadRequest("group members must be available in this app".to_owned()))
    } else {
        Ok(())
    }
}

} // verus!
