//! Platform moderation: the states content, accounts and cases can be in,
//! moderation roles and the capabilities they grant, and the checks that
//! gate ordinary activity on moderation state.

use vstd::prelude::*;

use crate::auth::{HeaderText, RequestContext};
use crate::error::{is_bad_request, ApiError};
use crate::text::{csv_tokens, join3, same_text, split_csv, trim};
use crate::validation::{at_most_message, fits_optional, optional_text, present_text, text_view};

verus! {

/// A kind of content that can be reported and moderated.
#[derive(Debug, Clone, Copy, PartialEq, Eq, Hash, Structural)]
pub enum TargetType {
    Profile,
    Post,
    Comment,
    Media,
    Conversation,
    Message,
}

/// The lowercase name of a TargetType, as storage and responses write it.
pub open spec fn target_type_name(x: TargetType) -> Seq<char> {
    match x {
        TargetType::Profile => "profile"@,
        TargetType::Post => "post"@,
        TargetType::Comment => "comment"@,
        TargetType::Media => "media"@,
        TargetType::Conversation => "conversation"@,
        TargetType::Message => "message"@,
    }
}

impl TargetType {
    /// The lowercase name of this value.
    pub fn as_str(self) -> (r: &'static str)
        ensures
            r@ == target_type_name(self),
    {
        match self {
            TargetType::Profile => "profile",
            TargetType::Post => "post",
            TargetType::Comment => "comment",
            TargetType::Media => "media",
            TargetType::Conversation => "conversation",
            TargetType::Message => "message",
        }
    }
}

/// Moderation state of a piece of content.
#[derive(Debug, Clone, Copy, PartialEq, Eq, Hash, Structural)]
pub enum ContentState {
    Active,
    Hidden,
    Removed,
}

/// The lowercase name of a ContentState, as storage and responses write it.
pub open spec fn content_state_name(x: ContentState) -> Seq<char> {
    match x {
        ContentState::Active => "active"@,
        ContentState::Hidden => "hidden"@,
        ContentState::Removed => "removed"@,
    }
}

impl ContentState {
    /// The lowercase name of this value.
    pub fn as_str(self) -> (r: &'static str)
        ensures
            r@ == content_state_name(self),
    {
        match self {
            ContentState::Active => "active",
            ContentState::Hidden => "hidden",
            ContentState::Removed => "removed",
        }
    }
}

/// Moderation state of an account.
#[derive(Debug, Clone, Copy, PartialEq, Eq, Hash, Structural)]
pub enum AccountState {
    Active,
    Suspended,
    Banned,
}

/// The lowercase name of a AccountState, as storage and responses write it.
pub open spec fn account_state_name(x: AccountState) -> Seq<char> {
    match x {
        AccountState::Active => "active"@,
        AccountState::Suspended => "suspended"@,
        AccountState::Banned => "banned"@,
    }
}

impl AccountState {
    /// The lowercase name of this value.
    pub fn as_str(self) -> (r: &'static str)
        ensures
            r@ == account_state_name(self),
    {
        match self {
            AccountState::Active => "active",
            AccountState::Suspended => "suspended",
            AccountState::Banned => "banned",
        }
    }
}

/// Workflow state of a moderation case.
#[derive(Debug, Clone, Copy, PartialEq, Eq, Hash, Structural)]
pub enum CaseState {
    Open,
    Investigating,
    Resolved,
    Dismissed,
}

/// The lowercase name of a CaseState, as storage and responses write it.
pub open spec fn case_state_name(x: CaseState) -> Seq<char> {
    match x {
        CaseState::Open => "open"@,
        CaseState::Investigating => "investigating"@,
        CaseState::Resolved => "resolved"@,
        CaseState::Dismissed => "dismissed"@,
    }
}

impl CaseState {
    /// The lowercase name of this value.
    pub fn as_str(self) -> (r: &'static str)
        ensures
            r@ == case_state_name(self),
    {
        match self {
            CaseState::Open => "open",
            CaseState::Investigating => "investigating",
            CaseState::Resolved => "resolved",
            CaseState::Dismissed => "dismissed",
        }
    }
}

/// A platform moderation role.
#[derive(Debug, Clone, Copy, PartialEq, Eq, Hash, Structural)]
pub enum Role {
    Moderator,
    Admin,
}

/// The lowercase name of a Role, as storage and responses write it.
pub open spec fn role_name(x: Role) -> Seq<char> {
    match x {
        Role::Moderator => "moderator"@,
        Role::Admin => "admin"@,
    }
}

impl Role {
    /// The lowercase name of this value.
    pub fn as_str(self) -> (r: &'static str)
        ensures
            r@ == role_name(self),
    {
        match self {
            Role::Moderator => "moderator",
            Role::Admin => "admin",
        }
    }
}

/// An activity that moderation can restrict for one user.
#[derive(Debug, Clone, Copy, PartialEq, Eq, Hash, Structural)]
pub enum RestrictionScope {
    Profile,
    Media,
    Post,
    Comment,
    Follow,
    Chat,
}

/// The lowercase name of a RestrictionScope, as storage and responses write it.
pub open spec fn restriction_scope_name(x: RestrictionScope) -> Seq<char> {
    match x {
        RestrictionScope::Profile => "profile"@,
        RestrictionScope::Media => "media"@,
        RestrictionScope::Post => "post"@,
        RestrictionScope::Comment => "comment"@,
        RestrictionScope::Follow => "follow"@,
        RestrictionScope::Chat => "chat"@,
    }
}

impl RestrictionScope {
    /// The lowercase name of this value.
    pub fn as_str(self) -> (r: &'static str)
        ensures
            r@ == restriction_scope_name(self),
    {
        match self {
            RestrictionScope::Profile => "profile",
            RestrictionScope::Media => "media",
            RestrictionScope::Post => "post",
            RestrictionScope::Comment => "comment",
            RestrictionScope::Follow => "follow",
            RestrictionScope::Chat => "chat",
        }
    }
}

/// An authority of moderation staff or services.
#[derive(Debug, Clone, Copy, PartialEq, Eq, Hash, Structural)]
pub enum Capability {
    ReportsRead,
    ContentModerate,
    UsersRestrict,
    RolesManage,
    AuditRead,
    SignalsRead,
    SignalsWrite,
}

/// The lowercase name of a Capability, as storage and responses write it.
pub open spec fn capability_name(x: Capability) -> Seq<char> {
    match x {
        Capability::ReportsRead => "reports.read"@,
        Capability::ContentModerate => "content.moderate"@,
        Capability::UsersRestrict => "users.restrict"@,
        Capability::RolesManage => "roles.manage"@,
        Capability::AuditRead => "audit.read"@,
        Capability::SignalsRead => "signals.read"@,
        Capability::SignalsWrite => "signals.write"@,
    }
}

impl Capability {
    /// The lowercase name of this value.
    pub fn as_str(self) -> (r: &'static str)
        ensures
            r@ == capability_name(self),
    {
        match self {
            Capability::ReportsRead => "reports.read",
            Capability::ContentModerate => "content.moderate",
            Capability::UsersRestrict => "users.restrict",
            Capability::RolesManage => "roles.manage",
            Capability::AuditRead => "audit.read",
            Capability::SignalsRead => "signals.read",
            Capability::SignalsWrite => "signals.write",
        }
    }
}


/// How many moderation capabilities exist.
pub const CAPABILITY_COUNT: usize = 7;

/// The position of a capability in canonical order.
pub open spec fn capability_index(c: Capability) -> int {
    match c {
        Capability::ReportsRead => 0,
        Capability::ContentModerate => 1,
        Capability::UsersRestrict => 2,
        Capability::RolesManage => 3,
        Capability::AuditRead => 4,
        Capability::SignalsRead => 5,
        Capability::SignalsWrite => 6,
    }
}

/// The capability at a position of the canonical order.
pub open spec fn capability_at_index(i: int) -> Capability {
    if i == 0 {
        Capability::ReportsRead
    } else if i == 1 {
        Capability::ContentModerate
    } else if i == 2 {
        Capability::UsersRestrict
    } else if i == 3 {
        Capability::RolesManage
    } else if i == 4 {
        Capability::AuditRead
    } else if i == 5 {
        Capability::SignalsRead
    } else {
        Capability::SignalsWrite
    }
}

/// Every capability, in canonical order.
pub open spec fn all_capabilities() -> Seq<Capability> {
    Seq::new(CAPABILITY_COUNT as nat, |i: int| capability_at_index(i))
}

/// The capability whose name is `t`, if any.
pub open spec fn capability_named(t: Seq<char>) -> Option<Capability> {
    if t == capability_name(Capability::ReportsRead) {
        Some(Capability::ReportsRead)
    } else if t == capability_name(Capability::ContentModerate) {
        Some(Capability::ContentModerate)
    } else if t == capability_name(Capability::UsersRestrict) {
        Some(Capability::UsersRestrict)
    } else if t == capability_name(Capability::RolesManage) {
        Some(Capability::RolesManage)
    } else if t == capability_name(Capability::AuditRead) {
        Some(Capability::AuditRead)
    } else if t == capability_name(Capability::SignalsRead) {
        Some(Capability::SignalsRead)
    } else if t == capability_name(Capability::SignalsWrite) {
        Some(Capability::SignalsWrite)
    } else {
        None
    }
}

/// The capabilities a moderation role grants.
pub open spec fn role_capabilities(r: Role) -> Seq<Capability> {
    match r {
        Role::Moderator => seq![
            Capability::ReportsRead,
            Capability::ContentModerate,
            Capability::UsersRestrict,
            Capability::AuditRead,
        ],
        Role::Admin => all_capabilities(),
    }
}

/// The set of capabilities a role grants, or none without a role.
pub open spec fn granted_by(role: Option<Role>) -> Set<Capability> {
    match role {
        Some(r) => role_capabilities(r).to_set(),
        None => Set::empty(),
    }
}

proof fn lemma_capability_index_roundtrip()
    ensures
        forall|c: Capability| #[trigger] capability_at_index(capability_index(c)) == c,
        forall|c: Capability| 0 <= #[trigger] capability_index(c) < CAPABILITY_COUNT,
        forall|i: int|
            0 <= i < CAPABILITY_COUNT ==> #[trigger] capability_index(capability_at_index(i)) == i,
{
}

impl Capability {
    /// The capability at position `i` of the canonical order.
    pub fn at_index(i: usize) -> (c: Capability)
        requires
            i < CAPABILITY_COUNT,
        ensures
            c == capability_at_index(i as int),
            capability_index(c) == i,
    {
        if i == 0 {
            Capability::ReportsRead
        } else if i == 1 {
            Capability::ContentModerate
        } else if i == 2 {
            Capability::UsersRestrict
        } else if i == 3 {
            Capability::RolesManage
        } else if i == 4 {
            Capability::AuditRead
        } else if i == 5 {
            Capability::SignalsRead
        } else {
            Capability::SignalsWrite
        }
    }

    /// The position of this capability in canonical order.
    pub fn index(self) -> (i: usize)
        ensures
            i == capability_index(self),
            i < CAPABILITY_COUNT,
    {
        match self {
            Capability::ReportsRead => 0,
            Capability::ContentModerate => 1,
            Capability::UsersRestrict => 2,
            Capability::RolesManage => 3,
            Capability::AuditRead => 4,
            Capability::SignalsRead => 5,
            Capability::SignalsWrite => 6,
        }
    }

    /// Every capability, in canonical order.
    pub fn all() -> (r: Vec<Capability>)
        ensures
            r@ == all_capabilities(),
    {
        let mut r: Vec<Capability> = Vec::new();
        let mut i: usize = 0;
        while i < CAPABILITY_COUNT
            invariant
                i <= CAPABILITY_COUNT,
                r@ == all_capabilities().take(i as int),
            decreases CAPABILITY_COUNT - i,
        {
            r.push(Capability::at_index(i));
            i = i + 1;
            assert(r@ =~= all_capabilities().take(i as int));
        }
        assert(all_capabilities().take(CAPABILITY_COUNT as int) =~= all_capabilities());
        r
    }

    /// The capability with the given name, if there is one.
    pub fn parse(value: &str) -> (r: Option<Capability>)
        ensures
            r == capability_named(value@),
    {
        if same_text(value, "reports.read") {
            Some(Capability::ReportsRead)
        } else if same_text(value, "content.moderate") {
            Some(Capability::ContentModerate)
        } else if same_text(value, "users.restrict") {
            Some(Capability::UsersRestrict)
        } else if same_text(value, "roles.manage") {
            Some(Capability::RolesManage)
        } else if same_text(value, "audit.read") {
            Some(Capability::AuditRead)
        } else if same_text(value, "signals.read") {
            Some(Capability::SignalsRead)
        } else if same_text(value, "signals.write") {
            Some(Capability::SignalsWrite)
        } else {
            None
        }
    }
}

impl Role {
    /// The capabilities this role grants.
    pub fn capabilities(self) -> (r: Vec<Capability>)
        ensures
            r@ == role_capabilities(self),
    {
        match self {
            Role::Moderator => {
                let mut r: Vec<Capability> = Vec::new();
                r.push(Capability::ReportsRead);
                r.push(Capability::ContentModerate);
                r.push(Capability::UsersRestrict);
                r.push(Capability::AuditRead);
                assert(r@ =~= role_capabilities(self));
                r
            },
            Role::Admin => Capability::all(),
        }
    }
}

/// A moderator may read reports, moderate content, restrict users and read the
/// audit log, but may not manage roles or handle signals; an administrator
/// holds every capability.
pub proof fn lemma_role_authority()
    ensures
        granted_by(Some(Role::Moderator)).contains(Capability::ReportsRead),
        !granted_by(Some(Role::Moderator)).contains(Capability::RolesManage),
        forall|c: Capability| #[trigger] granted_by(Some(Role::Admin)).contains(c),
        granted_by(Some(Role::Moderator)).subset_of(granted_by(Some(Role::Admin))),
{
    let m = role_capabilities(Role::Moderator);
    assert(m[0] == Capability::ReportsRead);
    assert(m.to_set().contains(m[0]));
    if m.to_set().contains(Capability::RolesManage) {
        let k = choose|k: int| 0 <= k < m.len() && m[k] == Capability::RolesManage;
    }
    assert forall|c: Capability| #[trigger] granted_by(Some(Role::Admin)).contains(c) by {
        lemma_capability_index_roundtrip();
        let k = capability_index(c);
        assert(all_capabilities()[k] == c);
    }
}

/// A set of capabilities, one flag per capability in canonical order.
#[derive(Debug)]
pub struct CapabilitySet {
    on: Vec<bool>,
}

impl CapabilitySet {
    /// There is exactly one flag per capability; every value keeps this.
    #[verifier::type_invariant]
    pub closed spec fn wf(&self) -> bool {
        self.on@.len() == CAPABILITY_COUNT
    }

    /// The capabilities whose flag is set.
    pub closed spec fn set(&self) -> Set<Capability> {
        Set::new(|c: Capability| self.on@[capability_index(c)])
    }

    /// The empty set.
    pub fn none() -> (r: CapabilitySet)
        ensures
            r.wf(),
            r.set() == Set::<Capability>::empty(),
    {
        let mut on: Vec<bool> = Vec::new();
        let mut i: usize = 0;
        while i < CAPABILITY_COUNT
            invariant
                i <= CAPABILITY_COUNT,
                on@.len() == i,
                forall|k: int| 0 <= k < i ==> !#[trigger] on@[k],
            decreases CAPABILITY_COUNT - i,
        {
            on.push(false);
            i = i + 1;
        }
        let r = CapabilitySet { on };
        assert(r.set() =~= Set::<Capability>::empty());
        r
    }

    /// Whether `c` is in the set.
    pub fn has(&self, c: Capability) -> (r: bool)
        ensures
            r == self.set().contains(c),
    {
        proof {
            use_type_invariant(self);
        }
        self.on[c.index()]
    }

    /// Adds `c`.
    pub fn insert(&mut self, c: Capability)
        ensures
            final(self).wf(),
            final(self).set() == old(self).set().insert(c),
    {
        proof {
            use_type_invariant(&*self);
        }
        let i = c.index();
        let mut on: Vec<bool> = Vec::new();
        let mut k: usize = 0;
        while k < CAPABILITY_COUNT
            invariant
                self.on@.len() == CAPABILITY_COUNT,
                i < CAPABILITY_COUNT,
                k <= CAPABILITY_COUNT,
                on@.len() == k,
                forall|j: int| 0 <= j < k ==> #[trigger] on@[j] == (self.on@[j] || j == i),
            decreases CAPABILITY_COUNT - k,
        {
            on.push(self.on[k] || k == i);
            k = k + 1;
        }
        let ghost before = self.set();
        *self = CapabilitySet { on };
        proof {
            lemma_capability_index_roundtrip();
            assert(self.set() =~= before.insert(c));
        }
    }

    /// Adds every capability of a list.
    pub fn extend(&mut self, cs: &Vec<Capability>)
        ensures
            final(self).wf(),
            final(self).set() == old(self).set().union(cs@.to_set()),
    {
        let mut k: usize = 0;
        while k < cs.len()
            invariant
                k <= cs.len(),
                self.set() == old(self).set().union(cs@.take(k as int).to_set()),
            decreases cs.len() - k,
        {
            self.insert(cs[k]);
            proof {
                assert(cs@.take(k + 1) =~= cs@.take(k as int).push(cs@[k as int]));
                cs@.take(k as int).lemma_push_to_set_commute(cs@[k as int]);
                assert(self.set() =~= old(self).set().union(cs@.take(k + 1).to_set()));
            }
            k = k + 1;
        }
        assert(cs@.take(cs.len() as int) =~= cs@);
        proof {
            use_type_invariant(&*self);
        }
    }
}

/// "unknown moderation capability `<claim>`".
pub open spec fn unknown_capability_message(claim: Seq<char>) -> Seq<char> {
    "unknown moderation capability `"@ + claim + "`"@
}

/// The claim at `j` is the first that names no capability.
pub open spec fn first_unknown_claim(claims: Seq<Seq<char>>, j: int) -> bool {
    &&& 0 <= j < claims.len()
    &&& capability_named(claims[j]) is None
    &&& forall|k: int| 0 <= k < j ==> #[trigger] capability_named(claims[k]) is Some
}

/// Every claim names a capability.
pub open spec fn all_claims_known(claims: Seq<Seq<char>>) -> bool {
    forall|j: int| 0 <= j < claims.len() ==> #[trigger] capability_named(claims[j]) is Some
}

/// The capabilities the claims name.
pub open spec fn claimed_capabilities(claims: Seq<Seq<char>>) -> Set<Capability> {
    Set::new(
        |c: Capability|
            exists|j: int| 0 <= j < claims.len() && #[trigger] capability_named(claims[j]) == Some(c),
    )
}

/// What the trusted capability header grants: nothing when absent; when
/// present, every comma-separated claim must name a capability, and the first
/// that does not refuses the request.
pub open spec fn trusted_claims_ok(header: Option<HeaderText>, r: Result<CapabilitySet, ApiError>) -> bool {
    match header {
        None => r matches Ok(s) && s.wf() && s.set() == Set::<Capability>::empty(),
        Some(HeaderText::Unreadable) => r matches Err(e) && is_bad_request(
            e,
            "invalid `x-social-moderation-capabilities` header"@,
        ),
        Some(HeaderText::Text(t)) => {
            let claims = csv_tokens(t@);
            match r {
                Ok(s) => all_claims_known(claims) && s.wf() && s.set() == claimed_capabilities(
                    claims,
                ),
                Err(e) => exists|j: int|
                    first_unknown_claim(claims, j) && is_bad_request(
                        e,
                        unknown_capability_message(claims[j]),
                    ),
            }
        },
    }
}

/// The capabilities that the trusted gateway claims for the caller in the
/// `x-social-moderation-capabilities` header. Unknown claims fail closed.
pub fn trusted_capabilities(header: &Option<HeaderText>) -> (r: Result<CapabilitySet, ApiError>)
    ensures
        trusted_claims_ok(*header, r),
{
    match header {
        None => Ok(CapabilitySet::none()),
        Some(HeaderText::Unreadable) => Err(
            ApiError::BadRequest("invalid `x-social-moderation-capabilities` header".to_owned()),
        ),
        Some(HeaderText::Text(t)) => claimed_in(t.as_str()),
    }
}

fn claimed_in(value: &str) -> (r: Result<CapabilitySet, ApiError>)
    ensures
        match r {
            Ok(s) => all_claims_known(csv_tokens(value@)) && s.wf() && s.set()
                == claimed_capabilities(csv_tokens(value@)),
            Err(e) => exists|j: int|
                first_unknown_claim(csv_tokens(value@), j) && is_bad_request(
                    e,
                    unknown_capability_message(csv_tokens(value@)[j]),
                ),
        },
{
    let tokens = split_csv(value);
    let ghost claims = csv_tokens(value@);
    let mut set = CapabilitySet::none();
    let mut j: usize = 0;
    while j < tokens.len()
        invariant
            claims == csv_tokens(value@),
            tokens.len() == claims.len(),
            forall|k: int| 0 <= k < tokens.len() ==> #[trigger] tokens[k]@ == claims[k],
            j <= tokens.len(),
            set.wf(),
            forall|k: int| 0 <= k < j ==> #[trigger] capability_named(claims[k]) is Some,
            set.set() == claimed_capabilities(claims.take(j as int)),
        decreases tokens.len() - j,
    {
        let raw = tokens[j];
        match Capability::parse(raw) {
            Some(c) => {
                set.insert(c);
                proof {
                    let next = claims.take(j + 1);
                    let prev = claims.take(j as int);
                    assert forall|g: Capability|
                        set.set().contains(g) == claimed_capabilities(next).contains(g) by {
                        if g == c {
                            assert(next[j as int] == claims[j as int]);
                        }
                        if claimed_capabilities(next).contains(g) {
                            let k = choose|k: int|
                                0 <= k < j + 1 && #[trigger] capability_named(next[k]) == Some(g);
                            if k < j {
                                assert(prev[k] == next[k]);
                            }
                        }
                        if claimed_capabilities(prev).contains(g) {
                            let k = choose|k: int|
                                0 <= k < j && #[trigger] capability_named(prev[k]) == Some(g);
                            assert(prev[k] == next[k]);
                        }
                    }
                    assert(set.set() =~= claimed_capabilities(next));
                }
            },
            None => {
                let e = ApiError::BadRequest(join3("unknown moderation capability `", raw, "`"));
                assert(first_unknown_claim(claims, j as int));
                return Err(e);
            },
        }
        j = j + 1;
    }
    assert(claims.take(j as int) =~= claims);
    Ok(set)
}

/// A caller acting with moderation authority.
#[derive(Debug)]
pub struct ModerationActor {
    context: RequestContext,
    role: Option<Role>,
    capabilities: CapabilitySet,
}

impl ModerationActor {
    /// The request the actor acts in.
    pub closed spec fn acting_context(&self) -> RequestContext {
        self.context
    }

    /// The actor's moderation role, if any.
    pub closed spec fn acting_role(&self) -> Option<Role> {
        self.role
    }

    /// The request the actor acts in.
    pub fn context(&self) -> (r: RequestContext)
        ensures
            r == self.acting_context(),
    {
        self.context
    }

    /// The actor's moderation role, if any.
    pub fn role(&self) -> (r: Option<Role>)
        ensures
            r == self.acting_role(),
    {
        self.role
    }

    /// The capabilities the actor holds.
    pub closed spec fn held(&self) -> Set<Capability> {
        self.capabilities.set()
    }

    /// An actor holding what the gateway claims for it and what its role grants.
    pub fn new(context: RequestContext, role: Option<Role>, claimed: CapabilitySet) -> (r:
        ModerationActor)
        ensures
            r.acting_context() == context,
            r.acting_role() == role,
            r.held() == claimed.set().union(granted_by(role)),
    {
        let mut capabilities = claimed;
        match role {
            Some(role) => {
                let granted = role.capabilities();
                capabilities.extend(&granted);
            },
            None => {
                assert(capabilities.set().union(Set::<Capability>::empty()) =~= capabilities.set());
            },
        }
        ModerationActor { context, role, capabilities }
    }

    /// Refuses an operation that needs a capability the actor does not hold.
    pub fn require(&self, capability: Capability) -> (r: Result<(), ApiError>)
        ensures
            r is Ok <==> self.held().contains(capability),
            r matches Err(e) ==> e == ApiError::Forbidden,
    {
        if self.capabilities.has(capability) {
            Ok(())
        } else {
            Err(ApiError::Forbidden)
        }
    }

    /// Refuses an operation that needs either of two capabilities when the
    /// actor holds neither.
    pub fn require_either(&self, first: Capability, second: Capability) -> (r: Result<
        (),
        ApiError,
    >)
        ensures
            r is Ok <==> (self.held().contains(first) || self.held().contains(second)),
            r matches Err(e) ==> e == ApiError::Forbidden,
    {
        if self.capabilities.has(first) || self.capabilities.has(second) {
            Ok(())
        } else {
            Err(ApiError::Forbidden)
        }
    }

    /// The names of the held capabilities, in canonical order.
    pub fn capability_names(&self) -> (r: Vec<&'static str>)
        ensures
            exists|order: Seq<Capability>|
                {
                    &&& forall|i: int, j: int|
                        0 <= i < j < order.len() ==> capability_index(#[trigger] order[i])
                            < capability_index(#[trigger] order[j])
                    &&& forall|c: Capability| #[trigger] order.contains(c) <==> self.held().contains(c)
                    &&& r.len() == order.len()
                    &&& forall|i: int| 0 <= i < r.len() ==> #[trigger] r[i]@ == capability_name(order[i])
                },
    {
        let all = Capability::all();
        let mut r: Vec<&'static str> = Vec::new();
        let ghost mut order: Seq<Capability> = Seq::empty();
        let mut i: usize = 0;
        while i < CAPABILITY_COUNT
            invariant
                all@ == all_capabilities(),
                i <= CAPABILITY_COUNT,
                forall|a: int, b: int|
                    0 <= a < b < order.len() ==> capability_index(#[trigger] order[a])
                        < capability_index(#[trigger] order[b]),
                forall|a: int| 0 <= a < order.len() ==> capability_index(#[trigger] order[a]) < i,
                forall|c: Capability|
                    #[trigger] order.contains(c) <==> (capability_index(c) < i
                        && self.held().contains(c)),
                r.len() == order.len(),
                forall|a: int| 0 <= a < r.len() ==> #[trigger] r[a]@ == capability_name(order[a]),
            decreases CAPABILITY_COUNT - i,
        {
            let c = all[i];
            assert(capability_index(c) == i);
            if self.capabilities.has(c) {
                let ghost before = order;
                r.push(c.as_str());
                proof {
                    order = order.push(c);
                    assert forall|g: Capability|
                        #[trigger] order.contains(g) <==> (capability_index(g) < i + 1
                            && self.held().contains(g)) by {
                        if order.contains(g) {
                            let k = choose|k: int| 0 <= k < order.len() && order[k] == g;
                            if k < before.len() {
                                assert(before[k] == g);
                                assert(before.contains(g));
                            }
                        }
                        if capability_index(g) < i + 1 && self.held().contains(g) {
                            if capability_index(g) == i {
                                lemma_capability_index_roundtrip();
                                assert(order[before.len() as int] == g);
                            } else {
                                assert(before.contains(g));
                                let k = choose|k: int| 0 <= k < before.len() && before[k] == g;
                                assert(order[k] == g);
                            }
                        }
                    }
                }
            } else {
                proof {
                    assert forall|g: Capability|
                        #[trigger] order.contains(g) <==> (capability_index(g) < i + 1
                            && self.held().contains(g)) by {
                        if capability_index(g) == i {
                            lemma_capability_index_roundtrip();
                        }
                    }
                }
            }
            i = i + 1;
        }
        proof {
            lemma_capability_index_roundtrip();
        }
        r
    }
}

/// What the `x-request-id` header gives: nothing when absent, else its text,
/// which must hold 1 to 128 characters.
pub open spec fn correlation_ok(header: Option<HeaderText>, r: Result<Option<String>, ApiError>) -> bool {
    match header {
        None => r matches Ok(v) && v is None,
        Some(HeaderText::Unreadable) => r matches Err(e) && is_bad_request(
            e,
            "invalid `x-request-id` header"@,
        ),
        Some(HeaderText::Text(t)) => if 1 <= t@.len() <= 128 {
            r matches Ok(v) && v matches Some(c) && c@ == t@
        } else {
            r matches Err(e) && is_bad_request(e, "x-request-id must contain 1-128 characters"@)
        },
    }
}

/// The correlation identifier of a moderation request, from `x-request-id`.
pub fn correlation_id(header: &Option<HeaderText>) -> (r: Result<Option<String>, ApiError>)
    ensures
        correlation_ok(*header, r),
{
    match header {
        None => Ok(None),
        Some(HeaderText::Unreadable) => Err(
            ApiError::BadRequest("invalid `x-request-id` header".to_owned()),
        ),
        Some(HeaderText::Text(t)) => {
            let n = t.as_str().unicode_len();
            if n == 0 || n > 128 {
                Err(ApiError::BadRequest("x-request-id must contain 1-128 characters".to_owned()))
            } else {
                Ok(Some(t.clone()))
            }
        },
    }
}

/// The reason given for a moderation action: trimmed, empty counts as absent,
/// and a present reason holds at most 2000 characters.
pub fn validate_reason(reason: Option<&str>) -> (r: Result<Option<&str>, ApiError>)
    ensures
        r is Ok <==> fits_optional(text_view(reason), 2000),
        r matches Ok(t) ==> text_view(t) == present_text(text_view(reason)),
        r matches Err(e) ==> is_bad_request(e, at_most_message("reason"@, 2000)),
{
    optional_text(reason, "reason", 2000)
}

/// Suspended and banned accounts are unavailable; others, and accounts with no
/// recorded state, are available.
pub open spec fn account_available(state: Option<AccountState>) -> bool {
    !(state == Some(AccountState::Suspended) || state == Some(AccountState::Banned))
}

/// Whether an account with this recorded state is available.
pub fn is_account_available(state: Option<AccountState>) -> (r: bool)
    ensures
        r == account_available(state),
{
    match state {
        Some(AccountState::Suspended) | Some(AccountState::Banned) => false,
        _ => true,
    }
}

/// Whether a user may act in a restriction scope: with moderation enabled, an
/// unavailable account or a restriction in the scope forbids it.
pub fn user_can_act(moderation_enabled: bool, account_state: Option<AccountState>, restricted: bool) -> (r: Result<(), ApiError>)
    ensures
        r is Ok <==> (!moderation_enabled || (account_available(account_state) && !restricted)),
        r matches Err(e) ==> e == ApiError::Forbidden,
{
    if !moderation_enabled {
        return Ok(());
    }
    if !is_account_available(account_state) || restricted {
        Err(ApiError::Forbidden)
    } else {
        Ok(())
    }
}

/// Whether a user's profile and authored content may be shown: with moderation
/// enabled, an unavailable account is reported as a missing profile.
pub fn account_visible(moderation_enabled: bool, account_state: Option<AccountState>) -> (r: Result<(), ApiError>)
    ensures
        r is Ok <==> (!moderation_enabled || account_available(account_state)),
        r matches Err(e) ==> e == ApiError::NotFound("profile"),
{
    if moderation_enabled && !is_account_available(account_state) {
        Err(ApiError::NotFound("profile"))
    } else {
        Ok(())
    }
}

/// Whether a piece of content may be shown: with moderation enabled, content in
/// any state but active (no recorded state counts as active) is reported as missing.
pub fn content_visible(
    moderation_enabled: bool,
    content_state: Option<ContentState>,
    resource_name: &'static str,
) -> (r: Result<(), ApiError>)
    ensures
        r is Ok <==> (!moderation_enabled || content_state is None || content_state == Some(
            ContentState::Active,
        )),
        r matches Err(e) ==> e == ApiError::NotFound(resource_name),
{
    let hidden = match content_state {
        Some(ContentState::Hidden) | Some(ContentState::Removed) => true,
        _ => false,
    };
    if moderation_enabled && hidden {
        Err(ApiError::NotFound(resource_name))
    } else {
        Ok(())
    }
}

} // verus!
