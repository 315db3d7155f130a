//! Social capabilities and their resolution into the set an application gets.
//!
//! Four layers are kept apart: what this version implements, what a deployment
//! supports, what an application requests, and the effective closure of that
//! request under the `requires` relation.

use vstd::prelude::*;

use crate::error::ApiError;
use crate::text::{csv_tokens, join3, same_text, split_csv};

verus! {

/// A social capability that a deployment can enable.
#[derive(Debug, Clone, Copy, PartialEq, Eq, Hash, Structural)]
pub enum Feature {
    Profiles,
    Media,
    Posts,
    Comments,
    Reactions,
    Votes,
    Follows,
    FollowRequests,
    Saves,
    Blocks,
    Mutes,
    Groups,
    Chat,
    Moderation,
}

/// How many capabilities this version implements.
pub const FEATURE_COUNT: usize = 14;

/// The position of a capability in canonical order.
pub open spec fn feature_index(f: Feature) -> int {
    match f {
        Feature::Profiles => 0,
        Feature::Media => 1,
        Feature::Posts => 2,
        Feature::Comments => 3,
        Feature::Reactions => 4,
        Feature::Votes => 5,
        Feature::Follows => 6,
        Feature::FollowRequests => 7,
        Feature::Saves => 8,
        Feature::Blocks => 9,
        Feature::Mutes => 10,
        Feature::Groups => 11,
        Feature::Chat => 12,
        Feature::Moderation => 13,
    }
}

/// The capability at a position of the canonical order.
pub open spec fn feature_at_index(i: int) -> Feature {
    if i == 0 {
        Feature::Profiles
    } else if i == 1 {
        Feature::Media
    } else if i == 2 {
        Feature::Posts
    } else if i == 3 {
        Feature::Comments
    } else if i == 4 {
        Feature::Reactions
    } else if i == 5 {
        Feature::Votes
    } else if i == 6 {
        Feature::Follows
    } else if i == 7 {
        Feature::FollowRequests
    } else if i == 8 {
        Feature::Saves
    } else if i == 9 {
        Feature::Blocks
    } else if i == 10 {
        Feature::Mutes
    } else if i == 11 {
        Feature::Groups
    } else if i == 12 {
        Feature::Chat
    } else {
        Feature::Moderation
    }
}

/// Every capability, in canonical order.
pub open spec fn all_features() -> Seq<Feature> {
    Seq::new(FEATURE_COUNT as nat, |i: int| feature_at_index(i))
}

/// The lowercase name of a capability, as configuration and responses write it.
pub open spec fn feature_name(f: Feature) -> Seq<char> {
    match f {
        Feature::Profiles => "profiles"@,
        Feature::Media => "media"@,
        Feature::Posts => "posts"@,
        Feature::Comments => "comments"@,
        Feature::Reactions => "reactions"@,
        Feature::Votes => "votes"@,
        Feature::Follows => "follows"@,
        Feature::FollowRequests => "follow_requests"@,
        Feature::Saves => "saves"@,
        Feature::Blocks => "blocks"@,
        Feature::Mutes => "mutes"@,
        Feature::Groups => "groups"@,
        Feature::Chat => "chat"@,
        Feature::Moderation => "moderation"@,
    }
}

/// The capability whose name is `t`, if any.
pub open spec fn feature_named(t: Seq<char>) -> Option<Feature> {
    if t == feature_name(Feature::Profiles) {
        Some(Feature::Profiles)
    } else if t == feature_name(Feature::Media) {
        Some(Feature::Media)
    } else if t == feature_name(Feature::Posts) {
        Some(Feature::Posts)
    } else if t == feature_name(Feature::Comments) {
        Some(Feature::Comments)
    } else if t == feature_name(Feature::Reactions) {
        Some(Feature::Reactions)
    } else if t == feature_name(Feature::Votes) {
        Some(Feature::Votes)
    } else if t == feature_name(Feature::Follows) {
        Some(Feature::Follows)
    } else if t == feature_name(Feature::FollowRequests) {
        Some(Feature::FollowRequests)
    } else if t == feature_name(Feature::Saves) {
        Some(Feature::Saves)
    } else if t == feature_name(Feature::Blocks) {
        Some(Feature::Blocks)
    } else if t == feature_name(Feature::Mutes) {
        Some(Feature::Mutes)
    } else if t == feature_name(Feature::Groups) {
        Some(Feature::Groups)
    } else if t == feature_name(Feature::Chat) {
        Some(Feature::Chat)
    } else if t == feature_name(Feature::Moderation) {
        Some(Feature::Moderation)
    } else {
        None
    }
}

/// The capabilities that must be enabled together with `f`.
pub open spec fn requirements(f: Feature) -> Seq<Feature> {
    match f {
        Feature::Profiles => seq![],
        Feature::Comments | Feature::Reactions | Feature::Votes | Feature::Saves => seq![
            Feature::Posts,
        ],
        Feature::FollowRequests => seq![Feature::Follows],
        _ => seq![Feature::Profiles],
    }
}

/// The optional capabilities that `f` works with when they are enabled too.
pub open spec fn integrations(f: Feature) -> Seq<Feature> {
    match f {
        Feature::Profiles | Feature::Posts | Feature::Chat => seq![Feature::Media],
        Feature::Groups => seq![Feature::Media, Feature::Chat],
        Feature::Moderation => seq![
            Feature::Media,
            Feature::Posts,
            Feature::Comments,
            Feature::Follows,
            Feature::Chat,
        ],
        _ => seq![],
    }
}

/// Every capability that enabling `f` enables: `f` and, transitively, what it requires.
pub open spec fn implied(f: Feature) -> Set<Feature> {
    match f {
        Feature::Profiles => set![Feature::Profiles],
        Feature::Comments | Feature::Reactions | Feature::Votes | Feature::Saves => set![
            f,
            Feature::Posts,
            Feature::Profiles,
        ],
        Feature::FollowRequests => set![
            Feature::FollowRequests,
            Feature::Follows,
            Feature::Profiles,
        ],
        _ => set![f, Feature::Profiles],
    }
}

/// The least set of capabilities that holds `s` and everything its members require.
pub open spec fn closure(s: Set<Feature>) -> Set<Feature> {
    Set::new(|f: Feature| exists|g: Feature| s.contains(g) && #[trigger] implied(g).contains(f))
}

/// Every requirement of every member of `s` is in `s`.
pub open spec fn closed_under_requirements(s: Set<Feature>) -> bool {
    forall|f: Feature, d: Feature|
        s.contains(f) && #[trigger] requirements(f).contains(d) ==> #[trigger] s.contains(d)
}

/// The set of every capability.
pub open spec fn every_feature() -> Set<Feature> {
    Set::new(|f: Feature| true)
}

/// `r` lists exactly the members of `s`, in canonical order.
pub open spec fn lists_in_order(r: Seq<Feature>, s: Set<Feature>) -> bool {
    &&& forall|i: int, j: int|
        0 <= i < j < r.len() ==> feature_index(#[trigger] r[i]) < feature_index(#[trigger] r[j])
    &&& forall|f: Feature| #[trigger] r.contains(f) <==> s.contains(f)
}

/// `implied(f)` is `f` with what it requires, and nothing more is required.
pub proof fn lemma_implied_is_requirement_closure(f: Feature)
    ensures
        implied(f).contains(f),
        closed_under_requirements(implied(f)),
        forall|d: Feature| #[trigger] requirements(f).contains(d) ==> implied(f).contains(d),
{
    assert forall|g: Feature, d: Feature|
        implied(f).contains(g) && #[trigger] requirements(g).contains(d) implies #[trigger] implied(
        f,
    ).contains(d) by {
        let rs = requirements(g);
        let k = choose|k: int| 0 <= k < rs.len() && rs[k] == d;
    }
    assert forall|d: Feature| #[trigger] requirements(f).contains(d) implies implied(f).contains(
        d,
    ) by {
        let rs = requirements(f);
        let k = choose|k: int| 0 <= k < rs.len() && rs[k] == d;
    }
}

/// A set closed under requirements that holds `g` holds all that `g` implies.
pub proof fn lemma_closed_holds_implied(s: Set<Feature>, g: Feature)
    requires
        closed_under_requirements(s),
        s.contains(g),
    ensures
        implied(g).subset_of(s),
{
    assert(requirements(Feature::Comments)[0] == Feature::Posts);
    assert(requirements(Feature::Posts)[0] == Feature::Profiles);
    assert(requirements(Feature::FollowRequests)[0] == Feature::Follows);
    assert(requirements(Feature::Follows)[0] == Feature::Profiles);
    assert(requirements(g).len() > 0 ==> requirements(g).contains(requirements(g)[0]));
    let p = Feature::Posts;
    assert(requirements(p).contains(requirements(p)[0]));
    let fo = Feature::Follows;
    assert(requirements(fo).contains(requirements(fo)[0]));
}

/// The closure of a set holds the set, is closed, and lies in every closed superset.
pub proof fn lemma_closure_is_least(s: Set<Feature>, t: Set<Feature>)
    ensures
        s.subset_of(closure(s)),
        closed_under_requirements(closure(s)),
        closed_under_requirements(t) && s.subset_of(t) ==> closure(s).subset_of(t),
{
    assert forall|f: Feature| s.contains(f) implies closure(s).contains(f) by {
        lemma_implied_is_requirement_closure(f);
    }
    assert forall|f: Feature, d: Feature|
        closure(s).contains(f) && #[trigger] requirements(f).contains(d) implies #[trigger] closure(
        s,
    ).contains(d) by {
        let g = choose|g: Feature| s.contains(g) && #[trigger] implied(g).contains(f);
        lemma_implied_is_requirement_closure(g);
    }
    if closed_under_requirements(t) && s.subset_of(t) {
        assert forall|f: Feature| closure(s).contains(f) implies t.contains(f) by {
            let g = choose|g: Feature| s.contains(g) && #[trigger] implied(g).contains(f);
            lemma_closed_holds_implied(t, g);
        }
    }
}

proof fn lemma_index_roundtrip()
    ensures
        forall|f: Feature| #[trigger] feature_at_index(feature_index(f)) == f,
        forall|f: Feature| 0 <= #[trigger] feature_index(f) < FEATURE_COUNT,
        forall|i: int| 0 <= i < FEATURE_COUNT ==> #[trigger] feature_index(feature_at_index(i)) == i,
{
}

impl Feature {
    /// The capability at position `i` of the canonical order.
    pub fn at_index(i: usize) -> (f: Feature)
        requires
            i < FEATURE_COUNT,
        ensures
            f == feature_at_index(i as int),
            feature_index(f) == i,
    {
        if i == 0 {
            Feature::Profiles
        } else if i == 1 {
            Feature::Media
        } else if i == 2 {
            Feature::Posts
        } else if i == 3 {
            Feature::Comments
        } else if i == 4 {
            Feature::Reactions
        } else if i == 5 {
            Feature::Votes
        } else if i == 6 {
            Feature::Follows
        } else if i == 7 {
            Feature::FollowRequests
        } else if i == 8 {
            Feature::Saves
        } else if i == 9 {
            Feature::Blocks
        } else if i == 10 {
            Feature::Mutes
        } else if i == 11 {
            Feature::Groups
        } else if i == 12 {
            Feature::Chat
        } else {
            Feature::Moderation
        }
    }

    /// The position of this capability in canonical order.
    pub fn index(self) -> (i: usize)
        ensures
            i == feature_index(self),
            i < FEATURE_COUNT,
    {
        match self {
            Feature::Profiles => 0,
            Feature::Media => 1,
            Feature::Posts => 2,
            Feature::Comments => 3,
            Feature::Reactions => 4,
            Feature::Votes => 5,
            Feature::Follows => 6,
            Feature::FollowRequests => 7,
            Feature::Saves => 8,
            Feature::Blocks => 9,
            Feature::Mutes => 10,
            Feature::Groups => 11,
            Feature::Chat => 12,
            Feature::Moderation => 13,
        }
    }

    /// Every capability, in canonical order.
    pub fn all() -> (r: Vec<Feature>)
        ensures
            r@ == all_features(),
    {
        let mut r: Vec<Feature> = Vec::new();
        let mut i: usize = 0;
        while i < FEATURE_COUNT
            invariant
                i <= FEATURE_COUNT,
                r@ == all_features().take(i as int),
            decreases FEATURE_COUNT - i,
        {
            r.push(Feature::at_index(i));
            i = i + 1;
            assert(r@ =~= all_features().take(i as int));
        }
        assert(all_features().take(FEATURE_COUNT as int) =~= all_features());
        r
    }

    /// The lowercase name of this capability.
    pub fn as_str(self) -> (r: &'static str)
        ensures
            r@ == feature_name(self),
    {
        match self {
            Feature::Profiles => "profiles",
            Feature::Media => "media",
            Feature::Posts => "posts",
            Feature::Comments => "comments",
            Feature::Reactions => "reactions",
            Feature::Votes => "votes",
            Feature::Follows => "follows",
            Feature::FollowRequests => "follow_requests",
            Feature::Saves => "saves",
            Feature::Blocks => "blocks",
            Feature::Mutes => "mutes",
            Feature::Groups => "groups",
            Feature::Chat => "chat",
            Feature::Moderation => "moderation",
        }
    }

    /// The capability with the given name, if there is one.
    pub fn parse(value: &str) -> (r: Option<Feature>)
        ensures
            r == feature_named(value@),
    {
        if same_text(value, "profiles") {
            Some(Feature::Profiles)
        } else if same_text(value, "media") {
            Some(Feature::Media)
        } else if same_text(value, "posts") {
            Some(Feature::Posts)
        } else if same_text(value, "comments") {
            Some(Feature::Comments)
        } else if same_text(value, "reactions") {
            Some(Feature::Reactions)
        } else if same_text(value, "votes") {
            Some(Feature::Votes)
        } else if same_text(value, "follows") {
            Some(Feature::Follows)
        } else if same_text(value, "follow_requests") {
            Some(Feature::FollowRequests)
        } else if same_text(value, "saves") {
            Some(Feature::Saves)
        } else if same_text(value, "blocks") {
            Some(Feature::Blocks)
        } else if same_text(value, "mutes") {
            Some(Feature::Mutes)
        } else if same_text(value, "groups") {
            Some(Feature::Groups)
        } else if same_text(value, "chat") {
            Some(Feature::Chat)
        } else if same_text(value, "moderation") {
            Some(Feature::Moderation)
        } else {
            None
        }
    }

    /// The capabilities that must be enabled together with this one.
    pub fn required_features(self) -> (r: Vec<Feature>)
        ensures
            r@ == requirements(self),
    {
        let mut r: Vec<Feature> = Vec::new();
        match self {
            Feature::Profiles => {},
            Feature::Comments | Feature::Reactions | Feature::Votes | Feature::Saves => {
                r.push(Feature::Posts);
            },
            Feature::FollowRequests => {
                r.push(Feature::Follows);
            },
            _ => {
                r.push(Feature::Profiles);
            },
        }
        assert(r@ =~= requirements(self));
        r
    }

    /// The optional capabilities that this one works with when they are enabled too.
    pub fn integrates_with(self) -> (r: Vec<Feature>)
        ensures
            r@ == integrations(self),
    {
        let mut r: Vec<Feature> = Vec::new();
        match self {
            Feature::Profiles | Feature::Posts | Feature::Chat => {
                r.push(Feature::Media);
            },
            Feature::Groups => {
                r.push(Feature::Media);
                r.push(Feature::Chat);
            },
            Feature::Moderation => {
                r.push(Feature::Media);
                r.push(Feature::Posts);
                r.push(Feature::Comments);
                r.push(Feature::Follows);
                r.push(Feature::Chat);
            },
            _ => {},
        }
        assert(r@ =~= integrations(self));
        r
    }

    /// The capabilities that cannot be enabled together with this one.
    pub fn conflicts(self) -> (r: Vec<Feature>)
        ensures
            r@ == Seq::<Feature>::empty(),
    {
        Vec::new()
    }
}


/// How many entries of a flag sequence are set.
pub open spec fn count_on(s: Seq<bool>) -> nat
    decreases s.len(),
{
    if s.len() == 0 {
        0
    } else {
        count_on(s.drop_last()) + if s.last() {
            1nat
        } else {
            0nat
        }
    }
}

proof fn lemma_count_on_bounded(s: Seq<bool>)
    ensures
        count_on(s) <= s.len(),
    decreases s.len(),
{
    if s.len() > 0 {
        lemma_count_on_bounded(s.drop_last());
    }
}

proof fn lemma_count_on_set(s: Seq<bool>, i: int)
    requires
        0 <= i < s.len(),
        !s[i],
    ensures
        count_on(s.update(i, true)) == count_on(s) + 1,
    decreases s.len(),
{
    let t = s.update(i, true);
    if i == s.len() - 1 {
        assert(t.drop_last() =~= s.drop_last());
    } else {
        lemma_count_on_set(s.drop_last(), i);
        assert(t.drop_last() =~= s.drop_last().update(i, true));
    }
}

/// A set of capabilities, one flag per capability in canonical order.
#[derive(Debug, Clone)]
pub struct FeatureFlags {
    on: Vec<bool>,
}

impl FeatureFlags {
    /// There is exactly one flag per capability.
    pub closed spec fn wf(&self) -> bool {
        self.on@.len() == FEATURE_COUNT
    }

    /// The capabilities whose flag is set.
    pub closed spec fn set(&self) -> Set<Feature> {
        Set::new(|f: Feature| self.on@[feature_index(f)])
    }

    /// How many capabilities are in the set.
    pub closed spec fn size(&self) -> nat {
        count_on(self.on@)
    }

    proof fn lemma_size_bounded(&self)
        requires
            self.wf(),
        ensures
            self.size() <= FEATURE_COUNT,
    {
        lemma_count_on_bounded(self.on@);
    }

    /// The empty set of capabilities.
    pub fn none() -> (r: FeatureFlags)
        ensures
            r.wf(),
            r.set() == Set::<Feature>::empty(),
    {
        let mut on: Vec<bool> = Vec::new();
        let mut i: usize = 0;
        while i < FEATURE_COUNT
            invariant
                i <= FEATURE_COUNT,
                on@.len() == i,
                forall|k: int| 0 <= k < i ==> !#[trigger] on@[k],
            decreases FEATURE_COUNT - i,
        {
            on.push(false);
            i = i + 1;
        }
        let r = FeatureFlags { on };
        assert(r.set() =~= Set::<Feature>::empty());
        r
    }

    /// The set of every capability.
    pub fn every() -> (r: FeatureFlags)
        ensures
            r.wf(),
            r.set() == every_feature(),
    {
        let mut on: Vec<bool> = Vec::new();
        let mut i: usize = 0;
        while i < FEATURE_COUNT
            invariant
                i <= FEATURE_COUNT,
                on@.len() == i,
                forall|k: int| 0 <= k < i ==> #[trigger] on@[k],
            decreases FEATURE_COUNT - i,
        {
            on.push(true);
            i = i + 1;
        }
        let r = FeatureFlags { on };
        assert(r.set() =~= every_feature());
        r
    }

    /// An equal, separate set.
    pub fn duplicate(&self) -> (r: FeatureFlags)
        requires
            self.wf(),
        ensures
            r.wf(),
            r.set() == self.set(),
    {
        let mut on: Vec<bool> = Vec::new();
        let mut i: usize = 0;
        while i < FEATURE_COUNT
            invariant
                self.wf(),
                i <= FEATURE_COUNT,
                on@ == self.on@.take(i as int),
            decreases FEATURE_COUNT - i,
        {
            on.push(self.on[i]);
            i = i + 1;
            assert(on@ =~= self.on@.take(i as int));
        }
        assert(self.on@.take(FEATURE_COUNT as int) =~= self.on@);
        let r = FeatureFlags { on };
        assert(r.set() =~= self.set());
        r
    }

    /// Whether `f` is in the set.
    pub fn has(&self, f: Feature) -> (r: bool)
        requires
            self.wf(),
        ensures
            r == self.set().contains(f),
    {
        self.on[f.index()]
    }

    /// Adds `f`; tells whether it was new.
    pub fn insert(&mut self, f: Feature) -> (r: bool)
        requires
            old(self).wf(),
        ensures
            final(self).wf(),
            final(self).set() == old(self).set().insert(f),
            r == !old(self).set().contains(f),
            r ==> final(self).size() == old(self).size() + 1,
            !r ==> final(self).size() == old(self).size(),
    {
        let i = f.index();
        if self.on[i] {
            assert(self.set() =~= self.set().insert(f));
            false
        } else {
            proof {
                lemma_count_on_set(self.on@, i as int);
            }
            self.on.set(i, true);
            proof {
                lemma_index_roundtrip();
                assert(self.set() =~= old(self).set().insert(f));
            }
            true
        }
    }
}

/// Lists the members of a set in canonical order.
fn ordered(features: &FeatureFlags) -> (r: Vec<Feature>)
    requires
        features.wf(),
    ensures
        lists_in_order(r@, features.set()),
{
    let all = Feature::all();
    let mut r: Vec<Feature> = Vec::new();
    let mut i: usize = 0;
    while i < FEATURE_COUNT
        invariant
            features.wf(),
            all@ == all_features(),
            i <= FEATURE_COUNT,
            forall|a: int, b: int|
                0 <= a < b < r.len() ==> feature_index(#[trigger] r@[a]) < feature_index(
                    #[trigger] r@[b],
                ),
            forall|a: int| 0 <= a < r.len() ==> feature_index(#[trigger] r@[a]) < i,
            forall|f: Feature|
                #[trigger] r@.contains(f) <==> (feature_index(f) < i && features.set().contains(f)),
        decreases FEATURE_COUNT - i,
    {
        let f = all[i];
        assert(f == feature_at_index(i as int));
        assert(feature_index(f) == i);
        if features.has(f) {
            let ghost before = r@;
            r.push(f);
            proof {
                assert forall|g: Feature|
                    #[trigger] r@.contains(g) <==> (feature_index(g) < i + 1
                        && features.set().contains(g)) by {
                    if r@.contains(g) {
                        let k = choose|k: int| 0 <= k < r@.len() && r@[k] == g;
                        if k < before.len() {
                            assert(before[k] == g);
                            assert(before.contains(g));
                        }
                    }
                    if feature_index(g) < i + 1 && features.set().contains(g) {
                        if feature_index(g) == i {
                            lemma_index_roundtrip();
                            assert(g == f);
                            assert(r@[before.len() as int] == g);
                        } else {
                            assert(before.contains(g));
                            let k = choose|k: int| 0 <= k < before.len() && before[k] == g;
                            assert(r@[k] == g);
                        }
                    }
                }
            }
        } else {
            proof {
                assert forall|g: Feature|
                    #[trigger] r@.contains(g) <==> (feature_index(g) < i + 1
                        && features.set().contains(g)) by {
                    if feature_index(g) == i {
                        lemma_index_roundtrip();
                        assert(g == f);
                    }
                }
            }
        }
        i = i + 1;
    }
    proof {
        lemma_index_roundtrip();
    }
    r
}

/// Why a capability selection was refused.
#[derive(Debug, PartialEq, Eq)]
pub enum FeatureError {
    /// A listed name is not a capability.
    Unknown(String),
    /// The capability is outside what the deployment supports.
    Unsupported(Feature),
    /// A requested capability requires one the deployment does not support.
    UnsupportedDependency { feature: Feature, dependency: Feature },
    /// Two enabled capabilities exclude each other.
    Conflict { feature: Feature, conflict: Feature },
}

/// The text that reports a capability error.
pub open spec fn feature_error_message(e: FeatureError) -> Seq<char> {
    match e {
        FeatureError::Unknown(raw) => "unknown social feature `"@ + raw@ + "`"@,
        FeatureError::Unsupported(f) => "feature `"@ + feature_name(f)
            + "` is not supported by this deployment"@,
        FeatureError::UnsupportedDependency { feature, dependency } => "feature `"@
            + feature_name(feature) + "` requires unsupported feature `"@ + feature_name(dependency)
            + "`"@,
        FeatureError::Conflict { feature, conflict } => "feature `"@ + feature_name(feature)
            + "` conflicts with `"@ + feature_name(conflict) + "`"@,
    }
}

impl FeatureError {
    /// The text that reports this error.
    pub fn message(&self) -> (r: String)
        ensures
            r@ == feature_error_message(*self),
    {
        match self {
            FeatureError::Unknown(raw) => join3("unknown social feature `", raw.as_str(), "`"),
            FeatureError::Unsupported(f) => join3(
                "feature `",
                f.as_str(),
                "` is not supported by this deployment",
            ),
            FeatureError::UnsupportedDependency { feature, dependency } => {
                let head = join3("feature `", feature.as_str(), "` requires unsupported feature `");
                join3(head.as_str(), dependency.as_str(), "`")
            },
            FeatureError::Conflict { feature, conflict } => {
                let head = join3("feature `", feature.as_str(), "` conflicts with `");
                join3(head.as_str(), conflict.as_str(), "`")
            },
        }
    }
}

/// The token at `j` names no capability.
pub open spec fn unknown_token_at(tokens: Seq<Seq<char>>, j: int) -> bool {
    0 <= j < tokens.len() && feature_named(tokens[j]) is None
}

/// The token at `j` is the first that names no capability.
pub open spec fn first_unknown_token(tokens: Seq<Seq<char>>, j: int) -> bool {
    &&& unknown_token_at(tokens, j)
    &&& forall|k: int| 0 <= k < j ==> #[trigger] feature_named(tokens[k]) is Some
}

/// Every token names a capability.
pub open spec fn all_tokens_known(tokens: Seq<Seq<char>>) -> bool {
    forall|j: int| 0 <= j < tokens.len() ==> #[trigger] feature_named(tokens[j]) is Some
}

/// The capabilities that the tokens name.
pub open spec fn named_features(tokens: Seq<Seq<char>>) -> Set<Feature> {
    Set::new(
        |f: Feature| exists|j: int| 0 <= j < tokens.len() && #[trigger] feature_named(tokens[j]) == Some(f),
    )
}

/// A comma-separated list of capability names is accepted exactly when every
/// entry names a capability, and then selects the named capabilities.
pub open spec fn csv_selection_ok(value: Seq<char>, r: Result<FeatureFlags, FeatureError>) -> bool {
    let tokens = csv_tokens(value);
    match r {
        Ok(flags) => all_tokens_known(tokens) && flags.wf() && flags.set() == named_features(
            tokens,
        ),
        Err(FeatureError::Unknown(raw)) => !all_tokens_known(tokens) && exists|j: int|
            first_unknown_token(tokens, j) && raw@ == tokens[j],
        Err(_) => false,
    }
}

fn parse_csv(value: &str) -> (r: Result<FeatureFlags, FeatureError>)
    ensures
        csv_selection_ok(value@, r),
{
    let tokens = split_csv(value);
    let ghost toks = csv_tokens(value@);
    let mut flags = FeatureFlags::none();
    let mut j: usize = 0;
    while j < tokens.len()
        invariant
            toks == csv_tokens(value@),
            tokens.len() == toks.len(),
            forall|k: int| 0 <= k < tokens.len() ==> #[trigger] tokens[k]@ == toks[k],
            j <= tokens.len(),
            flags.wf(),
            forall|k: int| 0 <= k < j ==> #[trigger] feature_named(toks[k]) is Some,
            flags.set() == named_features(toks.take(j as int)),
        decreases tokens.len() - j,
    {
        let raw = tokens[j];
        match Feature::parse(raw) {
            Some(f) => {
                flags.insert(f);
                proof {
                    assert(toks.take(j + 1).take(j as int) =~= toks.take(j as int));
                    assert forall|g: Feature|
                        flags.set().contains(g) == named_features(toks.take(j + 1)).contains(g) by {
                        if g == f {
                            assert(toks.take(j + 1)[j as int] == toks[j as int]);
                        }
                        if named_features(toks.take(j + 1)).contains(g) {
                            let k = choose|k: int|
                                0 <= k < j + 1 && #[trigger] feature_named(toks.take(j + 1)[k])
                                    == Some(g);
                            if k < j {
                                assert(toks.take(j as int)[k] == toks.take(j + 1)[k]);
                            }
                        }
                        if named_features(toks.take(j as int)).contains(g) {
                            let k = choose|k: int|
                                0 <= k < j && #[trigger] feature_named(toks.take(j as int)[k])
                                    == Some(g);
                            assert(toks.take(j as int)[k] == toks.take(j + 1)[k]);
                        }
                    }
                    assert(flags.set() =~= named_features(toks.take(j + 1)));
                }
            },
            None => {
                let e = FeatureError::Unknown(raw.to_owned());
                assert(feature_named(toks[j as int]) is None);
                assert(first_unknown_token(toks, j as int));
                assert(!all_tokens_known(toks));
                assert(e matches FeatureError::Unknown(x) && x@ == toks[j as int]);
                return Err(e);
            },
        }
        j = j + 1;
    }
    assert(toks.take(j as int) =~= toks);
    Ok(flags)
}

/// `f` is the first capability, in canonical order, that is requested but not available.
pub open spec fn first_unavailable(requested: Set<Feature>, available: Set<Feature>, f: Feature) -> bool {
    &&& requested.contains(f)
    &&& !available.contains(f)
    &&& forall|g: Feature|
        feature_index(g) < feature_index(f) ==> !(#[trigger] requested.contains(g)
            && !available.contains(g))
}

/// What resolving a request against the available capabilities gives.
///
/// A request outside what is available fails on its first such capability.
/// Otherwise the request is closed under `requires`; when the closure stays
/// inside what is available that closure is the result, else some member of
/// the closure requires something unavailable.
pub open spec fn resolution_ok(
    requested: Set<Feature>,
    available: Set<Feature>,
    r: Result<FeatureFlags, FeatureError>,
) -> bool {
    if !requested.subset_of(available) {
        r matches Err(FeatureError::Unsupported(f)) && first_unavailable(requested, available, f)
    } else if closure(requested).subset_of(available) {
        r matches Ok(e) && e.wf() && e.set() == closure(requested)
    } else {
        r matches Err(FeatureError::UnsupportedDependency { feature, dependency }) && closure(
            requested,
        ).contains(feature) && requirements(feature).contains(dependency) && !available.contains(
            dependency,
        )
    }
}

fn resolve(requested: FeatureFlags, available: &FeatureFlags) -> (r: Result<
    FeatureFlags,
    FeatureError,
>)
    requires
        requested.wf(),
        available.wf(),
    ensures
        resolution_ok(requested.set(), available.set(), r),
{
    let ghost req = requested.set();
    let ghost avail = available.set();
    let all = Feature::all();
    let mut i: usize = 0;
    while i < FEATURE_COUNT
        invariant
            requested.wf(),
            available.wf(),
            req == requested.set(),
            avail == available.set(),
            all@ == all_features(),
            i <= FEATURE_COUNT,
            forall|g: Feature|
                feature_index(g) < i ==> !(#[trigger] req.contains(g) && !avail.contains(g)),
        decreases FEATURE_COUNT - i,
    {
        let f = all[i];
        assert(feature_index(f) == i);
        if requested.has(f) && !available.has(f) {
            return Err(FeatureError::Unsupported(f));
        }
        proof {
            assert forall|g: Feature|
                feature_index(g) < i + 1 implies !(#[trigger] req.contains(g) && !avail.contains(
                g,
            )) by {
                if feature_index(g) == i {
                    lemma_index_roundtrip();
                    assert(g == f);
                }
            }
        }
        i = i + 1;
    }
    assert(req.subset_of(avail)) by {
        lemma_index_roundtrip();
    }
    proof {
        lemma_closure_is_least(req, avail);
    }
    let mut effective = requested.duplicate();
    loop
        invariant
            available.wf(),
            avail == available.set(),
            all@ == all_features(),
            effective.wf(),
            req.subset_of(effective.set()),
            req.subset_of(avail),
            requested.wf(),
            req == requested.set(),
            effective.set().subset_of(closure(req)),
            effective.set().subset_of(avail),
            req.subset_of(closure(req)),
            closed_under_requirements(closure(req)),
        ensures
            effective.wf(),
            effective.set() == closure(req),
            closure(req).subset_of(avail),
            req.subset_of(avail),
        decreases FEATURE_COUNT - effective.size(),
    {
        let ghost start = effective.set();
        let ghost start_size = effective.size();
        let mut changed = false;
        let mut i: usize = 0;
        while i < FEATURE_COUNT
            invariant
                available.wf(),
                avail == available.set(),
                all@ == all_features(),
                effective.wf(),
                req.subset_of(effective.set()),
                req.subset_of(avail),
                req == requested.set(),
                effective.set().subset_of(closure(req)),
                effective.set().subset_of(avail),
                closed_under_requirements(closure(req)),
                i <= FEATURE_COUNT,
                start.subset_of(effective.set()),
                effective.size() >= start_size,
                changed ==> effective.size() > start_size,
                !changed ==> effective.set() == start,
                !changed ==> forall|g: Feature, d: Feature|
                    feature_index(g) < i && effective.set().contains(g)
                        && #[trigger] requirements(g).contains(d) ==> #[trigger] effective.set().contains(d),
            decreases FEATURE_COUNT - i,
        {
            let f = all[i];
            assert(feature_index(f) == i);
            if effective.has(f) {
                let deps = f.required_features();
                let mut k: usize = 0;
                while k < deps.len()
                    invariant
                        available.wf(),
                        avail == available.set(),
                        effective.wf(),
                        deps@ == requirements(f),
                        effective.set().contains(f),
                        req.subset_of(effective.set()),
                        req.subset_of(avail),
                        req == requested.set(),
                        effective.set().subset_of(closure(req)),
                        effective.set().subset_of(avail),
                        closed_under_requirements(closure(req)),
                        k <= deps.len(),
                        start.subset_of(effective.set()),
                        effective.size() >= start_size,
                        changed ==> effective.size() > start_size,
                        !changed ==> effective.set() == start,
                        !changed ==> forall|g: Feature, d: Feature|
                            feature_index(g) < i && effective.set().contains(g)
                                && #[trigger] requirements(g).contains(d) ==> #[trigger] effective.set().contains(d),
                        !changed ==> forall|m: int| 0 <= m < k ==> effective.set().contains(#[trigger] deps@[m]),
                    decreases deps.len() - k,
                {
                    let d = deps[k];
                    assert(requirements(f).contains(d));
                    if !available.has(d) {
                        assert(closure(req).contains(d));
                        assert(!closure(req).subset_of(avail));
                        return Err(FeatureError::UnsupportedDependency { feature: f, dependency: d });
                    }
                    let inserted = effective.insert(d);
                    changed = changed || inserted;
                    k = k + 1;
                }
                proof {
                    if !changed {
                        assert forall|g: Feature, d: Feature|
                            feature_index(g) < i + 1 && effective.set().contains(g)
                                && #[trigger] requirements(g).contains(d) implies #[trigger] effective.set().contains(d) by {
                            if feature_index(g) == i {
                                lemma_index_roundtrip();
                                assert(g == f);
                                let m = choose|m: int| 0 <= m < deps@.len() && deps@[m] == d;
                            }
                        }
                    }
                }
            } else {
                proof {
                    if !changed {
                        assert forall|g: Feature, d: Feature|
                            feature_index(g) < i + 1 && effective.set().contains(g)
                                && #[trigger] requirements(g).contains(d) implies #[trigger] effective.set().contains(d) by {
                            if feature_index(g) == i {
                                lemma_index_roundtrip();
                                assert(g == f);
                            }
                        }
                    }
                }
            }
            i = i + 1;
        }
        proof {
            effective.lemma_size_bounded();
        }
        if !changed {
            proof {
                lemma_index_roundtrip();
                assert(closed_under_requirements(effective.set()));
                lemma_closure_is_least(req, effective.set());
                assert(effective.set() =~= closure(req));
            }
            break;
        }
    }
    let all = Feature::all();
    let mut i: usize = 0;
    while i < FEATURE_COUNT
        invariant
            effective.wf(),
            effective.set() == closure(req),
            closure(req).subset_of(avail),
            req.subset_of(avail),
            req == requested.set(),
            avail == available.set(),
            all@ == all_features(),
            i <= FEATURE_COUNT,
        decreases FEATURE_COUNT - i,
    {
        let f = all[i];
        if effective.has(f) {
            let conflicts = f.conflicts();
            let mut k: usize = 0;
            while k < conflicts.len()
                invariant
                    conflicts@.len() == 0,
                    k <= conflicts.len(),
                decreases conflicts.len() - k,
            {
                let c = conflicts[k];
                if effective.has(c) {
                    return Err(FeatureError::Conflict { feature: f, conflict: c });
                }
                k = k + 1;
            }
        }
        i = i + 1;
    }
    Ok(effective)
}

/// The four capability layers of a deployment and one application in it.
#[derive(Debug)]
pub struct FeatureSet {
    implemented: FeatureFlags,
    deployment_supported: FeatureFlags,
    app_requested: FeatureFlags,
    app_effective: FeatureFlags,
}

/// The capability layers as sets.
pub struct FeatureSetView {
    pub implemented: Set<Feature>,
    pub deployment_supported: Set<Feature>,
    pub app_requested: Set<Feature>,
    pub app_effective: Set<Feature>,
}

impl View for FeatureSet {
    type V = FeatureSetView;

    closed spec fn view(&self) -> FeatureSetView {
        FeatureSetView {
            implemented: self.implemented.set(),
            deployment_supported: self.deployment_supported.set(),
            app_requested: self.app_requested.set(),
            app_effective: self.app_effective.set(),
        }
    }
}

/// The layers nest: every capability is implemented, the deployment maximum is
/// closed under `requires`, the request lies inside it, and the effective set is
/// the closure of the request.
pub open spec fn layers_consistent(v: FeatureSetView) -> bool {
    &&& v.implemented == every_feature()
    &&& closed_under_requirements(v.deployment_supported)
    &&& v.app_requested.subset_of(v.deployment_supported)
    &&& v.app_effective == closure(v.app_requested)
}

impl FeatureSet {
    /// The layers are well formed and consistent; every value keeps this.
    #[verifier::type_invariant]
    pub closed spec fn well_formed(&self) -> bool {
        &&& self.implemented.wf()
        &&& self.deployment_supported.wf()
        &&& self.app_requested.wf()
        &&& self.app_effective.wf()
        &&& layers_consistent(self@)
    }

    /// A well-formed value has consistent layers.
    pub proof fn lemma_layers(&self)
        requires
            self.well_formed(),
        ensures
            layers_consistent(self@),
    {
    }

    /// Selects a deployment, and the application in it, from a comma-separated
    /// list of capability names.
    pub fn from_csv(value: &str) -> (r: Result<FeatureSet, FeatureError>)
        ensures
            match r {
                Ok(fs) => {
                    &&& all_tokens_known(csv_tokens(value@))
                    &&& fs.well_formed()
                    &&& fs@.implemented == every_feature()
                    &&& fs@.app_requested == named_features(csv_tokens(value@))
                    &&& fs@.deployment_supported == closure(fs@.app_requested)
                    &&& fs@.app_effective == closure(fs@.app_requested)
                },
                Err(FeatureError::Unknown(raw)) => exists|j: int|
                    first_unknown_token(csv_tokens(value@), j) && raw@ == csv_tokens(value@)[j],
                Err(_) => false,
            },
    {
        let implemented = FeatureFlags::every();
        let app_requested = match parse_csv(value) {
            Ok(flags) => flags,
            Err(e) => {
                return Err(e);
            },
        };
        let ghost req = app_requested.set();
        proof {
            lemma_closure_is_least(req, every_feature());
            lemma_closure_is_least(req, closure(req));
        }
        let deployment_supported = match resolve(app_requested.duplicate(), &implemented) {
            Ok(flags) => flags,
            Err(e) => {
                return Err(e);
            },
        };
        let app_effective = match resolve(app_requested.duplicate(), &deployment_supported) {
            Ok(flags) => flags,
            Err(e) => {
                return Err(e);
            },
        };
        Ok(FeatureSet { implemented, deployment_supported, app_requested, app_effective })
    }

    /// Selects an application's capabilities inside this deployment from a
    /// comma-separated list of capability names.
    pub fn for_app_csv(&self, value: &str) -> (r: Result<FeatureSet, FeatureError>)
        ensures
            match r {
                Ok(fs) => {
                    &&& all_tokens_known(csv_tokens(value@))
                    &&& named_features(csv_tokens(value@)).subset_of(
                        self@.deployment_supported,
                    )
                    &&& fs.well_formed()
                    &&& fs@.implemented == self@.implemented
                    &&& fs@.deployment_supported == self@.deployment_supported
                    &&& fs@.app_requested == named_features(csv_tokens(value@))
                    &&& fs@.app_effective == closure(fs@.app_requested)
                },
                Err(FeatureError::Unknown(raw)) => exists|j: int|
                    first_unknown_token(csv_tokens(value@), j) && raw@ == csv_tokens(value@)[j],
                Err(FeatureError::Unsupported(f)) => {
                    &&& all_tokens_known(csv_tokens(value@))
                    &&& first_unavailable(
                        named_features(csv_tokens(value@)),
                        self@.deployment_supported,
                        f,
                    )
                },
                Err(_) => false,
            },
    {
        proof {
            use_type_invariant(self);
        }
        let app_requested = match parse_csv(value) {
            Ok(flags) => flags,
            Err(e) => {
                return Err(e);
            },
        };
        let ghost req = app_requested.set();
        proof {
            lemma_closure_is_least(req, self.deployment_supported.set());
        }
        let app_effective = match resolve(app_requested.duplicate(), &self.deployment_supported) {
            Ok(flags) => flags,
            Err(e) => {
                return Err(e);
            },
        };
        Ok(
            FeatureSet {
                implemented: self.implemented.duplicate(),
                deployment_supported: self.deployment_supported.duplicate(),
                app_requested,
                app_effective,
            },
        )
    }

    /// The effective capabilities, in canonical order.
    pub fn enabled(&self) -> (r: Vec<Feature>)
        ensures
            lists_in_order(r@, self@.app_effective),
    {
        proof {
            use_type_invariant(self);
        }
        ordered(&self.app_effective)
    }

    /// The implemented capabilities, in canonical order.
    pub fn implemented(&self) -> (r: Vec<Feature>)
        ensures
            lists_in_order(r@, self@.implemented),
    {
        proof {
            use_type_invariant(self);
        }
        ordered(&self.implemented)
    }

    /// The deployment-supported capabilities, in canonical order.
    pub fn deployment_supported(&self) -> (r: Vec<Feature>)
        ensures
            lists_in_order(r@, self@.deployment_supported),
    {
        proof {
            use_type_invariant(self);
        }
        ordered(&self.deployment_supported)
    }

    /// The capabilities the application asked for, in canonical order.
    pub fn app_requested(&self) -> (r: Vec<Feature>)
        ensures
            lists_in_order(r@, self@.app_requested),
    {
        proof {
            use_type_invariant(self);
        }
        ordered(&self.app_requested)
    }

    /// The effective capabilities, in canonical order.
    pub fn effective(&self) -> (r: Vec<Feature>)
        ensures
            lists_in_order(r@, self@.app_effective),
    {
        proof {
            use_type_invariant(self);
        }
        ordered(&self.app_effective)
    }

    /// Whether a capability is effective for the application.
    pub fn is_enabled(&self, feature: Feature) -> (r: bool)
        ensures
            r == self@.app_effective.contains(feature),
    {
        proof {
            use_type_invariant(self);
        }
        self.app_effective.has(feature)
    }

    /// Refuses an operation whose capability is not effective.
    pub fn require(&self, feature: Feature) -> (r: Result<(), ApiError>)
        ensures
            r is Ok <==> self@.app_effective.contains(feature),
            r matches Err(e) ==> e == ApiError::FeatureDisabled(feature),
    {
        if self.is_enabled(feature) {
            Ok(())
        } else {
            Err(ApiError::FeatureDisabled(feature))
        }
    }
}

/// The capability layers as a response lists them; `enabled` repeats
/// `effective` for older clients.
#[derive(Debug, Clone)]
pub struct FeaturesResponse {
    pub enabled: Vec<Feature>,
    pub implemented: Vec<Feature>,
    pub deployment_supported: Vec<Feature>,
    pub app_requested: Vec<Feature>,
    pub effective: Vec<Feature>,
}

impl FeaturesResponse {
    /// Lists every layer in canonical order.
    pub fn from_features(features: &FeatureSet) -> (r: FeaturesResponse)
        ensures
            lists_in_order(r.enabled@, features@.app_effective),
            lists_in_order(r.implemented@, features@.implemented),
            lists_in_order(r.deployment_supported@, features@.deployment_supported),
            lists_in_order(r.app_requested@, features@.app_requested),
            lists_in_order(r.effective@, features@.app_effective),
            r.enabled@ == r.effective@,
    {
        let r = FeaturesResponse {
            enabled: features.enabled(),
            implemented: features.implemented(),
            deployment_supported: features.deployment_supported(),
            app_requested: features.app_requested(),
            effective: features.effective(),
        };
        proof {
            law_listing_is_unique(r.enabled@, r.effective@, features@.app_effective);
        }
        r
    }
}

/// A set has one listing in canonical order: two listings of the same set are equal.
pub proof fn law_listing_is_unique(r1: Seq<Feature>, r2: Seq<Feature>, s: Set<Feature>)
    requires
        lists_in_order(r1, s),
        lists_in_order(r2, s),
    ensures
        r1 == r2,
    decreases r1.len(),
{
    lemma_index_roundtrip();
    if r1.len() == 0 {
        if r2.len() > 0 {
            assert(r2.contains(r2[0]));
            assert(s.contains(r2[0]));
            assert(r1.contains(r2[0]));
        }
        assert(r1 =~= r2);
    } else {
        let l1 = r1.last();
        assert(r1.contains(l1));
        assert(s.contains(l1));
        assert(r2.contains(l1));
        let l2 = r2.last();
        assert(r2.contains(l2));
        assert(r1.contains(l2));
        let k1 = choose|k: int| 0 <= k < r1.len() && r1[k] == l2;
        let k2 = choose|k: int| 0 <= k < r2.len() && r2[k] == l1;
        if k1 < r1.len() - 1 {
            assert(feature_index(r1[k1]) < feature_index(r1[r1.len() - 1]));
        }
        if k2 < r2.len() - 1 {
            assert(feature_index(r2[k2]) < feature_index(r2[r2.len() - 1]));
        }
        assert(feature_index(l1) == feature_index(l2));
        assert(l1 == l2);
        let t = s.remove(l1);
        let d1 = r1.drop_last();
        let d2 = r2.drop_last();
        assert forall|f: Feature| #[trigger] d1.contains(f) <==> t.contains(f) by {
            if d1.contains(f) {
                let k = choose|k: int| 0 <= k < d1.len() && d1[k] == f;
                assert(r1[k] == f);
                assert(r1.contains(f));
                assert(feature_index(r1[k]) < feature_index(r1[r1.len() - 1]));
            }
            if t.contains(f) {
                assert(r1.contains(f));
                let k = choose|k: int| 0 <= k < r1.len() && r1[k] == f;
                assert(k != r1.len() - 1);
                assert(d1[k] == f);
            }
        }
        assert forall|f: Feature| #[trigger] d2.contains(f) <==> t.contains(f) by {
            if d2.contains(f) {
                let k = choose|k: int| 0 <= k < d2.len() && d2[k] == f;
                assert(r2[k] == f);
                assert(r2.contains(f));
                assert(feature_index(r2[k]) < feature_index(r2[r2.len() - 1]));
            }
            if t.contains(f) {
                assert(r2.contains(f));
                let k = choose|k: int| 0 <= k < r2.len() && r2[k] == f;
                assert(k != r2.len() - 1);
                assert(d2[k] == f);
            }
        }
        assert forall|i: int, j: int| 0 <= i < j < d1.len() implies feature_index(#[trigger] d1[i])
            < feature_index(#[trigger] d1[j]) by {
            assert(d1[i] == r1[i] && d1[j] == r1[j]);
        }
        assert forall|i: int, j: int| 0 <= i < j < d2.len() implies feature_index(#[trigger] d2[i])
            < feature_index(#[trigger] d2[j]) by {
            assert(d2[i] == r2[i] && d2[j] == r2[j]);
        }
        law_listing_is_unique(d1, d2, t);
        assert(r1 =~= d1.push(l1));
        assert(r2 =~= d2.push(l2));
    }
}

} // verus!
