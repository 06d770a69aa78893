//! Verdicts, their reasons and bands, and the list of policies.

use vstd::prelude::*;

use crate::config::ScoreBands;
use crate::eval;
use crate::features::DeckFeatures;
use crate::model::{GameState, PlayerId};
use crate::score;
use crate::score::clamp_score;

use super::context::PolicyContext;

verus! {

/// A policy.
#[derive(Debug, Clone, Copy, PartialEq, Eq, Structural)]
pub enum PolicyId {
    AnthemPriority,
    BlightValue,
    CombatTaxPayment,
    ComboLineProgress,
    ConditionGatedActivation,
    ControlChangeAwareness,
    CyclingDiscipline,
    EffectTiming,
    EvasionRemovalPriority,
    FetchLandPatience,
    HandDisruption,
    HoldManaUpForInteraction,
    LandSequencing,
    LethalityAwareness,
    LifeTotalResource,
    LoopShortcut,
    PlusOneCountersTactical,
    RampTiming,
    RecursionAwareness,
    SacrificeLandProtection,
    SacrificeValue,
    SeparatePilesTiming,
    SpellskitePriority,
}

/// A kind of decision that policies are asked about.
#[derive(Debug, Clone, Copy, PartialEq, Eq, Structural)]
pub enum DecisionKind {
    PlayLand,
    CastSpell,
    ActivateAbility,
    ActivateManaAbility,
    SelectTarget,
    DeclareAttackers,
    DeclareBlockers,
}

/// Why a policy judged as it did: a kind, and the numbers that mattered.
#[derive(Debug)]
pub struct PolicyReason {
    pub kind: &'static str,
    pub facts: Vec<(&'static str, i64)>,
}

/// A reason as a value.
pub struct Reason {
    pub kind: Seq<char>,
    pub facts: Seq<(Seq<char>, int)>,
}

/// A reason without facts.
pub open spec fn because(kind: Seq<char>) -> Reason {
    Reason { kind, facts: Seq::empty() }
}

impl Reason {
    /// The reason with one more fact.
    pub open spec fn fact(self, name: Seq<char>, value: int) -> Reason {
        Reason { facts: self.facts.push((name, value)), ..self }
    }
}

impl View for PolicyReason {
    type V = Reason;

    open spec fn view(&self) -> Reason {
        Reason {
            kind: self.kind@,
            facts: self.facts@.map_values(|f: (&'static str, i64)| (f.0@, f.1 as int)),
        }
    }
}

impl PolicyReason {
    /// A reason without facts.
    pub fn new(kind: &'static str) -> (r: Self)
        ensures
            r@ == because(kind@),
    {
        let r = PolicyReason { kind, facts: Vec::new() };
        assert(r@.facts =~= Seq::empty());
        r
    }

    /// The reason with one more fact.
    pub fn with_fact(self, name: &'static str, value: i64) -> (r: Self)
        ensures
            r@ == self@.fact(name@, value as int),
    {
        let mut facts = self.facts;
        facts.push((name, value));
        let r = PolicyReason { kind: self.kind, facts };
        assert(r@.facts =~= self@.facts.push((name@, value as int)));
        r
    }
}

/// What a policy says of a candidate: a score in millionths, or a veto.
#[derive(Debug)]
pub enum PolicyVerdict {
    Score { delta: i128, reason: PolicyReason },
    Reject { reason: PolicyReason },
}

/// A verdict as a value.
pub enum Ruling {
    Score { delta: int, reason: Reason },
    Reject { reason: Reason },
}

impl Ruling {
    /// The score of a ruling, `None` for a veto.
    pub open spec fn worth(self) -> Option<int> {
        match self {
            Ruling::Score { delta, .. } => Some(delta),
            Ruling::Reject { .. } => None,
        }
    }

    /// Whether a ruling speaks for the candidate.
    pub open spec fn rewards(self) -> bool {
        self.worth() matches Some(d) && d > 0
    }

    /// Whether a ruling speaks against the candidate, short of a veto.
    pub open spec fn discourages(self) -> bool {
        self.worth() matches Some(d) && d < 0
    }

    /// The numbers that a ruling gives with its reason.
    pub open spec fn facts(self) -> Seq<(Seq<char>, int)> {
        match self {
            Ruling::Score { reason, .. } => reason.facts,
            Ruling::Reject { reason } => reason.facts,
        }
    }

    /// The kind of reason that a ruling gives.
    pub open spec fn kind(self) -> Seq<char> {
        match self {
            Ruling::Score { reason, .. } => reason.kind,
            Ruling::Reject { reason } => reason.kind,
        }
    }
}

/// A score.
pub open spec fn scores(delta: int, reason: Reason) -> Ruling {
    Ruling::Score { delta, reason }
}

/// A score of nothing.
pub open spec fn neutrally(reason: Reason) -> Ruling {
    Ruling::Score { delta: 0, reason }
}

/// A veto.
pub open spec fn rejects(reason: Reason) -> Ruling {
    Ruling::Reject { reason }
}

/// A score that is kept within a band.
pub open spec fn banded(delta: int, max: int, reason: Reason) -> Ruling {
    Ruling::Score { delta: score::clamped(delta, -max, max), reason }
}

impl View for PolicyVerdict {
    type V = Ruling;

    open spec fn view(&self) -> Ruling {
        match self {
            PolicyVerdict::Score { delta, reason } => Ruling::Score {
                delta: *delta as int,
                reason: reason@,
            },
            PolicyVerdict::Reject { reason } => Ruling::Reject { reason: reason@ },
        }
    }
}

impl PolicyVerdict {
    /// A score of nothing.
    pub fn neutral(reason: PolicyReason) -> (r: Self)
        ensures
            r@ == neutrally(reason@),
    {
        PolicyVerdict::Score { delta: 0, reason }
    }

    /// A veto.
    pub fn reject(reason: PolicyReason) -> (r: Self)
        ensures
            r@ == rejects(reason@),
    {
        PolicyVerdict::Reject { reason }
    }

    /// A score in the nudge band.
    pub fn nudge(delta: i128, bands: &ScoreBands, reason: PolicyReason) -> (r: Self)
        ensures
            r@ == banded(delta as int, bands.nudge_max as int, reason@),
    {
        PolicyVerdict::Score {
            delta: clamp_score(delta, -(bands.nudge_max as i128), bands.nudge_max as i128),
            reason,
        }
    }

    /// A score in the preference band.
    pub fn preference(delta: i128, bands: &ScoreBands, reason: PolicyReason) -> (r: Self)
        ensures
            r@ == banded(delta as int, bands.preference_max as int, reason@),
    {
        PolicyVerdict::Score {
            delta: clamp_score(
                delta,
                -(bands.preference_max as i128),
                bands.preference_max as i128,
            ),
            reason,
        }
    }

    /// A score in the strong band.
    pub fn strong(delta: i128, bands: &ScoreBands, reason: PolicyReason) -> (r: Self)
        ensures
            r@ == banded(delta as int, bands.strong_max as int, reason@),
    {
        PolicyVerdict::Score {
            delta: clamp_score(delta, -(bands.strong_max as i128), bands.strong_max as i128),
            reason,
        }
    }

    /// A score in the critical band.
    pub fn critical(delta: i128, bands: &ScoreBands, reason: PolicyReason) -> (r: Self)
        ensures
            r@ == banded(delta as int, bands.critical_max as int, reason@),
    {
        PolicyVerdict::Score {
            delta: clamp_score(delta, -(bands.critical_max as i128), bands.critical_max as i128),
            reason,
        }
    }

    /// A score in whichever band its magnitude falls, the critical one at most.
    pub fn score(delta: i128, bands: &ScoreBands, reason: PolicyReason) -> (r: Self)
        ensures
            r@ == banded(delta as int, bands.critical_max as int, reason@),
    {
        PolicyVerdict::critical(delta, bands, reason)
    }
}

/// A banded score never leaves its band, and is unchanged within it.
pub proof fn law_banded_scores_stay_in_band(delta: int, max: int, reason: Reason)
    requires
        max >= 0,
    ensures
        banded(delta, max, reason) matches Ruling::Score { delta: d, reason: r } && -max <= d
            <= max && r == reason && (-max <= delta <= max ==> d == delta),
{
}

/// A policy: which decisions it is asked about, how much its word counts, and
/// what it says of a candidate.
pub trait TacticalPolicy {
    /// The name of the policy.
    spec fn identity(&self) -> PolicyId;

    /// The decisions that it is asked about.
    spec fn kinds(&self) -> Seq<DecisionKind>;

    /// How much its word counts, in millionths; `None` where it is not asked.
    spec fn weight(&self, features: DeckFeatures, state: GameState) -> Option<int>;

    /// What it says of a candidate.
    spec fn ruling(&self, ctx: PolicyContext<'_>) -> Ruling;

    /// The name of the policy.
    fn id(&self) -> (r: PolicyId)
        ensures
            r == self.identity(),
    ;

    /// The decisions that it is asked about.
    fn decision_kinds(&self) -> (r: Vec<DecisionKind>)
        ensures
            r@ == self.kinds(),
    ;

    /// How much its word counts, in millionths; `None` where it is not asked.
    fn activation(
        &self,
        features: &DeckFeatures,
        state: &GameState,
        player: PlayerId,
    ) -> (r: Option<i128>)
        ensures
            eval::int_opt(r) == self.weight(*features, *state),
    ;

    /// What it says of a candidate.
    fn verdict(&self, ctx: &PolicyContext<'_>) -> (r: PolicyVerdict)
        requires
            ctx.valid(),
        ensures
            r@ == self.ruling(*ctx),
    ;
}

/// Every policy.
pub open spec fn all_policies() -> Seq<PolicyId> {
    seq![
        PolicyId::AnthemPriority,
        PolicyId::BlightValue,
        PolicyId::CombatTaxPayment,
        PolicyId::ComboLineProgress,
        PolicyId::ConditionGatedActivation,
        PolicyId::ControlChangeAwareness,
        PolicyId::CyclingDiscipline,
        PolicyId::EffectTiming,
        PolicyId::EvasionRemovalPriority,
        PolicyId::FetchLandPatience,
        PolicyId::HandDisruption,
        PolicyId::HoldManaUpForInteraction,
        PolicyId::LandSequencing,
        PolicyId::LethalityAwareness,
        PolicyId::LifeTotalResource,
        PolicyId::LoopShortcut,
        PolicyId::PlusOneCountersTactical,
        PolicyId::RampTiming,
        PolicyId::RecursionAwareness,
        PolicyId::SacrificeLandProtection,
        PolicyId::SacrificeValue,
        PolicyId::SeparatePilesTiming,
        PolicyId::SpellskitePriority,
    ]
}

/// The policies that are asked.
#[derive(Debug)]
pub struct PolicyRegistry {
    pub policies: Vec<PolicyId>,
}

impl Default for PolicyRegistry {
    fn default() -> (r: Self)
        ensures
            r.policies@ == all_policies(),
    {
        let policies = vec![
            PolicyId::AnthemPriority,
            PolicyId::BlightValue,
            PolicyId::CombatTaxPayment,
            PolicyId::ComboLineProgress,
            PolicyId::ConditionGatedActivation,
            PolicyId::ControlChangeAwareness,
            PolicyId::CyclingDiscipline,
            PolicyId::EffectTiming,
            PolicyId::EvasionRemovalPriority,
            PolicyId::FetchLandPatience,
            PolicyId::HandDisruption,
            PolicyId::HoldManaUpForInteraction,
            PolicyId::LandSequencing,
            PolicyId::LethalityAwareness,
            PolicyId::LifeTotalResource,
            PolicyId::LoopShortcut,
            PolicyId::PlusOneCountersTactical,
            PolicyId::RampTiming,
            PolicyId::RecursionAwareness,
            PolicyId::SacrificeLandProtection,
            PolicyId::SacrificeValue,
            PolicyId::SeparatePilesTiming,
            PolicyId::SpellskitePriority,
        ];
        assert(policies@ =~= all_policies());
        PolicyRegistry { policies }
    }
}

impl PolicyRegistry {
    /// Whether a policy is asked.
    pub fn has_policy(&self, id: PolicyId) -> (r: bool)
        ensures
            r == self.policies@.contains(id),
    {
        let mut i: usize = 0;
        while i < self.policies.len()
            invariant
                i <= self.policies@.len(),
                forall|j: int| 0 <= j < i ==> self.policies@[j] != id,
            decreases self.policies@.len() - i,
        {
            if self.policies[i] == id {
                return true;
            }
            i += 1;
        }
        false
    }
}

/// Every policy is asked unless a registry says otherwise.
pub proof fn law_every_policy_is_registered(id: PolicyId)
    ensures
        all_policies().contains(id),
{
    let all = all_policies();
    match id {
        PolicyId::AnthemPriority => assert(all[0] == id),
        PolicyId::BlightValue => assert(all[1] == id),
        PolicyId::CombatTaxPayment => assert(all[2] == id),
        PolicyId::ComboLineProgress => assert(all[3] == id),
        PolicyId::ConditionGatedActivation => assert(all[4] == id),
        PolicyId::ControlChangeAwareness => assert(all[5] == id),
        PolicyId::CyclingDiscipline => assert(all[6] == id),
        PolicyId::EffectTiming => assert(all[7] == id),
        PolicyId::EvasionRemovalPriority => assert(all[8] == id),
        PolicyId::FetchLandPatience => assert(all[9] == id),
        PolicyId::HandDisruption => assert(all[10] == id),
        PolicyId::HoldManaUpForInteraction => assert(all[11] == id),
        PolicyId::LandSequencing => assert(all[12] == id),
        PolicyId::LethalityAwareness => assert(all[13] == id),
        PolicyId::LifeTotalResource => assert(all[14] == id),
        PolicyId::LoopShortcut => assert(all[15] == id),
        PolicyId::PlusOneCountersTactical => assert(all[16] == id),
        PolicyId::RampTiming => assert(all[17] == id),
        PolicyId::RecursionAwareness => assert(all[18] == id),
        PolicyId::SacrificeLandProtection => assert(all[19] == id),
        PolicyId::SacrificeValue => assert(all[20] == id),
        PolicyId::SeparatePilesTiming => assert(all[21] == id),
        PolicyId::SpellskitePriority => assert(all[22] == id),
    }
}

/// A score is worth its number, a neutral verdict nothing, a veto has no
/// worth, and each gives the reason it was made with.
pub proof fn law_verdicts_are_worth_their_score(delta: int, max: int, reason: Reason)
    requires
        max >= 0,
    ensures
        scores(delta, reason).worth() == Some(delta),
        neutrally(reason).worth() == Some(0int),
        rejects(reason).worth() is None,
        delta >= max ==> banded(delta, max, reason).worth() == Some(max),
        delta <= -max ==> banded(delta, max, reason).worth() == Some(-max),
        -max <= delta <= max ==> banded(delta, max, reason).worth() == Some(delta),
        scores(delta, reason).kind() == reason.kind,
        neutrally(reason).kind() == reason.kind,
        rejects(reason).kind() == reason.kind,
        banded(delta, max, reason).kind() == reason.kind,
{
}

/// A fact is added behind those that a reason has, and its kind stays.
pub proof fn law_facts_are_kept_in_order(reason: Reason, name: Seq<char>, value: int)
    ensures
        reason.fact(name, value).kind == reason.kind,
        reason.fact(name, value).facts.len() == reason.facts.len() + 1,
        reason.fact(name, value).facts.last() == (name, value),
        reason.fact(name, value).facts.drop_last() == reason.facts,
{
    assert(reason.fact(name, value).facts.drop_last() =~= reason.facts);
}

/// What the kinds of verdict return: nothing, a veto, or a score within the
/// band that the kind is named after; a score without a kind is within the
/// critical band. The reason is kept.
pub proof fn law_verdicts_return_banded_scores(
    delta: i128,
    bands: &ScoreBands,
    reason: PolicyReason,
    neutral: PolicyVerdict,
    veto: PolicyVerdict,
    nudge: PolicyVerdict,
    preference: PolicyVerdict,
    strong: PolicyVerdict,
    critical: PolicyVerdict,
    free: PolicyVerdict,
)
    requires
        call_ensures(PolicyVerdict::neutral, (reason,), neutral),
        call_ensures(PolicyVerdict::reject, (reason,), veto),
        call_ensures(PolicyVerdict::nudge, (delta, bands, reason), nudge),
        call_ensures(PolicyVerdict::preference, (delta, bands, reason), preference),
        call_ensures(PolicyVerdict::strong, (delta, bands, reason), strong),
        call_ensures(PolicyVerdict::critical, (delta, bands, reason), critical),
        call_ensures(PolicyVerdict::score, (delta, bands, reason), free),
    ensures
        neutral@.worth() == Some(0int),
        veto@.worth() is None,
        -bands.nudge_max <= delta <= bands.nudge_max ==> nudge@.worth() == Some(delta as int),
        delta > bands.nudge_max ==> nudge@.worth() == Some(bands.nudge_max as int),
        delta < -bands.nudge_max ==> nudge@.worth() == Some(-(bands.nudge_max as int)),
        -bands.preference_max <= delta <= bands.preference_max ==> preference@.worth() == Some(
            delta as int,
        ),
        delta > bands.preference_max ==> preference@.worth() == Some(bands.preference_max as int),
        delta < -bands.preference_max ==> preference@.worth() == Some(
            -(bands.preference_max as int),
        ),
        -bands.strong_max <= delta <= bands.strong_max ==> strong@.worth() == Some(delta as int),
        delta > bands.strong_max ==> strong@.worth() == Some(bands.strong_max as int),
        delta < -bands.strong_max ==> strong@.worth() == Some(-(bands.strong_max as int)),
        -bands.critical_max <= delta <= bands.critical_max ==> critical@.worth() == Some(
            delta as int,
        ),
        delta > bands.critical_max ==> critical@.worth() == Some(bands.critical_max as int),
        delta < -bands.critical_max ==> critical@.worth() == Some(-(bands.critical_max as int)),
        free@.worth() == critical@.worth(),
        neutral@.kind() == reason@.kind && veto@.kind() == reason@.kind && nudge@.kind()
            == reason@.kind && preference@.kind() == reason@.kind && strong@.kind() == reason@.kind
            && critical@.kind() == reason@.kind && free@.kind() == reason@.kind,
{
}

/// A verdict stands for itself: a score for its number, a veto for a veto, each
/// with its reason; and a reason for its kind and its facts.
pub proof fn law_verdicts_stand_for_themselves(
    delta: i128,
    reason: PolicyReason,
    kind: &'static str,
    fresh: PolicyReason,
    name: &'static str,
    value: i64,
    longer: PolicyReason,
)
    requires
        call_ensures(PolicyReason::new, (kind,), fresh),
        call_ensures(PolicyReason::with_fact, (reason, name, value), longer),
    ensures
        (PolicyVerdict::Score { delta, reason })@.worth() == Some(delta as int),
        (PolicyVerdict::Reject { reason })@.worth() is None,
        (PolicyVerdict::Score { delta, reason })@.kind() == reason.kind@,
        (PolicyVerdict::Reject { reason })@.kind() == reason.kind@,
        fresh@.kind == kind@,
        fresh@.facts.len() == 0,
        longer@.kind == reason@.kind,
        longer@.facts == reason@.facts.push((name@, value as int)),
{
}

/// A registry asks a policy exactly where it lists it, and the default one asks
/// all of them.
pub proof fn law_registry_asks_what_it_lists(
    registry: &PolicyRegistry,
    all: PolicyRegistry,
    id: PolicyId,
    r: bool,
    s: bool,
)
    requires
        call_ensures(PolicyRegistry::has_policy, (registry, id), r),
        call_ensures(PolicyRegistry::default, (), all),
        call_ensures(PolicyRegistry::has_policy, (&all, id), s),
    ensures
        r <==> exists|i: int|
            0 <= i < registry.policies@.len() && #[trigger] registry.policies@[i] == id,
        s,
        all.policies@.len() == 23,
{
    law_every_policy_is_registered(id);
}

} // verus!
