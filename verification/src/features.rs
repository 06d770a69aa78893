//! What is known of a seat's deck and plan.

use vstd::prelude::*;

use crate::model::PlayerId;
use crate::projection::Projection;

verus! {

/// The power bracket of a commander deck.
#[derive(Debug, Clone, Copy, PartialEq, Eq, Structural)]
pub enum CommanderBracketTier {
    Exhibition,
    Core,
    Upgraded,
    Optimized,
    Cedh,
}

/// The strategy of a deck.
#[derive(Debug, Clone, Copy, PartialEq, Eq, Structural)]
pub enum DeckArchetype {
    Aggro,
    Control,
    Midrange,
    Ramp,
    Combo,
}

/// How far a deck goes wide with tokens.
#[derive(Debug, Clone, Copy, PartialEq, Eq, Structural)]
pub struct TokensWideFeature {
    pub commitment: i64,
}

/// How far a deck is built around +1/+1 counters.
#[derive(Debug)]
pub struct PlusOneCountersFeature {
    pub commitment: i64,
    /// Below this commitment the deck does not count as such a deck.
    pub commitment_floor: i64,
    /// From this commitment on its payoffs are worth holding out for.
    pub committed_value_floor: i64,
    /// The names of its payoffs.
    pub payoff_names: Vec<String>,
}

/// How far a deck accelerates its mana.
#[derive(Debug, Clone, Copy, PartialEq, Eq, Structural)]
pub struct ManaRampFeature {
    pub commitment: i64,
}

/// How far a deck attacks from the first turn.
#[derive(Debug, Clone, Copy, PartialEq, Eq, Structural)]
pub struct AggroPressureFeature {
    pub commitment: i64,
}

/// How far a deck answers what others do.
#[derive(Debug, Clone, Copy, PartialEq, Eq, Structural)]
pub struct ControlFeature {
    pub commitment: i64,
    /// How much of its interaction works at instant speed.
    pub reactive_tempo: i64,
    /// Below this tempo there is nothing to hold mana up for.
    pub reactive_tempo_floor: i64,
}

/// What is known of a deck. Commitments are in millionths.
#[derive(Debug)]
pub struct DeckFeatures {
    pub tokens_wide: TokensWideFeature,
    pub plus_one_counters: PlusOneCountersFeature,
    pub mana_ramp: ManaRampFeature,
    pub aggro_pressure: AggroPressureFeature,
    pub control: ControlFeature,
    pub bracket_tier: CommanderBracketTier,
    pub archetype: DeckArchetype,
    /// How much tactical advice counts at this stage of the game, in
    /// millionths.
    pub turn_multiplier: i64,
}

/// How many lands a deck wants to have on each of the first turns.
#[derive(Debug, Clone, Copy)]
pub struct PlanSnapshot {
    pub expected_lands: [u8; 15],
}

/// The features of one seat's deck.
#[derive(Debug)]
pub struct SeatFeatures {
    pub player: PlayerId,
    pub features: DeckFeatures,
}

/// The plan of one seat.
#[derive(Debug, Clone, Copy)]
pub struct SeatPlan {
    pub player: PlayerId,
    pub plan: PlanSnapshot,
}

/// What the AI has worked out so far.
#[derive(Debug)]
pub struct AiSession {
    pub features: Vec<SeatFeatures>,
    pub plan: Vec<SeatPlan>,
    /// Simulations of this position that are already made.
    pub projections: Vec<Projection>,
}

/// The features listed for a seat.
pub open spec fn find_features(list: Seq<SeatFeatures>, p: PlayerId) -> Option<DeckFeatures>
    decreases list.len(),
{
    if list.len() == 0 {
        None
    } else if list[0].player == p {
        Some(list[0].features)
    } else {
        find_features(list.drop_first(), p)
    }
}

/// The plan listed for a seat.
pub open spec fn find_plan(list: Seq<SeatPlan>, p: PlayerId) -> Option<PlanSnapshot>
    decreases list.len(),
{
    if list.len() == 0 {
        None
    } else if list[0].player == p {
        Some(list[0].plan)
    } else {
        find_plan(list.drop_first(), p)
    }
}

impl AiSession {
    /// The features of a seat's deck, `None` for a seat that was not analysed.
    pub open spec fn deck(self, p: PlayerId) -> Option<DeckFeatures> {
        find_features(self.features@, p)
    }

    /// The features of a seat's deck.
    pub fn features_of(&self, p: PlayerId) -> (r: Option<&DeckFeatures>)
        ensures
            match r {
                Some(f) => self.deck(p) == Some(*f),
                None => self.deck(p) is None,
            },
    {
        let mut i: usize = 0;
        assert(self.features@.skip(0) =~= self.features@);
        while i < self.features.len()
            invariant
                i <= self.features@.len(),
                find_features(self.features@.skip(i as int), p) == self.deck(p),
            decreases self.features@.len() - i,
        {
            assert(self.features@.skip(i as int).drop_first() =~= self.features@.skip(i + 1));
            if self.features[i].player == p {
                return Some(&self.features[i].features);
            }
            i += 1;
        }
        None
    }

    /// The plan of a seat.
    pub fn plan_of(&self, p: PlayerId) -> (r: Option<PlanSnapshot>)
        ensures
            r == find_plan(self.plan@, p),
    {
        let mut i: usize = 0;
        assert(self.plan@.skip(0) =~= self.plan@);
        while i < self.plan.len()
            invariant
                i <= self.plan@.len(),
                find_plan(self.plan@.skip(i as int), p) == find_plan(self.plan@, p),
            decreases self.plan@.len() - i,
        {
            assert(self.plan@.skip(i as int).drop_first() =~= self.plan@.skip(i + 1));
            if self.plan[i].player == p {
                return Some(self.plan[i].plan);
            }
            i += 1;
        }
        None
    }
}

/// What is found for a seat is what is listed for it, and nothing only where
/// the seat is not listed.
pub proof fn law_seat_lookups(features: Seq<SeatFeatures>, plans: Seq<SeatPlan>, p: PlayerId)
    ensures
        match find_features(features, p) {
            Some(f) => exists|i: int|
                0 <= i < features.len() && (#[trigger] features[i]).player == p
                    && features[i].features == f,
            None => forall|i: int|
                0 <= i < features.len() ==> (#[trigger] features[i]).player != p,
        },
        match find_plan(plans, p) {
            Some(f) => exists|i: int|
                0 <= i < plans.len() && (#[trigger] plans[i]).player == p && plans[i].plan == f,
            None => forall|i: int| 0 <= i < plans.len() ==> (#[trigger] plans[i]).player != p,
        },
    decreases features.len() + plans.len(),
{
    if features.len() > 0 {
        if features[0].player != p {
            let rest = features.drop_first();
            law_seat_lookups(rest, plans, p);
            match find_features(rest, p) {
                Some(f) => {
                    let k = choose|k: int|
                        0 <= k < rest.len() && (#[trigger] rest[k]).player == p && rest[k].features
                            == f;
                    assert(features[k + 1] == rest[k]);
                },
                None => {
                    assert forall|i: int| 0 <= i < features.len() implies (
                    #[trigger] features[i]).player != p by {
                        if i > 0 {
                            assert(rest[i - 1] == features[i]);
                        }
                    }
                },
            }
        } else {
            assert(features[0].features == features[0].features);
        }
    }
    if plans.len() > 0 {
        if plans[0].player != p {
            let rest = plans.drop_first();
            law_seat_lookups(features, rest, p);
            match find_plan(rest, p) {
                Some(f) => {
                    let k = choose|k: int|
                        0 <= k < rest.len() && (#[trigger] rest[k]).player == p && rest[k].plan
                            == f;
                    assert(plans[k + 1] == rest[k]);
                },
                None => {
                    assert forall|i: int| 0 <= i < plans.len() implies (
                    #[trigger] plans[i]).player != p by {
                        if i > 0 {
                            assert(rest[i - 1] == plans[i]);
                        }
                    }
                },
            }
        } else {
            assert(plans[0].plan == plans[0].plan);
        }
    }
}

/// What the lookups of a session return is what is listed for the seat.
pub proof fn law_session_lookups_return_the_listed(
    session: &AiSession,
    p: PlayerId,
    features: Option<&DeckFeatures>,
    plan: Option<PlanSnapshot>,
)
    requires
        call_ensures(AiSession::features_of, (session, p), features),
        call_ensures(AiSession::plan_of, (session, p), plan),
    ensures
        features matches Some(f) ==> find_features(session.features@, p) == Some(*f),
        features is None ==> find_features(session.features@, p) is None,
        plan == find_plan(session.plan@, p),
        session.deck(p) == find_features(session.features@, p),
{
}

} // verus!
