//! Which creatures take a -1/-1 counter.

use vstd::prelude::*;

use crate::config::PolicyPenalties;
use crate::eval::STANDARD_VALUE_LIMIT;
use crate::features::DeckFeatures;
use crate::model;
use crate::model::{stat_or_zero, GameAction, GameState, ObjectId, PlayerId, WaitingFor};
use crate::score;
use crate::score::div_floor;
use crate::seqs;

use super::activation;
use super::activation::always;
use super::context::PolicyContext;
use super::registry;
use super::registry::{
    DecisionKind, PolicyId, PolicyReason, PolicyVerdict, Ruling, TacticalPolicy,
};
use super::strategy_helpers;
use super::strategy_helpers::sacrifice_cost;

verus! {

/// Puts -1/-1 counters where they cost least.
#[derive(Debug)]
pub struct BlightValuePolicy;

/// What a -1/-1 counter costs a permanent of the given value and toughness:
/// all of it where the counter kills, else one point of its toughness.
pub open spec fn counter_cost(value: int, toughness: int) -> int {
    if toughness <= 1 {
        value
    } else {
        value / toughness
    }
}

/// What a -1/-1 counter costs an object.
pub open spec fn cost_to_blight(
    state: GameState,
    penalties: PolicyPenalties,
) -> spec_fn(ObjectId) -> int {
    |id: ObjectId|
        match state.obj(id) {
            None => 0,
            Some(o) => counter_cost(
                strategy_helpers::cost_to_give_up(state, penalties)(id),
                model::stat(o.toughness),
            ),
        }
}

/// What the policy adds to a candidate: less the more the counters cost.
pub open spec fn blight_score(ctx: PolicyContext<'_>) -> int {
    match ctx.candidate.action {
        GameAction::SelectCards { cards } => if ctx.decision.waiting_for is BlightChoice {
            -seqs::sum(cards@, cost_to_blight(*ctx.state, ctx.config.policy_penalties))
        } else {
            0
        },
        _ => 0,
    }
}

/// A tougher creature of the same value never suffers more from a counter.
pub proof fn law_toughness_absorbs_counters(value: int, toughness: int, more: int)
    requires
        value >= 0,
        toughness <= more,
    ensures
        counter_cost(value, more) <= counter_cost(value, toughness),
{
    if more > 1 {
        assert(value / more <= value) by (nonlinear_arith)
            requires
                value >= 0,
                more > 1,
        ;
        if toughness > 1 {
            assert(value / more <= value / toughness) by (nonlinear_arith)
                requires
                    value >= 0,
                    1 < toughness <= more,
            ;
        }
    }
}

/// What a -1/-1 counter costs an object.
fn blight_cost(state: &GameState, obj_id: ObjectId, penalties: &PolicyPenalties) -> (r: i128)
    ensures
        r == cost_to_blight(*state, *penalties)(obj_id),
        -STANDARD_VALUE_LIMIT <= r <= STANDARD_VALUE_LIMIT,
{
    let obj = match state.object(obj_id) {
        Some(o) => o,
        None => return 0,
    };
    let base: i128 = sacrifice_cost(state, obj_id, penalties);
    let toughness: i32 = stat_or_zero(obj.toughness);
    if toughness <= 1 {
        return base;
    }
    proof {
        score::lemma_quotient_bound(base as int, toughness as int, STANDARD_VALUE_LIMIT as int);
    }
    div_floor(base, toughness as i128)
}

impl BlightValuePolicy {
    /// What the policy adds to a candidate: less the more the counters cost.
    pub fn score(&self, ctx: &PolicyContext<'_>) -> (r: i128)
        ensures
            r == blight_score(*ctx),
    {
        let cards = match &ctx.candidate.action {
            GameAction::SelectCards { cards } => cards,
            _ => return 0,
        };
        if !matches!(ctx.decision.waiting_for, WaitingFor::BlightChoice) {
            return 0;
        }
        let ghost f = cost_to_blight(*ctx.state, ctx.config.policy_penalties);
        let mut total: i128 = 0;
        let mut i: usize = 0;
        while i < cards.len()
            invariant
                f == cost_to_blight(*ctx.state, ctx.config.policy_penalties),
                i <= cards@.len(),
                -0x40_0000_0000_0000 * i <= total <= 0x40_0000_0000_0000 * i,
                total == seqs::sum(cards@.take(i as int), f),
            decreases cards@.len() - i,
        {
            proof {
                seqs::lemma_sum_step(cards@, i as int, f);
            }
            total += blight_cost(ctx.state, cards[i], ctx.penalties());
            i += 1;
        }
        assert(cards@.take(cards@.len() as int) =~= cards@);
        -total
    }
}

impl TacticalPolicy for BlightValuePolicy {
    open spec fn identity(&self) -> PolicyId {
        PolicyId::BlightValue
    }

    open spec fn kinds(&self) -> Seq<DecisionKind> {
        seq![DecisionKind::ActivateAbility]
    }

    open spec fn weight(&self, features: DeckFeatures, state: GameState) -> Option<int> {
        activation::constant()
    }

    open spec fn ruling(&self, ctx: PolicyContext<'_>) -> Ruling {
        registry::banded(
            blight_score(ctx),
            ctx.config.bands.critical_max as int,
            registry::because("blight_value_score"@),
        )
    }

    fn id(&self) -> PolicyId {
        PolicyId::BlightValue
    }

    fn decision_kinds(&self) -> Vec<DecisionKind> {
        vec![DecisionKind::ActivateAbility]
    }

    fn activation(
        &self,
        _features: &DeckFeatures,
        _state: &GameState,
        _player: PlayerId,
    ) -> Option<i128> {
        always()
    }

    fn verdict(&self, ctx: &PolicyContext<'_>) -> PolicyVerdict {
        PolicyVerdict::score(
            self.score(ctx),
            &ctx.config.bands,
            PolicyReason::new("blight_value_score"),
        )
    }
}

/// A counter costs nothing less than the whole permanent where it kills, that
/// is with a toughness of one or less, and otherwise its value spread over its
/// toughness, rounded down.
pub proof fn law_counter_costs_a_point_of_toughness(value: int, toughness: int)
    ensures
        toughness <= 1 ==> counter_cost(value, toughness) == value,
        toughness > 1 ==> toughness * counter_cost(value, toughness) <= value < toughness * (
        counter_cost(value, toughness) + 1),
{
    if toughness > 1 {
        let q = value / toughness;
        assert(toughness * q <= value < toughness * (q + 1)) by (nonlinear_arith)
            requires
                q == value / toughness,
                toughness > 1,
        ;
    }
}

/// What a counter costs an object is the part of the cost of giving it up that
/// one point of its toughness is; what is no object costs nothing.
pub proof fn law_blight_is_part_of_the_sacrifice(
    state: GameState,
    penalties: PolicyPenalties,
    id: ObjectId,
)
    ensures
        ({
            let cost = cost_to_blight(state, penalties)(id);
            let whole = strategy_helpers::cost_to_give_up(state, penalties)(id);
            match state.obj(id) {
                Some(o) => match o.toughness {
                    Some(t) => {
                        &&& t > 1 ==> t * cost <= whole < t * (cost + 1)
                        &&& t <= 1 ==> cost == whole
                    },
                    None => cost == whole,
                },
                None => cost == 0,
            }
        }),
{
    if let Some(o) = state.obj(id) {
        law_counter_costs_a_point_of_toughness(
            strategy_helpers::cost_to_give_up(state, penalties)(id),
            model::stat(o.toughness),
        );
    }
}

/// Each card more that a choice of counters takes lowers its score by what the
/// counter costs it; choosing none costs nothing, and only such a choice is
/// judged.
pub proof fn law_each_counter_lowers_the_score(
    ctx: PolicyContext<'_>,
    more: PolicyContext<'_>,
    cards: Vec<ObjectId>,
    longer: Vec<ObjectId>,
    id: ObjectId,
)
    requires
        ctx.decision.waiting_for is BlightChoice,
        more.decision.waiting_for is BlightChoice,
        more.state == ctx.state,
        more.config == ctx.config,
        ctx.candidate.action == (GameAction::SelectCards { cards }),
        more.candidate.action == (GameAction::SelectCards { cards: longer }),
        longer@ == cards@.push(id),
    ensures
        blight_score(more) == blight_score(ctx) - cost_to_blight(
            *ctx.state,
            ctx.config.policy_penalties,
        )(id),
        cards@.len() == 0 ==> blight_score(ctx) == 0,
{
    seqs::lemma_sum_push(
        cards@,
        id,
        cost_to_blight(*ctx.state, ctx.config.policy_penalties),
    );
}

/// No other decision and no other action is judged.
pub proof fn law_only_blight_choices_are_judged(ctx: PolicyContext<'_>)
    ensures
        !(ctx.decision.waiting_for is BlightChoice) || !(ctx.candidate.action is SelectCards)
            ==> BlightValuePolicy.ruling(ctx).worth() == Some(0int),
        BlightValuePolicy.ruling(ctx).worth() matches Some(d) && -ctx.config.bands.critical_max <= d
            <= ctx.config.bands.critical_max,
{
}

/// The policy says its score, within the critical band.
pub proof fn law_blight_score_is_kept_in_band(ctx: PolicyContext<'_>)
    ensures
        ({
            let most = ctx.config.bands.critical_max as int;
            let all = blight_score(ctx);
            let worth = BlightValuePolicy.ruling(ctx).worth();
            &&& -most <= all <= most ==> worth == Some(all)
            &&& all > most ==> worth == Some(most)
            &&& all < -most ==> worth == Some(-most)
        }),
{
}

} // verus!
