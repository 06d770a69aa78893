//! Which permanents are sacrificed.

use vstd::prelude::*;

use crate::config::PolicyPenalties;
use crate::features::DeckFeatures;
use crate::model::{
    contains_object, CostResume, EffectKind, FilterShape, GameAction, GameState, ObjectId,
    PayCostKind, PlayerId, QuantityExpr, ResolvedAbility, TargetFilter, WaitingFor,
};
use crate::seqs;

use super::activation;
use super::activation::always;
use super::context::PolicyContext;
use super::registry;
use super::registry::{
    DecisionKind, PolicyId, PolicyReason, PolicyVerdict, Ruling, TacticalPolicy,
};
use super::strategy_helpers;
use super::strategy_helpers::sacrifice_cost;

verus! {

/// What drawing one card is worth.
pub const SINGLE_CARD_VALUE: i128 = 1_000_000;

/// Sacrifices what costs least, and does not trade the only fitting permanent
/// for a single card.
#[derive(Debug)]
pub struct SacrificeValuePolicy;

/// Whether a decision is about what to sacrifice.
pub open spec fn chooses_sacrifice(waiting_for: WaitingFor) -> bool {
    match waiting_for {
        WaitingFor::PayCost { kind, resume } => kind == PayCostKind::Sacrifice && (resume
            == CostResume::Spell || resume == CostResume::SpellCost),
        WaitingFor::WardSacrificeChoice => true,
        WaitingFor::EffectZoneChoice { sacrifices } => sacrifices,
        _ => false,
    }
}

/// What the policy adds to a candidate: less the more the sacrifice costs.
pub open spec fn sacrifice_score(ctx: PolicyContext<'_>) -> int {
    match ctx.candidate.action {
        GameAction::SelectCards { cards } => if chooses_sacrifice(ctx.decision.waiting_for) {
            -seqs::sum(
                cards@,
                strategy_helpers::cost_to_give_up(*ctx.state, ctx.config.policy_penalties),
            )
        } else {
            0
        },
        _ => 0,
    }
}

/// Whether all that an ability does is to draw its controller one card.
pub open spec fn only_draws_one(ability: ResolvedAbility) -> bool {
    &&& (match ability.effect.kind {
        EffectKind::Draw { count, target } => count == (QuantityExpr::Fixed { value: 1 })
            && target.shape is Controller,
        _ => false,
    })
    &&& ability.sub_ability is None
    &&& plain(ability)
}

/// Whether an ability has no alternative, is not repeated, and is not done for
/// several players.
pub open spec fn plain(ability: ResolvedAbility) -> bool {
    !ability.has_else_ability && !ability.has_repeat_for && !ability.has_player_scope
}

/// What an ability that trades one sacrifice for one card may take, where it
/// does not name its own source.
pub open spec fn single_card_trade(ability: ResolvedAbility) -> Option<TargetFilter> {
    match ability.effect.kind {
        EffectKind::Sacrifice { target, count } => if count == (QuantityExpr::Fixed { value: 1 })
            && !(target.shape is SelfRef) && plain(ability) && (match ability.sub_ability {
            Some(sub) => only_draws_one(*sub),
            None => false,
        }) {
            Some(target)
        } else {
            None
        },
        _ => None,
    }
}

/// The permanents that a sacrifice may take from a player.
pub open spec fn eligible(
    state: GameState,
    controller: PlayerId,
    filter: TargetFilter,
) -> spec_fn(ObjectId) -> bool {
    |id: ObjectId|
        match state.obj(id) {
            Some(o) => o.controller == controller && !o.is_emblem
                && filter.matching_objects@.contains(id),
            None => false,
        }
}

/// What it would cost to accept an optional trade that can only take its own
/// source for a single card, where that is more than the card is worth.
pub open spec fn losing_trade(ctx: PolicyContext<'_>) -> Option<int> {
    match (ctx.candidate.action, ctx.decision.waiting_for, ctx.state.optional_effect) {
        (
            GameAction::DecideOptionalEffect { accept },
            WaitingFor::OptionalEffectChoice { source_id },
            Some(ability),
        ) => match single_card_trade(ability) {
            Some(filter) => {
                let fits = eligible(*ctx.state, ability.controller, filter);
                let cost = strategy_helpers::cost_to_give_up(
                    *ctx.state,
                    ctx.config.policy_penalties,
                )(source_id);
                if accept && ability.source_id == source_id && ability.controller
                    == ctx.ai_player && seqs::count(ctx.state.battlefield@, fits) == 1
                    && ctx.state.battlefield@.contains(source_id) && fits(source_id) && cost
                    > SINGLE_CARD_VALUE {
                    Some(cost)
                } else {
                    None
                }
            },
            None => None,
        },
        _ => None,
    }
}

/// What the policy says of a candidate. A seat that searches ahead finds out
/// for itself what a trade is worth.
pub open spec fn sacrifice_ruling(ctx: PolicyContext<'_>) -> Ruling {
    match losing_trade(ctx) {
        Some(cost) if !ctx.config.search.enabled => registry::rejects(
            registry::because("optional_sacrifice_only_source_for_single_card"@).fact(
                "cost_milli"@,
                cost / 1_000,
            ),
        ),
        _ => registry::banded(
            sacrifice_score(ctx),
            ctx.config.bands.critical_max as int,
            registry::because("sacrifice_value_score"@),
        ),
    }
}

/// No trade is vetoed for a seat that searches ahead.
pub proof fn law_search_may_take_any_trade(ctx: PolicyContext<'_>)
    requires
        ctx.config.search.enabled,
    ensures
        !(sacrifice_ruling(ctx) is Reject),
{
}

/// Giving up one more permanent that costs something is never preferred.
pub proof fn law_smaller_sacrifice_is_preferred(
    state: GameState,
    penalties: PolicyPenalties,
    cards: Seq<ObjectId>,
    extra: ObjectId,
)
    requires
        strategy_helpers::cost_to_give_up(state, penalties)(extra) >= 0,
    ensures
        -seqs::sum(cards.push(extra), strategy_helpers::cost_to_give_up(state, penalties))
            <= -seqs::sum(cards, strategy_helpers::cost_to_give_up(state, penalties)),
{
    assert(cards.push(extra).drop_last() =~= cards);
}

/// Whether an ability has no alternative, is not repeated, and is not done for
/// several players.
fn is_plain(ability: &ResolvedAbility) -> (r: bool)
    ensures
        r == plain(*ability),
{
    !ability.has_else_ability && !ability.has_repeat_for && !ability.has_player_scope
}

/// Whether a number is a plain one.
fn is_one(count: &QuantityExpr) -> (r: bool)
    ensures
        r == (*count == (QuantityExpr::Fixed { value: 1 })),
{
    match count {
        QuantityExpr::Fixed { value } => *value == 1,
        QuantityExpr::Dynamic => false,
    }
}

/// Whether all that an ability does is to draw its controller one card.
fn single_card_draw_is_only_payoff(ability: &ResolvedAbility) -> (r: bool)
    ensures
        r == only_draws_one(*ability),
{
    let draws: bool = match &ability.effect.kind {
        EffectKind::Draw { count, target } => is_one(count) && matches!(
            target.shape,
            FilterShape::Controller
        ),
        _ => false,
    };
    draws && ability.sub_ability.is_none() && is_plain(ability)
}

/// What an ability that trades one sacrifice for one card may take.
fn single_card_trade_filter<'b>(ability: &'b ResolvedAbility) -> (r: Option<&'b TargetFilter>)
    ensures
        crate::model::deref_opt(r) == single_card_trade(*ability),
{
    match &ability.effect.kind {
        EffectKind::Sacrifice { target, count } => {
            let draws: bool = match &ability.sub_ability {
                Some(sub) => single_card_draw_is_only_payoff(sub),
                None => false,
            };
            if is_one(count) && !matches!(target.shape, FilterShape::SelfRef) && is_plain(ability)
                && draws {
                Some(target)
            } else {
                None
            }
        },
        _ => None,
    }
}

/// Whether a permanent is the only one that a sacrifice may take.
fn is_only_eligible(
    state: &GameState,
    controller: PlayerId,
    filter: &TargetFilter,
    source_id: ObjectId,
) -> (r: bool)
    ensures
        r == (seqs::count(state.battlefield@, eligible(*state, controller, *filter)) == 1
            && state.battlefield@.contains(source_id) && eligible(*state, controller, *filter)(
            source_id,
        )),
{
    let ghost fits = eligible(*state, controller, *filter);
    let ghost b = state.battlefield@;
    let mut n: usize = 0;
    let mut found: bool = false;
    let mut i: usize = 0;
    while i < state.battlefield.len()
        invariant
            fits == eligible(*state, controller, *filter),
            b == state.battlefield@,
            i <= b.len(),
            n <= i,
            n == seqs::count(b.take(i as int), fits),
            found == (b.take(i as int).contains(source_id) && fits(source_id)),
        decreases b.len() - i,
    {
        proof {
            seqs::lemma_count_step(b, i as int, fits);
            assert(b.take(i + 1) =~= b.take(i as int).push(b[i as int]));
            assert(b.take(i + 1)[i as int] == b[i as int]);
            if b.take(i as int).contains(source_id) {
                let k = choose|k: int|
                    0 <= k < b.take(i as int).len() && b.take(i as int)[k] == source_id;
                assert(b.take(i + 1)[k] == source_id);
            }
        }
        let id: ObjectId = state.battlefield[i];
        if let Some(o) = state.object(id) {
            if o.controller == controller && !o.is_emblem && contains_object(
                &filter.matching_objects,
                id,
            ) {
                n += 1;
                if id == source_id {
                    found = true;
                }
            }
        }
        i += 1;
    }
    assert(b.take(b.len() as int) =~= b);
    n == 1 && found
}

impl SacrificeValuePolicy {
    /// What it would cost to accept an optional trade that can only take its
    /// own source for a single card, where that is more than the card is worth.
    fn optional_single_card_draw_sacrifices_only_source(ctx: &PolicyContext<'_>) -> (r: Option<
        i128,
    >)
        ensures
            crate::eval::int_opt(r) == losing_trade(*ctx),
            r matches Some(v) ==> SINGLE_CARD_VALUE < v
                <= crate::eval::STANDARD_VALUE_LIMIT,
    {
        let accept: bool = match &ctx.candidate.action {
            GameAction::DecideOptionalEffect { accept } => *accept,
            _ => return None,
        };
        let source_id: ObjectId = match &ctx.decision.waiting_for {
            WaitingFor::OptionalEffectChoice { source_id } => *source_id,
            _ => return None,
        };
        let ability = match &ctx.state.optional_effect {
            Some(a) => a,
            None => return None,
        };
        let filter = match single_card_trade_filter(ability) {
            Some(f) => f,
            None => return None,
        };
        if !accept || ability.source_id != source_id || ability.controller != ctx.ai_player
            || !is_only_eligible(ctx.state, ability.controller, filter, source_id) {
            return None;
        }
        let cost: i128 = sacrifice_cost(ctx.state, source_id, ctx.penalties());
        if cost > SINGLE_CARD_VALUE {
            Some(cost)
        } else {
            None
        }
    }

    /// What the policy adds to a candidate: less the more the sacrifice costs.
    pub fn score(&self, ctx: &PolicyContext<'_>) -> (r: i128)
        ensures
            r == sacrifice_score(*ctx),
    {
        let cards = match &ctx.candidate.action {
            GameAction::SelectCards { cards } => cards,
            _ => return 0,
        };
        let chooses: bool = match &ctx.decision.waiting_for {
            WaitingFor::PayCost { kind, resume } => *kind == PayCostKind::Sacrifice && (*resume
                == CostResume::Spell || *resume == CostResume::SpellCost),
            WaitingFor::WardSacrificeChoice => true,
            WaitingFor::EffectZoneChoice { sacrifices } => *sacrifices,
            _ => false,
        };
        if !chooses {
            return 0;
        }
        let ghost f = strategy_helpers::cost_to_give_up(*ctx.state, ctx.config.policy_penalties);
        let mut total: i128 = 0;
        let mut i: usize = 0;
        while i < cards.len()
            invariant
                f == strategy_helpers::cost_to_give_up(*ctx.state, ctx.config.policy_penalties),
                i <= cards@.len(),
                -0x40_0000_0000_0000 * i <= total <= 0x40_0000_0000_0000 * i,
                total == seqs::sum(cards@.take(i as int), f),
            decreases cards@.len() - i,
        {
            proof {
                seqs::lemma_sum_step(cards@, i as int, f);
            }
            total += sacrifice_cost(ctx.state, cards[i], ctx.penalties());
            i += 1;
        }
        assert(cards@.take(cards@.len() as int) =~= cards@);
        -total
    }
}

impl TacticalPolicy for SacrificeValuePolicy {
    open spec fn identity(&self) -> PolicyId {
        PolicyId::SacrificeValue
    }

    open spec fn kinds(&self) -> Seq<DecisionKind> {
        seq![DecisionKind::ActivateAbility]
    }

    open spec fn weight(&self, features: DeckFeatures, state: GameState) -> Option<int> {
        activation::constant()
    }

    open spec fn ruling(&self, ctx: PolicyContext<'_>) -> Ruling {
        sacrifice_ruling(ctx)
    }

    fn id(&self) -> PolicyId {
        PolicyId::SacrificeValue
    }

    fn decision_kinds(&self) -> Vec<DecisionKind> {
        vec![DecisionKind::ActivateAbility]
    }

    fn activation(
        &self,
        _features: &DeckFeatures,
        _state: &GameState,
        _player: PlayerId,
    ) -> Option<i128> {
        always()
    }

    fn verdict(&self, ctx: &PolicyContext<'_>) -> PolicyVerdict {
        if !ctx.config.search.enabled {
            if let Some(cost) = Self::optional_single_card_draw_sacrifices_only_source(ctx) {
                return PolicyVerdict::reject(
                    PolicyReason::new("optional_sacrifice_only_source_for_single_card").with_fact(
                        "cost_milli",
                        (cost / 1_000) as i64,
                    ),
                );
            }
        }
        PolicyVerdict::score(
            self.score(ctx),
            &ctx.config.bands,
            PolicyReason::new("sacrifice_value_score"),
        )
    }
}

/// Each permanent more that a sacrifice takes lowers its score by what it costs
/// to give up; taking none costs nothing.
pub proof fn law_each_sacrifice_lowers_the_score(
    ctx: PolicyContext<'_>,
    more: PolicyContext<'_>,
    cards: Vec<ObjectId>,
    longer: Vec<ObjectId>,
    id: ObjectId,
)
    requires
        chooses_sacrifice(ctx.decision.waiting_for),
        chooses_sacrifice(more.decision.waiting_for),
        more.state == ctx.state,
        more.config == ctx.config,
        ctx.candidate.action == (GameAction::SelectCards { cards }),
        more.candidate.action == (GameAction::SelectCards { cards: longer }),
        longer@ == cards@.push(id),
    ensures
        sacrifice_score(more) == sacrifice_score(ctx) - strategy_helpers::cost_to_give_up(
            *ctx.state,
            ctx.config.policy_penalties,
        )(id),
        cards@.len() == 0 ==> sacrifice_score(ctx) == 0,
{
    seqs::lemma_sum_push(
        cards@,
        id,
        strategy_helpers::cost_to_give_up(*ctx.state, ctx.config.policy_penalties),
    );
}

/// A sacrifice is chosen to pay for a spell, for ward, or for an effect that
/// sacrifices, and in no other decision.
pub proof fn law_sacrifices_are_chosen_for_costs(waiting_for: WaitingFor)
    ensures
        chooses_sacrifice(waiting_for) ==> waiting_for is PayCost || waiting_for
            is WardSacrificeChoice || waiting_for is EffectZoneChoice,
        waiting_for is WardSacrificeChoice ==> chooses_sacrifice(waiting_for),
        waiting_for == (WaitingFor::EffectZoneChoice { sacrifices: true }) ==> chooses_sacrifice(
            waiting_for,
        ),
        waiting_for == (WaitingFor::EffectZoneChoice { sacrifices: false }) ==> !chooses_sacrifice(
            waiting_for,
        ),
        waiting_for == (WaitingFor::PayCost {
            kind: PayCostKind::Sacrifice,
            resume: CostResume::Spell,
        }) ==> chooses_sacrifice(waiting_for),
        waiting_for == (WaitingFor::PayCost {
            kind: PayCostKind::Sacrifice,
            resume: CostResume::SpellCost,
        }) ==> chooses_sacrifice(waiting_for),
        waiting_for == (WaitingFor::PayCost {
            kind: PayCostKind::Sacrifice,
            resume: CostResume::Other,
        }) ==> !chooses_sacrifice(waiting_for),
        (waiting_for matches WaitingFor::PayCost { kind, .. } && kind is Other)
            ==> !chooses_sacrifice(waiting_for),
{
}

/// Whether an ability sacrifices one permanent, not named as its source, and
/// then does nothing but draw its controller one card.
pub open spec fn trades_one_for_one(ability: ResolvedAbility) -> bool {
    &&& !ability.has_else_ability && !ability.has_repeat_for && !ability.has_player_scope
    &&& match ability.effect.kind {
        EffectKind::Sacrifice { target, count } => count == (QuantityExpr::Fixed { value: 1 })
            && !(target.shape is SelfRef),
        _ => false,
    }
    &&& match ability.sub_ability {
        Some(sub) => {
            &&& !sub.has_else_ability && !sub.has_repeat_for && !sub.has_player_scope
            &&& sub.sub_ability is None
            &&& match sub.effect.kind {
                EffectKind::Draw { count, target } => count == (QuantityExpr::Fixed { value: 1 })
                    && target.shape is Controller,
                _ => false,
            }
        },
        None => false,
    }
}

/// Accepting an optional effect is vetoed exactly for a seat that does not
/// search ahead, where the effect trades one permanent for one card, the AI's
/// source is the only permanent that fits, and it costs more than the card.
pub proof fn law_losing_trade_is_vetoed(ctx: PolicyContext<'_>)
    ensures
        SacrificeValuePolicy.ruling(ctx).worth() is None <==> !ctx.config.search.enabled && (match (
            ctx.candidate.action,
            ctx.decision.waiting_for,
            ctx.state.optional_effect,
        ) {
            (
                GameAction::DecideOptionalEffect { accept },
                WaitingFor::OptionalEffectChoice { source_id },
                Some(ability),
            ) => accept && trades_one_for_one(ability) && ability.source_id == source_id
                && ability.controller == ctx.ai_player && (match ability.effect.kind {
                EffectKind::Sacrifice { target, .. } => seqs::count(
                    ctx.state.battlefield@,
                    eligible(*ctx.state, ctx.ai_player, target),
                ) == 1 && ctx.state.battlefield@.contains(source_id) && eligible(
                    *ctx.state,
                    ctx.ai_player,
                    target,
                )(source_id),
                _ => false,
            }) && strategy_helpers::cost_to_give_up(
                *ctx.state,
                ctx.config.policy_penalties,
            )(source_id) > 1_000_000,
            _ => false,
        }),
{
}

/// A sacrifice may take a permanent exactly where the player controls it, it is
/// no emblem, and the filter matches it.
pub proof fn law_eligible_permanents_match(
    state: GameState,
    controller: PlayerId,
    filter: TargetFilter,
    id: ObjectId,
)
    ensures
        eligible(state, controller, filter)(id) <==> (match state.obj(id) {
            Some(o) => o.controller == controller && !o.is_emblem
                && filter.matching_objects@.contains(id),
            None => false,
        }),
{
}

/// What is not vetoed is worth its score, within the critical band, and
/// nothing where no sacrifice is chosen.
pub proof fn law_sacrifices_are_worth_their_score(ctx: PolicyContext<'_>)
    ensures
        ({
            let most = ctx.config.bands.critical_max as int;
            &&& SacrificeValuePolicy.ruling(ctx).worth() matches Some(d) ==> {
                &&& -most <= sacrifice_score(ctx) <= most ==> d == sacrifice_score(ctx)
                &&& sacrifice_score(ctx) < -most ==> d == -most
                &&& sacrifice_score(ctx) > most ==> d == most
            }
            &&& !(ctx.candidate.action is SelectCards) || !chooses_sacrifice(
                ctx.decision.waiting_for,
            ) ==> sacrifice_score(ctx) == 0
        }),
{
}

/// A veto says what the only source costs, in thousandths.
pub proof fn law_vetoed_trades_say_the_cost(ctx: PolicyContext<'_>)
    ensures
        SacrificeValuePolicy.ruling(ctx).worth() is None ==> (
        ctx.decision.waiting_for matches WaitingFor::OptionalEffectChoice { source_id }
            && SacrificeValuePolicy.ruling(ctx).facts() == seq![
            (
                "cost_milli"@,
                strategy_helpers::cost_to_give_up(*ctx.state, ctx.config.policy_penalties)(
                    source_id,
                ) / 1_000,
            ),
        ]),
{
}

} // verus!
