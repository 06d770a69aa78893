//! Which creature to remove first.

use vstd::prelude::*;

use crate::eval;
use crate::eval::{opponent_battlefield_creature_threat_value, THREAT_VALUE_LIMIT};
use crate::features::DeckFeatures;
use crate::model;
use crate::model::{
    stat_or_zero, GameAction, GameObject, GameState, Keyword, ObjectId, PlayerId, TargetRef,
    WaitingFor,
};
use crate::projection;
use crate::projection::{projection_for, Projection, VelocitySample};
use crate::score;
use crate::score::{div_floor, min_score};
use crate::seqs;

use super::activation;
use super::activation::turn_only;
use super::context::PolicyContext;
use super::registry;
use super::registry::{
    DecisionKind, PolicyId, PolicyReason, PolicyVerdict, Ruling, TacticalPolicy,
};
use super::strategy_helpers;
use super::strategy_helpers::{ai_can_block, legal_blocker_count};

verus! {

/// Removes what is worth most, cannot be blocked, or is about to grow.
#[derive(Debug)]
pub struct EvasionRemovalPriorityPolicy;

/// How good a target is, by its threat value: below two it is a waste.
pub open spec fn quality(value: int) -> int {
    if value < 2_000_000 {
        -800_000
    } else {
        score::lesser(value / 4, 2_000_000)
    }
}

/// How much it counts that a creature is hard to block: its power times the
/// configured factor where the AI cannot block it, half of that where menace
/// asks for more blockers than there are, three at most.
pub open spec fn evasion_value(ctx: PolicyContext<'_>, target: GameObject, id: ObjectId) -> int {
    let mult = ctx.config.policy_penalties.evasion_removal_bonus_mult as int;
    let damage = model::stat(target.power) * mult;
    let blockers = strategy_helpers::blocker_of(*ctx.state, ctx.ai_player, id);
    let menace = target.has(Keyword::Menace);
    if !target.has(Keyword::Flying) && !target.has(Keyword::Shadow) && !menace {
        0
    } else if !strategy_helpers::blockable(*ctx.state, ctx.ai_player, id) {
        score::lesser(damage, 3_000_000)
    } else if menace && seqs::count(ctx.state.battlefield@, blockers) < 2 {
        score::lesser(damage / 2, 3_000_000)
    } else {
        0
    }
}

/// The simulation that tells how an opponent's creatures fare: one that is
/// already made, else one made for this candidate where there was time for it.
pub open spec fn projection_of(ctx: PolicyContext<'_>, opponent: PlayerId) -> Option<Projection> {
    match projection::find_projection(ctx.context.session.projections@, opponent) {
        Some(p) => Some(p),
        None => if ctx.affords_projection() {
            ctx.candidate.projection
        } else {
            None
        },
    }
}

/// How much it counts that a creature is about to grow: three tenths for each
/// point, three at most.
pub open spec fn growth_value(sample: Option<VelocitySample>) -> int {
    match sample {
        Some(VelocitySample::Changed { delta }) => if delta > 0 {
            score::lesser(delta * 300_000, 3_000_000)
        } else {
            0
        },
        _ => 0,
    }
}

/// How much it counts that a target is about to grow.
pub open spec fn velocity_value(ctx: PolicyContext<'_>, target: GameObject, id: ObjectId) -> int {
    if target.controller == ctx.ai_player {
        0
    } else {
        match projection_of(ctx, target.controller) {
            Some(p) => growth_value(projection::find_sample(p.samples@, id)),
            None => 0,
        }
    }
}

/// The creature that a candidate chooses to harm.
pub open spec fn harmed_target(ctx: PolicyContext<'_>) -> Option<ObjectId> {
    let asked = match ctx.decision.waiting_for {
        WaitingFor::TargetSelection { .. } => true,
        WaitingFor::TriggerTargetSelection { .. } => true,
        _ => false,
    };
    match (ctx.candidate.action, ctx.candidate.target_impact) {
        (GameAction::ChooseTarget { target }, Some(impact)) => match target {
            Some(TargetRef::Object(id)) if asked && impact < -250_000 => Some(id),
            _ => None,
        },
        _ => None,
    }
}

/// What the policy adds to a candidate: something for each opposing creature
/// that it would harm.
pub open spec fn removal_priority(ctx: PolicyContext<'_>) -> int {
    match harmed_target(ctx) {
        Some(id) => match (
            eval::threat_value(*ctx.state, ctx.ai_player, id),
            ctx.state.obj(id),
        ) {
            (Some(value), Some(target)) => quality(value) + evasion_value(ctx, target, id)
                + velocity_value(ctx, target, id),
            _ => 0,
        },
        None => 0,
    }
}

/// Whether a simulation of the target's controller is worth making before the
/// candidate is judged.
pub open spec fn wants_projection(ctx: PolicyContext<'_>) -> bool {
    match harmed_target(ctx) {
        Some(id) => match (
            eval::threat_value(*ctx.state, ctx.ai_player, id),
            ctx.state.obj(id),
        ) {
            (Some(_), Some(target)) => target.controller != ctx.ai_player
                && projection::find_projection(
                ctx.context.session.projections@,
                target.controller,
            ) is None && ctx.affords_projection(),
            _ => false,
        },
        None => false,
    }
}

/// A simulation made for a candidate counts only where one was wanted.
pub proof fn law_unwanted_projection_is_ignored(ctx: PolicyContext<'_>, other: PolicyContext<'_>)
    requires
        !wants_projection(ctx),
        ctx.state == other.state,
        ctx.decision == other.decision,
        ctx.ai_player == other.ai_player,
        ctx.config == other.config,
        ctx.context == other.context,
        ctx.candidate.action == other.candidate.action,
        ctx.candidate.target_impact == other.candidate.target_impact,
    ensures
        removal_priority(ctx) == removal_priority(other),
{
}

/// A better target is never a worse choice.
pub proof fn law_quality_grows_with_value(value: int, more: int)
    requires
        value <= more,
    ensures
        quality(value) <= quality(more),
{
}

/// How good a target is.
fn removal_target_quality_score(value: i128) -> (r: i128)
    requires
        -THREAT_VALUE_LIMIT <= value <= THREAT_VALUE_LIMIT,
    ensures
        r == quality(value as int),
        -800_000 <= r <= 2_000_000,
{
    if value < 2_000_000 {
        -800_000
    } else {
        min_score(div_floor(value, 4), 2_000_000)
    }
}

/// How much it counts that a creature is hard to block.
fn evasion_score(ctx: &PolicyContext<'_>, target: &GameObject, target_id: ObjectId) -> (r: i128)
    ensures
        r == evasion_value(*ctx, *target, target_id),
        -0x4000_0000_0000_0000 <= r <= 3_000_000,
{
    let power: i32 = stat_or_zero(target.power);
    let mult: i32 = ctx.penalties().evasion_removal_bonus_mult;
    let has_menace: bool = target.has_keyword(Keyword::Menace);
    if !target.has_keyword(Keyword::Flying) && !target.has_keyword(Keyword::Shadow)
        && !has_menace {
        return 0;
    }
    proof {
        score::lemma_product_bound(power as int, mult as int, 0x8000_0000, 0x8000_0000);
    }
    let damage: i128 = power as i128 * mult as i128;
    if !ai_can_block(ctx.state, ctx.ai_player, target_id) {
        min_score(damage, 3_000_000)
    } else if has_menace && legal_blocker_count(ctx.state, ctx.ai_player, target_id) < 2 {
        min_score(div_floor(damage, 2), 3_000_000)
    } else {
        0
    }
}

/// How much it counts that a target is about to grow.
fn velocity_score(ctx: &PolicyContext<'_>, target: &GameObject, target_id: ObjectId) -> (r: i128)
    ensures
        r == velocity_value(*ctx, *target, target_id),
        0 <= r <= 3_000_000,
{
    if target.controller == ctx.ai_player {
        return 0;
    }
    let found = match projection_for(&ctx.context.session.projections, target.controller) {
        Some(cached) => Some(cached),
        None => {
            if !ctx.can_afford_projection() {
                return 0;
            }
            match &ctx.candidate.projection {
                Some(fresh) => Some(fresh),
                None => None,
            }
        },
    };
    let sample: Option<VelocitySample> = match found {
        Some(p) => p.sample_of(target_id),
        None => None,
    };
    match sample {
        Some(VelocitySample::Changed { delta }) => if delta > 0 {
            min_score(delta as i128 * 300_000, 3_000_000)
        } else {
            0
        },
        _ => 0,
    }
}

/// The creature that a candidate chooses to harm.
fn target_of(ctx: &PolicyContext<'_>) -> (r: Option<ObjectId>)
    ensures
        r == harmed_target(*ctx),
{
    if !matches!(
        ctx.decision.waiting_for,
        WaitingFor::TargetSelection { .. } | WaitingFor::TriggerTargetSelection { .. }
    ) {
        return None;
    }
    match &ctx.candidate.action {
        GameAction::ChooseTarget { target } => match (*target, ctx.candidate.target_impact) {
            (Some(TargetRef::Object(id)), Some(impact)) => if impact < -250_000 {
                Some(id)
            } else {
                None
            },
            _ => None,
        },
        _ => None,
    }
}

/// Whether a simulation of the target's controller is worth making before the
/// candidate is judged: the candidate harms an opposing creature, none is made
/// yet, and there is time for it.
pub fn needs_projection(ctx: &PolicyContext<'_>) -> (r: bool)
    requires
        ctx.valid(),
    ensures
        r == wants_projection(*ctx),
{
    let target_id: ObjectId = match target_of(ctx) {
        Some(id) => id,
        None => return false,
    };
    if opponent_battlefield_creature_threat_value(
        ctx.state,
        ctx.ai_player,
        target_id,
    ).is_none() {
        return false;
    }
    match ctx.state.object(target_id) {
        Some(target) => target.controller != ctx.ai_player && projection_for(
            &ctx.context.session.projections,
            target.controller,
        ).is_none() && ctx.can_afford_projection(),
        None => false,
    }
}

impl EvasionRemovalPriorityPolicy {
    /// What the policy adds to a candidate.
    pub fn score(&self, ctx: &PolicyContext<'_>) -> (r: i128)
        requires
            ctx.valid(),
        ensures
            r == removal_priority(*ctx),
    {
        let target_id: ObjectId = match target_of(ctx) {
            Some(id) => id,
            None => return 0,
        };
        let value: i128 = match opponent_battlefield_creature_threat_value(
            ctx.state,
            ctx.ai_player,
            target_id,
        ) {
            Some(v) => v,
            None => return 0,
        };
        let target = match ctx.state.object(target_id) {
            Some(o) => o,
            None => return 0,
        };
        removal_target_quality_score(value) + evasion_score(ctx, target, target_id)
            + velocity_score(ctx, target, target_id)
    }
}

impl TacticalPolicy for EvasionRemovalPriorityPolicy {
    open spec fn identity(&self) -> PolicyId {
        PolicyId::EvasionRemovalPriority
    }

    open spec fn kinds(&self) -> Seq<DecisionKind> {
        seq![DecisionKind::SelectTarget]
    }

    open spec fn weight(&self, features: DeckFeatures, state: GameState) -> Option<int> {
        activation::by_turn(features)
    }

    open spec fn ruling(&self, ctx: PolicyContext<'_>) -> Ruling {
        registry::banded(
            removal_priority(ctx),
            ctx.config.bands.critical_max as int,
            registry::because("evasion_removal_priority_score"@),
        )
    }

    fn id(&self) -> PolicyId {
        PolicyId::EvasionRemovalPriority
    }

    fn decision_kinds(&self) -> Vec<DecisionKind> {
        vec![DecisionKind::SelectTarget]
    }

    fn activation(
        &self,
        features: &DeckFeatures,
        _state: &GameState,
        _player: PlayerId,
    ) -> Option<i128> {
        turn_only(features)
    }

    fn verdict(&self, ctx: &PolicyContext<'_>) -> PolicyVerdict {
        PolicyVerdict::score(
            self.score(ctx),
            &ctx.config.bands,
            PolicyReason::new("evasion_removal_priority_score"),
        )
    }
}

/// A target worth less than two is a waste; any other counts for a quarter of
/// its value, up to two.
pub proof fn law_cheap_targets_are_a_waste(value: int)
    ensures
        value < 2_000_000 ==> quality(value) == -800_000,
        2_000_000 <= value <= 8_000_000 ==> 4 * quality(value) <= value < 4 * (quality(value) + 1),
        value >= 8_000_000 ==> quality(value) == 2_000_000,
{
}

/// A creature with flying, shadow or menace counts for its power times the
/// configured factor where the AI cannot block it, for half of that where it
/// has menace and there is one blocker only, up to three; any other creature
/// counts for nothing.
pub proof fn law_evasive_targets_count_by_power(
    ctx: PolicyContext<'_>,
    target: GameObject,
    id: ObjectId,
)
    ensures
        ({
            let power = match target.power {
                Some(n) => n as int,
                None => 0,
            };
            let damage = power * ctx.config.policy_penalties.evasion_removal_bonus_mult;
            let menace = target.keywords@.contains(Keyword::Menace);
            let evades = menace || target.keywords@.contains(Keyword::Flying)
                || target.keywords@.contains(Keyword::Shadow);
            let blockers = seqs::count(
                ctx.state.battlefield@,
                strategy_helpers::blocker_of(*ctx.state, ctx.ai_player, id),
            );
            let bonus = evasion_value(ctx, target, id);
            &&& !evades ==> bonus == 0
            &&& evades && blockers == 0 && damage <= 3_000_000 ==> bonus == damage
            &&& evades && blockers == 0 && damage > 3_000_000 ==> bonus == 3_000_000
            &&& menace && blockers == 1 && damage <= 6_000_000 ==> 2 * bonus <= damage < 2 * (bonus
                + 1)
            &&& menace && blockers == 1 && damage > 6_000_000 ==> bonus == 3_000_000
            &&& blockers >= 2 || (blockers == 1 && !menace) ==> bonus == 0
        }),
{
    strategy_helpers::law_blockers_are_untapped_creatures(*ctx.state, ctx.ai_player, id);
}

/// A creature about to grow counts three tenths for each point of power, up to
/// three; one that shrinks, comes or goes for nothing.
pub proof fn law_growth_counts_by_point(delta: i32)
    ensures
        0 < delta <= 10 ==> growth_value(Some(VelocitySample::Changed { delta })) == 300_000
            * delta,
        delta > 10 ==> growth_value(Some(VelocitySample::Changed { delta })) == 3_000_000,
        delta <= 0 ==> growth_value(Some(VelocitySample::Changed { delta })) == 0,
        growth_value(Some(VelocitySample::Other)) == 0,
        growth_value(None) == 0,
{
}

/// A candidate is judged where it chooses, for an effect or a trigger, an
/// object that it harms by more than a quarter.
pub proof fn law_harmed_targets_are_judged(ctx: PolicyContext<'_>, id: ObjectId)
    ensures
        harmed_target(ctx) == Some(id) <==> ctx.candidate.action == (GameAction::ChooseTarget {
            target: Some(TargetRef::Object(id)),
        }) && (ctx.candidate.target_impact matches Some(i) && i < -250_000) && (
        ctx.decision.waiting_for is TargetSelection || ctx.decision.waiting_for
            is TriggerTargetSelection),
{
}

/// Removing an opposing creature is worth its quality, its evasion and its
/// growth together, within the critical band; nothing else is judged.
pub proof fn law_removal_priority_adds_up(
    ctx: PolicyContext<'_>,
    id: ObjectId,
    target: GameObject,
    value: int,
)
    requires
        harmed_target(ctx) == Some(id),
        ctx.state.obj(id) == Some(target),
        eval::threat_value(*ctx.state, ctx.ai_player, id) == Some(value),
    ensures
        ({
            let all = quality(value) + evasion_value(ctx, target, id) + velocity_value(
                ctx,
                target,
                id,
            );
            let most = ctx.config.bands.critical_max as int;
            let worth = EvasionRemovalPriorityPolicy.ruling(ctx).worth();
            &&& -most <= all <= most ==> worth == Some(all)
            &&& all > most ==> worth == Some(most)
            &&& all < -most ==> worth == Some(-most)
        }),
{
}

/// What is no opposing creature on the battlefield, or not harmed, is not
/// judged.
pub proof fn law_only_harm_to_others_is_judged(ctx: PolicyContext<'_>)
    ensures
        harmed_target(ctx) is None ==> EvasionRemovalPriorityPolicy.ruling(ctx).worth() == Some(
            0int,
        ),
        (harmed_target(ctx) matches Some(id) && eval::threat_value(
            *ctx.state,
            ctx.ai_player,
            id,
        ) is None) ==> EvasionRemovalPriorityPolicy.ruling(ctx).worth() == Some(0int),
{
}

/// The growth that counts is that of the target in the simulation of its
/// controller: the one already made, else the candidate's own where there was
/// time for it. The AI's own creatures never count.
pub proof fn law_growth_is_read_from_a_projection(
    ctx: PolicyContext<'_>,
    target: GameObject,
    id: ObjectId,
)
    ensures
        ({
            let made = projection::find_projection(
                ctx.context.session.projections@,
                target.controller,
            );
            let value = velocity_value(ctx, target, id);
            &&& target.controller == ctx.ai_player ==> value == 0
            &&& target.controller != ctx.ai_player ==> match made {
                Some(p) => value == growth_value(projection::find_sample(p.samples@, id)),
                None => match ctx.candidate.projection {
                    Some(p) => if ctx.affords_projection() {
                        value == growth_value(projection::find_sample(p.samples@, id))
                    } else {
                        value == 0
                    },
                    None => value == 0,
                },
            }
        }),
{
}

/// A simulation is wanted exactly where an opposing creature is harmed, none of
/// its controller's is made yet, and there is time for one.
pub proof fn law_projection_is_wanted_once(ctx: &PolicyContext<'_>, r: bool)
    requires
        call_ensures(needs_projection, (ctx,), r),
    ensures
        r <==> (harmed_target(*ctx) matches Some(id) && eval::threat_value(
            *ctx.state,
            ctx.ai_player,
            id,
        ) is Some && (ctx.state.obj(id) matches Some(o) && o.controller != ctx.ai_player && (forall|
            i: int,
        |
            0 <= i < ctx.context.session.projections@.len() ==> (
            #[trigger] ctx.context.session.projections@[i]).opponent != o.controller))
            && ctx.affords_projection()),
{
    if let Some(id) = harmed_target(*ctx) {
        if let Some(o) = ctx.state.obj(id) {
            let list = ctx.context.session.projections@;
            projection::law_projection_lookup(list, o.controller);
            if let Some(p) = projection::find_projection(list, o.controller) {
                let i = choose|i: int| 0 <= i < list.len() && list[i] == p;
                assert(list[i].opponent == o.controller);
            }
        }
    }
}

} // verus!
