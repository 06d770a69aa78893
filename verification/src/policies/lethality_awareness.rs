//! What to do when the opponents threaten to win in combat.

use vstd::prelude::*;

use crate::board;
use crate::features::{DeckArchetype, DeckFeatures};
use crate::model::{
    AbilityDefinition, CoreType, EffectKind, GameAction, GameObject, GameState, PlayerId,
};
use crate::seqs;

use super::activation;
use super::activation::arch_times_turn;
use super::context;
use super::context::PolicyContext;
use super::registry;
use super::registry::{
    DecisionKind, PolicyId, PolicyReason, PolicyVerdict, Ruling, TacticalPolicy,
};
use super::strategy_helpers;
use super::strategy_helpers::{is_own_main_phase, opponent_lethal_damage};

verus! {

/// Keeps mana for interaction, and values removal, under a lethal threat.
#[derive(Debug)]
pub struct LethalityAwarenessPolicy;

/// Whether an ability removes something or counters it.
pub open spec fn interacts() -> spec_fn(AbilityDefinition) -> bool {
    |a: AbilityDefinition|
        match a.effect.kind {
            EffectKind::Destroy => true,
            EffectKind::DealDamage => true,
            EffectKind::Counter => true,
            EffectKind::Bounce { .. } => true,
            EffectKind::ChangeZone { .. } => true,
            _ => false,
        }
}

/// The instants that remove or counter something.
pub open spec fn instant_interaction() -> spec_fn(GameObject) -> bool {
    |o: GameObject| o.has_type(CoreType::Instant) && seqs::any(o.abilities@, interacts())
}

/// What casting a spell is worth under a lethal threat: removal may answer it;
/// anything else must leave more than one mana.
pub open spec fn cast_under_lethal(ctx: PolicyContext<'_>) -> int {
    let penalty = ctx.config.policy_penalties.lethality_tapout_penalty as int;
    match context::facts_of(ctx) {
        Some(facts) => if facts.profile.has_direct_removal_text {
            500_000
        } else if ctx.state.seat(ctx.ai_player).available_mana - facts.mana_value > 1 {
            0
        } else {
            penalty
        },
        None => penalty,
    }
}

/// What passing is worth under a lethal threat: something where an instant in
/// hand can still answer it.
pub open spec fn pass_under_lethal(state: GameState, ai_player: PlayerId) -> int {
    if board::any(state, state.seat(ai_player).hand@, instant_interaction()) {
        300_000
    } else {
        0
    }
}

/// What the policy adds to a candidate.
pub open spec fn lethality_score(ctx: PolicyContext<'_>) -> int {
    if strategy_helpers::lethal_damage(*ctx.state, ctx.ai_player) < ctx.state.seat(
        ctx.ai_player,
    ).life || !strategy_helpers::own_main_phase(ctx) {
        0
    } else {
        match ctx.candidate.action {
            GameAction::CastSpell { .. } => cast_under_lethal(ctx),
            GameAction::PassPriority => pass_under_lethal(*ctx.state, ctx.ai_player),
            _ => 0,
        }
    }
}

/// How much the policy counts for each strategy.
pub open spec fn lethality_scale(archetype: DeckArchetype) -> int {
    match archetype {
        DeckArchetype::Aggro => 1_500_000,
        _ => 1_000_000,
    }
}

/// What casting a spell is worth under a lethal threat.
fn score_cast_under_lethal(ctx: &PolicyContext<'_>) -> (r: i128)
    requires
        ctx.valid(),
    ensures
        r == cast_under_lethal(*ctx),
{
    if let Some(facts) = ctx.cast_facts() {
        if facts.profile.has_direct_removal_text {
            return 500_000;
        }
        let available: i64 = ctx.state.player(ctx.ai_player).available_mana as i64;
        if available - facts.mana_value as i64 > 1 {
            return 0;
        }
    }
    ctx.penalties().lethality_tapout_penalty as i128
}

/// What passing is worth under a lethal threat.
fn score_pass_under_lethal(state: &GameState, ai_player: PlayerId) -> (r: i128)
    requires
        state.seated(ai_player),
    ensures
        r == pass_under_lethal(*state, ai_player),
{
    let accepts = |o: &GameObject| -> (b: bool)
        ensures
            b == instant_interaction()(*o),
        {
            let answers = |a: &AbilityDefinition| -> (c: bool)
                ensures
                    c == interacts()(*a),
                {
                    matches!(
                        a.effect.kind,
                        EffectKind::Destroy
                        | EffectKind::DealDamage
                        | EffectKind::Counter
                        | EffectKind::Bounce { .. }
                        | EffectKind::ChangeZone { .. }
                    )
                };
            o.is_type(CoreType::Instant) && seqs::any_of(&o.abilities, answers, Ghost(interacts()))
        };
    if board::any_where(
        state,
        &state.player(ai_player).hand,
        accepts,
        Ghost(instant_interaction()),
    ) {
        300_000
    } else {
        0
    }
}

impl LethalityAwarenessPolicy {
    /// How much the policy counts for a strategy, in millionths.
    fn archetype_scale(archetype: DeckArchetype) -> (r: i64)
        ensures
            r == lethality_scale(archetype),
    {
        match archetype {
            DeckArchetype::Aggro => 1_500_000,
            _ => 1_000_000,
        }
    }

    /// What the policy adds to a candidate.
    pub fn score(&self, ctx: &PolicyContext<'_>) -> (r: i128)
        requires
            ctx.valid(),
        ensures
            r == lethality_score(*ctx),
    {
        let ai_life: i64 = ctx.state.player(ctx.ai_player).life as i64;
        let lethal_damage: i64 = opponent_lethal_damage(ctx.state, ctx.ai_player);
        if lethal_damage < ai_life || !is_own_main_phase(ctx) {
            return 0;
        }
        match &ctx.candidate.action {
            GameAction::CastSpell { .. } => score_cast_under_lethal(ctx),
            GameAction::PassPriority => score_pass_under_lethal(ctx.state, ctx.ai_player),
            _ => 0,
        }
    }
}

impl TacticalPolicy for LethalityAwarenessPolicy {
    open spec fn identity(&self) -> PolicyId {
        PolicyId::LethalityAwareness
    }

    open spec fn kinds(&self) -> Seq<DecisionKind> {
        seq![DecisionKind::CastSpell, DecisionKind::ActivateAbility]
    }

    open spec fn weight(&self, features: DeckFeatures, state: GameState) -> Option<int> {
        activation::by_archetype_and_turn(features, lethality_scale(features.archetype))
    }

    open spec fn ruling(&self, ctx: PolicyContext<'_>) -> Ruling {
        registry::scores(
            lethality_score(ctx),
            registry::because("lethality_awareness_score"@),
        )
    }

    fn id(&self) -> PolicyId {
        PolicyId::LethalityAwareness
    }

    fn decision_kinds(&self) -> Vec<DecisionKind> {
        vec![DecisionKind::CastSpell, DecisionKind::ActivateAbility]
    }

    fn activation(
        &self,
        features: &DeckFeatures,
        _state: &GameState,
        _player: PlayerId,
    ) -> Option<i128> {
        arch_times_turn(features, Self::archetype_scale(features.archetype))
    }

    fn verdict(&self, ctx: &PolicyContext<'_>) -> PolicyVerdict {
        PolicyVerdict::Score {
            delta: self.score(ctx),
            reason: PolicyReason::new("lethality_awareness_score"),
        }
    }
}

/// Under a lethal threat in its own quiet main phase, and only there, the
/// policy speaks: for removal, against a spell that leaves one mana or less,
/// and for passing with an instant that can still answer.
pub proof fn law_lethal_threat_keeps_answers(ctx: PolicyContext<'_>)
    ensures
        ({
            let me = ctx.state.players[ctx.ai_player.0 as int];
            let threatened = strategy_helpers::lethal_damage(*ctx.state, ctx.ai_player) >= me.life
                && strategy_helpers::own_main_phase(ctx);
            let worth = LethalityAwarenessPolicy.ruling(ctx).worth();
            let penalty = Some(ctx.config.policy_penalties.lethality_tapout_penalty as int);
            &&& !threatened ==> worth == Some(0int)
            &&& threatened && ctx.candidate.action is CastSpell ==> match context::facts_of(ctx) {
                Some(facts) => {
                    let removes = facts.profile.has_direct_removal_text;
                    &&& removes ==> worth == Some(500_000int)
                    &&& !removes && me.available_mana >= facts.mana_value + 2 ==> worth == Some(
                        0int,
                    )
                    &&& !removes && me.available_mana < facts.mana_value + 2 ==> worth == penalty
                },
                None => worth == penalty,
            }
            &&& threatened && ctx.candidate.action is PassPriority ==> (worth == Some(300_000int)
                || worth == Some(0int)) && (worth == Some(300_000int) <==> exists|i: int|
                0 <= i < me.hand@.len() && (match ctx.state.obj(#[trigger] me.hand@[i]) {
                    Some(o) => o.core_types@.contains(CoreType::Instant) && answers(o),
                    None => false,
                }))
            &&& !(ctx.candidate.action is CastSpell) && !(ctx.candidate.action is PassPriority)
                ==> worth == Some(0int)
        }),
{
    let me = ctx.state.players[ctx.ai_player.0 as int];
    board::law_any_is_a_count_above_zero(*ctx.state, me.hand@, instant_interaction());
    assert forall|o: GameObject|
        #[trigger] answers(o) == seqs::any(o.abilities@, interacts()) by {
        let a = o.abilities@;
        if seqs::any(a, interacts()) {
            let i = choose|i: int| 0 <= i < a.len() && interacts()(#[trigger] a[i]);
            assert(answers_with(a[i]));
        }
        if answers(o) {
            let i = choose|i: int| 0 <= i < a.len() && answers_with(#[trigger] a[i]);
            assert(interacts()(a[i]));
        }
    }
    if exists|i: int|
        0 <= i < me.hand@.len() && (match ctx.state.obj(#[trigger] me.hand@[i]) {
            Some(o) => o.core_types@.contains(CoreType::Instant) && answers(o),
            None => false,
        }) {
        let i = choose|i: int|
            0 <= i < me.hand@.len() && (match ctx.state.obj(#[trigger] me.hand@[i]) {
                Some(o) => o.core_types@.contains(CoreType::Instant) && answers(o),
                None => false,
            });
        assert(instant_interaction()(ctx.state.obj(me.hand@[i])->Some_0));
    }
    if exists|i: int|
        0 <= i < me.hand@.len() && (match ctx.state.obj(#[trigger] me.hand@[i]) {
            Some(o) => instant_interaction()(o),
            None => false,
        }) {
        let i = choose|i: int|
            0 <= i < me.hand@.len() && (match ctx.state.obj(#[trigger] me.hand@[i]) {
                Some(o) => instant_interaction()(o),
                None => false,
            });
        assert(answers(ctx.state.obj(me.hand@[i])->Some_0));
    }
}

/// Whether an ability destroys, deals damage, counters, returns or moves
/// something.
pub open spec fn answers_with(a: AbilityDefinition) -> bool {
    let kind = a.effect.kind;
    kind is Destroy || kind is DealDamage || kind is Counter || kind is Bounce || kind
        is ChangeZone
}

/// Whether an object has an ability that answers a threat.
pub open spec fn answers(o: GameObject) -> bool {
    exists|i: int| 0 <= i < o.abilities@.len() && answers_with(#[trigger] o.abilities@[i])
}

/// An aggressive deck listens half as much again as any other.
pub proof fn law_aggressive_decks_listen_more(archetype: DeckArchetype)
    ensures
        archetype is Aggro ==> 2 * lethality_scale(archetype) == 3_000_000,
        !(archetype is Aggro) ==> lethality_scale(archetype) == 1_000_000,
{
}

} // verus!
