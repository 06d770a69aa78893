//! Life totals as a resource: defence when the AI is low, attack when an
//! opponent is.

use vstd::prelude::*;

use crate::eval;
use crate::eval::board_stats;
use crate::features::{DeckArchetype, DeckFeatures};
use crate::model;
use crate::model::{
    stat_or_zero, AbilityDefinition, CoreType, EffectKind, GameAction, GameState,
    Keyword, PlayerId,
};
use crate::seqs;

use super::activation;
use super::activation::arch_times_turn;
use super::context;
use super::context::{CastFacts, PolicyContext};
use super::registry;
use super::registry::{
    DecisionKind, PolicyId, PolicyReason, PolicyVerdict, Ruling, TacticalPolicy,
};

verus! {

/// Prefers defensive plays when the AI is about to die, and plays that close
/// the game when an opponent is.
#[derive(Debug)]
pub struct LifeTotalResourcePolicy;

/// The life of the opponent who has least, twenty where there is none.
pub open spec fn least_opposing_life(state: GameState, ai_player: PlayerId) -> int {
    match seqs::minimum(state.opponents_of(ai_player), eval::anyone(), eval::life_of(state)) {
        Some(life) => life,
        None => 20,
    }
}

/// Whether the AI is about to die: five life or fewer, or no more than the
/// opponents' boards have power.
pub open spec fn ai_critical(state: GameState, ai_player: PlayerId) -> bool {
    let life = state.seat(ai_player).life;
    life <= 5 || life <= seqs::sum(
        state.opponents_of(ai_player),
        eval::board_power_of(state),
    )
}

/// Whether an opponent is about to die.
pub open spec fn opponent_critical(state: GameState, ai_player: PlayerId) -> bool {
    let life = least_opposing_life(state, ai_player);
    life <= 5 || life <= eval::total_power(state, ai_player)
}

/// What a spell is worth to a player about to die.
pub open spec fn defensive_value(ctx: PolicyContext<'_>, facts: CastFacts) -> int {
    let o = facts.object;
    let penalties = ctx.config.policy_penalties;
    let body = if !o.has_type(CoreType::Creature) {
        0
    } else if model::stat(o.toughness) >= model::stat(o.power) {
        penalties.low_life_defensive_bonus as int
    } else if model::stat(o.toughness) <= 1 && !o.has(Keyword::Flying) && !o.has(
        Keyword::Menace,
    ) {
        penalties.low_life_aggro_penalty as int
    } else {
        0
    };
    body + eval::when(facts.profile.has_direct_removal_text, 400_000)
}

/// Whether an ability deals damage.
pub open spec fn burns() -> spec_fn(AbilityDefinition) -> bool {
    |a: AbilityDefinition| a.effect.kind is DealDamage
}

/// Whether an ability does something other than gain life.
pub open spec fn beyond_lifegain() -> spec_fn(AbilityDefinition) -> bool {
    |a: AbilityDefinition| !(a.effect.kind is GainLife)
}

/// What a spell is worth against an opponent about to die.
pub open spec fn closing_value(facts: CastFacts) -> int {
    let o = facts.object;
    let creature = o.has_type(CoreType::Creature);
    eval::when(
        creature && (o.has(Keyword::Flying) || o.has(Keyword::Menace) || o.has(Keyword::Shadow)),
        200_000,
    ) + eval::when(
        facts.profile.has_direct_removal_text && seqs::any(facts.primary_effects@, burns()),
        300_000,
    ) - eval::when(
        !creature && facts.primary_effects@.len() > 0 && !seqs::any(
            facts.primary_effects@,
            beyond_lifegain(),
        ),
        200_000,
    )
}

/// What the policy adds to a candidate.
pub open spec fn life_total_score(ctx: PolicyContext<'_>) -> int {
    let acts = match ctx.candidate.action {
        GameAction::CastSpell { .. } => true,
        GameAction::ActivateAbility { .. } => true,
        _ => false,
    };
    match context::facts_of(ctx) {
        Some(facts) if acts => eval::when(
            ai_critical(*ctx.state, ctx.ai_player),
            defensive_value(ctx, facts),
        ) + eval::when(opponent_critical(*ctx.state, ctx.ai_player), closing_value(facts)),
        _ => 0,
    }
}

/// How much the policy counts for each strategy.
pub open spec fn life_total_scale(archetype: DeckArchetype) -> int {
    match archetype {
        DeckArchetype::Aggro => 1_300_000,
        DeckArchetype::Control => 800_000,
        _ => 1_000_000,
    }
}

/// While nobody is about to die the policy stays silent.
pub proof fn law_silent_while_nobody_is_critical(ctx: PolicyContext<'_>)
    requires
        !ai_critical(*ctx.state, ctx.ai_player),
        !opponent_critical(*ctx.state, ctx.ai_player),
    ensures
        life_total_score(ctx) == 0,
{
}

/// Whether the AI is about to die.
fn is_ai_critical(state: &GameState, ai_player: PlayerId) -> (r: bool)
    requires
        state.valid(),
        state.seated(ai_player),
    ensures
        r == ai_critical(*state, ai_player),
{
    let player = state.player(ai_player);
    let opponents = &player.opponents;
    let ghost f = eval::board_power_of(*state);
    let mut power: i128 = 0;
    let mut i: usize = 0;
    while i < opponents.len()
        invariant
            state.valid(),
            opponents@.len() <= 255,
            f == eval::board_power_of(*state),
            i <= opponents@.len(),
            -0x8000_0000_0000_0000 * i <= power <= 0x8000_0000_0000_0000 * i,
            power == seqs::sum(opponents@.take(i as int), f),
        decreases opponents@.len() - i,
    {
        proof {
            seqs::lemma_sum_step(opponents@, i as int, f);
        }
        let (_creatures, p, _toughness, _others) = board_stats(state, opponents[i]);
        power += p as i128;
        i += 1;
    }
    assert(opponents@.take(opponents@.len() as int) =~= opponents@);
    player.life <= 5 || player.life as i128 <= power
}

/// Whether an opponent is about to die.
fn is_opponent_critical(state: &GameState, ai_player: PlayerId) -> (r: bool)
    requires
        state.valid(),
        state.seated(ai_player),
    ensures
        r == opponent_critical(*state, ai_player),
{
    let ghost seat = ai_player.0 as int;
    let opponents = &state.player(ai_player).opponents;
    let ghost p = eval::anyone();
    let ghost f = eval::life_of(*state);
    let mut least: Option<i32> = None;
    let mut i: usize = 0;
    while i < opponents.len()
        invariant
            state.valid(),
            0 <= seat < state.players.len(),
            *opponents == state.players[seat].opponents,
            p == eval::anyone(),
            f == eval::life_of(*state),
            i <= opponents@.len(),
            seqs::minimum(opponents@.take(i as int), p, f) == (match least {
                Some(l) => Some(l as int),
                None => None,
            }),
        decreases opponents@.len() - i,
    {
        proof {
            seqs::lemma_minimum_step(opponents@, i as int, p, f);
            assert(state.seated(state.players[seat].opponents[i as int]));
        }
        let life: i32 = state.player(opponents[i]).life;
        least = match least {
            Some(l) => if life < l {
                Some(life)
            } else {
                Some(l)
            },
            None => Some(life),
        };
        i += 1;
    }
    assert(opponents@.take(opponents@.len() as int) =~= opponents@);
    let life: i32 = match least {
        Some(l) => l,
        None => 20,
    };
    let (_creatures, power, _toughness, _others) = board_stats(state, ai_player);
    life <= 5 || life as i64 <= power
}

/// What a spell is worth to a player about to die.
fn score_defensive_play(ctx: &PolicyContext<'_>, facts: &CastFacts) -> (r: i128)
    ensures
        r == defensive_value(*ctx, *facts),
        -0x1_0000_0000 <= r <= 0x1_0000_0000,
{
    let obj = &facts.object;
    let mut score: i128 = 0;
    if obj.is_type(CoreType::Creature) {
        let power: i32 = stat_or_zero(obj.power);
        let toughness: i32 = stat_or_zero(obj.toughness);
        if toughness >= power {
            score += ctx.penalties().low_life_defensive_bonus as i128;
        } else if toughness <= 1 && !obj.has_keyword(Keyword::Flying) && !obj.has_keyword(
            Keyword::Menace,
        ) {
            score += ctx.penalties().low_life_aggro_penalty as i128;
        }
    }
    if facts.profile.has_direct_removal_text {
        score += 400_000;
    }
    score
}

/// What a spell is worth against an opponent about to die.
fn score_aggressive_close(facts: &CastFacts) -> (r: i128)
    ensures
        r == closing_value(*facts),
        -1_000_000 <= r <= 1_000_000,
{
    let obj = &facts.object;
    let creature: bool = obj.is_type(CoreType::Creature);
    let mut score: i128 = 0;
    if creature && (obj.has_keyword(Keyword::Flying) || obj.has_keyword(Keyword::Menace)
        || obj.has_keyword(Keyword::Shadow)) {
        score += 200_000;
    }
    let deals_damage = |a: &AbilityDefinition| -> (b: bool)
        ensures
            b == burns()(*a),
        { matches!(a.effect.kind, EffectKind::DealDamage) };
    if facts.profile.has_direct_removal_text && seqs::any_of(
        &facts.primary_effects,
        deals_damage,
        Ghost(burns()),
    ) {
        score += 300_000;
    }
    let does_more = |a: &AbilityDefinition| -> (b: bool)
        ensures
            b == beyond_lifegain()(*a),
        { !matches!(a.effect.kind, EffectKind::GainLife) };
    if !creature && facts.primary_effects.len() > 0 && !seqs::any_of(
        &facts.primary_effects,
        does_more,
        Ghost(beyond_lifegain()),
    ) {
        score -= 200_000;
    }
    score
}

impl LifeTotalResourcePolicy {
    /// How much the policy counts for a strategy, in millionths.
    fn archetype_scale(archetype: DeckArchetype) -> (r: i64)
        ensures
            r == life_total_scale(archetype),
    {
        match archetype {
            DeckArchetype::Aggro => 1_300_000,
            DeckArchetype::Control => 800_000,
            _ => 1_000_000,
        }
    }

    /// What the policy adds to a candidate.
    pub fn score(&self, ctx: &PolicyContext<'_>) -> (r: i128)
        requires
            ctx.valid(),
        ensures
            r == life_total_score(*ctx),
    {
        if !matches!(
            ctx.candidate.action,
            GameAction::CastSpell { .. } | GameAction::ActivateAbility { .. }
        ) {
            return 0;
        }
        let defends: bool = is_ai_critical(ctx.state, ctx.ai_player);
        let closes: bool = is_opponent_critical(ctx.state, ctx.ai_player);
        let facts = match ctx.cast_facts() {
            Some(f) => f,
            None => return 0,
        };
        let mut score: i128 = 0;
        if defends {
            score += score_defensive_play(ctx, facts);
        }
        if closes {
            score += score_aggressive_close(facts);
        }
        score
    }
}

impl TacticalPolicy for LifeTotalResourcePolicy {
    open spec fn identity(&self) -> PolicyId {
        PolicyId::LifeTotalResource
    }

    open spec fn kinds(&self) -> Seq<DecisionKind> {
        seq![DecisionKind::CastSpell, DecisionKind::ActivateAbility]
    }

    open spec fn weight(&self, features: DeckFeatures, state: GameState) -> Option<int> {
        activation::by_archetype_and_turn(features, life_total_scale(features.archetype))
    }

    open spec fn ruling(&self, ctx: PolicyContext<'_>) -> Ruling {
        registry::scores(
            life_total_score(ctx),
            registry::because("life_total_resource_score"@),
        )
    }

    fn id(&self) -> PolicyId {
        PolicyId::LifeTotalResource
    }

    fn decision_kinds(&self) -> Vec<DecisionKind> {
        vec![DecisionKind::CastSpell, DecisionKind::ActivateAbility]
    }

    fn activation(
        &self,
        features: &DeckFeatures,
        _state: &GameState,
        _player: PlayerId,
    ) -> Option<i128> {
        arch_times_turn(features, Self::archetype_scale(features.archetype))
    }

    fn verdict(&self, ctx: &PolicyContext<'_>) -> PolicyVerdict {
        PolicyVerdict::Score {
            delta: self.score(ctx),
            reason: PolicyReason::new("life_total_resource_score"),
        }
    }
}

/// The AI is about to die exactly where it has five life or fewer, or no more
/// than the opponents' boards have power together; an opponent is where one
/// has five life or fewer, or no more than the AI's board has power.
pub proof fn law_critical_within_five_or_in_reach(state: GameState, ai_player: PlayerId)
    ensures
        ({
            let opponents = state.players[ai_player.0 as int].opponents@;
            let life = state.players[ai_player.0 as int].life;
            let power = eval::total_power(state, ai_player);
            &&& ai_critical(state, ai_player) <==> life <= 5 || life <= seqs::sum(
                opponents,
                |p: PlayerId| eval::total_power(state, p),
            )
            &&& opponents.len() > 0 ==> (opponent_critical(state, ai_player) <==> exists|i: int|
                0 <= i < opponents.len() && (state.players[(#[trigger] opponents[i]).0 as int].life
                    <= 5 || state.players[opponents[i].0 as int].life <= power))
            &&& opponents.len() == 0 ==> (opponent_critical(state, ai_player) <==> power >= 20)
        }),
{
    let opponents = state.opponents_of(ai_player);
    let lives = eval::life_of(state);
    assert(eval::board_power_of(state) =~= (|p: PlayerId| eval::total_power(state, p)));
    seqs::lemma_minimum(opponents, eval::anyone(), lives);
    if opponents.len() > 0 {
        assert(eval::anyone()(opponents[0]));
        let m = seqs::minimum(opponents, eval::anyone(), lives)->Some_0;
        let at = |p: PlayerId| eval::anyone()(p) && lives(p) == m;
        let k = choose|k: int| 0 <= k < opponents.len() && at(#[trigger] opponents[k]);
        assert(state.players[opponents[k].0 as int].life == m);
        assert forall|i: int| 0 <= i < opponents.len() implies m <= state.players[(
        #[trigger] opponents[i]).0 as int].life by {
            assert(eval::anyone()(opponents[i]));
        }
    }
}

/// A spell is judged by what it defends with where the AI is about to die, and
/// by what it closes with where an opponent is; both add up.
pub proof fn law_both_sides_add_up(ctx: PolicyContext<'_>, facts: CastFacts)
    requires
        context::facts_of(ctx) == Some(facts),
        ctx.candidate.action is CastSpell || ctx.candidate.action is ActivateAbility,
    ensures
        ({
            let (defends, closes) = (
                ai_critical(*ctx.state, ctx.ai_player),
                opponent_critical(*ctx.state, ctx.ai_player),
            );
            let worth = LifeTotalResourcePolicy.ruling(ctx).worth();
            &&& defends && !closes ==> worth == Some(defensive_value(ctx, facts))
            &&& !defends && closes ==> worth == Some(closing_value(facts))
            &&& defends && closes ==> worth == Some(
                defensive_value(ctx, facts) + closing_value(facts),
            )
        }),
{
}

/// Nothing but spells and abilities whose facts are known is judged.
pub proof fn law_only_spells_are_judged(ctx: PolicyContext<'_>)
    ensures
        context::facts_of(ctx) is None || !(ctx.candidate.action is CastSpell
            || ctx.candidate.action is ActivateAbility) ==> LifeTotalResourcePolicy.ruling(
            ctx,
        ).worth() == Some(0int),
{
}

/// A creature at least as tough as it is strong draws the defensive bonus; one
/// that is stronger, with a toughness of one or less and neither flight nor
/// menace, the penalty; removal adds four tenths to either.
pub proof fn law_defense_wants_toughness(ctx: PolicyContext<'_>, facts: CastFacts)
    ensures
        ({
            let o = facts.object;
            let power = match o.power {
                Some(n) => n as int,
                None => 0,
            };
            let toughness = match o.toughness {
                Some(n) => n as int,
                None => 0,
            };
            let creature = o.core_types@.contains(CoreType::Creature);
            let evades = o.keywords@.contains(Keyword::Flying) || o.keywords@.contains(
                Keyword::Menace,
            );
            let body = defensive_value(ctx, facts) - (if facts.profile.has_direct_removal_text {
                400_000int
            } else {
                0
            });
            let p = ctx.config.policy_penalties;
            &&& creature && toughness >= power ==> body == p.low_life_defensive_bonus
            &&& creature && toughness < power && toughness <= 1 && !evades ==> body
                == p.low_life_aggro_penalty
            &&& creature && toughness < power && (toughness > 1 || evades) ==> body == 0
            &&& !creature ==> body == 0
        }),
{
}

/// Closing wants evasive creatures, two tenths, and burn, three tenths, and
/// not spells that only gain life, which cost two tenths.
pub proof fn law_closing_wants_evasion_and_burn(facts: CastFacts)
    ensures
        ({
            let o = facts.object;
            let creature = o.core_types@.contains(CoreType::Creature);
            let evades = o.keywords@.contains(Keyword::Flying) || o.keywords@.contains(
                Keyword::Menace,
            ) || o.keywords@.contains(Keyword::Shadow);
            let abilities = facts.primary_effects@;
            let burn = facts.profile.has_direct_removal_text && exists|i: int|
                0 <= i < abilities.len() && (#[trigger] abilities[i]).effect.kind is DealDamage;
            let only_gains = abilities.len() > 0 && forall|i: int|
                0 <= i < abilities.len() ==> (#[trigger] abilities[i]).effect.kind is GainLife;
            closing_value(facts) == (if creature && evades {
                200_000int
            } else {
                0
            }) + (if burn {
                300_000int
            } else {
                0
            }) - (if !creature && only_gains {
                200_000int
            } else {
                0
            })
        }),
{
    let a = facts.primary_effects@;
    if seqs::any(a, burns()) {
        let i = choose|i: int| 0 <= i < a.len() && burns()(#[trigger] a[i]);
        assert(a[i].effect.kind is DealDamage);
    }
    if exists|i: int| 0 <= i < a.len() && (#[trigger] a[i]).effect.kind is DealDamage {
        let i = choose|i: int| 0 <= i < a.len() && (#[trigger] a[i]).effect.kind is DealDamage;
        assert(burns()(a[i]));
    }
    if seqs::any(a, beyond_lifegain()) {
        let i = choose|i: int| 0 <= i < a.len() && beyond_lifegain()(#[trigger] a[i]);
        assert(!(a[i].effect.kind is GainLife));
    } else {
        assert forall|i: int| 0 <= i < a.len() implies (#[trigger] a[i]).effect.kind
            is GainLife by {
            assert(!beyond_lifegain()(a[i]));
        }
    }
}

/// An aggressive deck listens three tenths more than most, a controlling one
/// two tenths less.
pub proof fn law_strategies_listen_differently(archetype: DeckArchetype)
    ensures
        archetype is Aggro ==> life_total_scale(archetype) == 1_300_000,
        archetype is Control ==> life_total_scale(archetype) == 800_000,
        !(archetype is Aggro) && !(archetype is Control) ==> life_total_scale(archetype)
            == 1_000_000,
{
}

} // verus!
