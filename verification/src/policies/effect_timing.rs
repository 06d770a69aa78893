//! When effects are used.

use vstd::prelude::*;

use crate::board;
use crate::eval;
use crate::eval::{StrategicIntent, THREAT_VALUE_LIMIT};
use crate::features::DeckFeatures;
use crate::model;
use crate::model::{
    CoreType, Effect, EffectKind, GameAction, GameObject, GameState, Keyword, ObjectId, Phase,
    PlayerId, ResolvedAbility, StackEntry, TargetFilter, TargetRef, WaitingFor,
};
use crate::score;
use crate::score::{div_floor, max_score, min_score, mul_scaled};
use crate::seqs;
use crate::text::same_text;

use super::activation;
use super::activation::turn_only;
use super::context;
use super::context::{any_effect, collect_ability_effects, PolicyContext};
use super::registry;
use super::registry::{
    DecisionKind, PolicyId, PolicyReason, PolicyVerdict, Ruling, TacticalPolicy,
};
use super::strategy_helpers;
use super::strategy_helpers::{
    targetable_threat_value, untapped_opponent_blocker_value, visible_opponent_creature_value,
};

verus! {

/// Scores an action by its shape and phase, and each of its effects by whether
/// now is the time for it.
#[derive(Debug)]
pub struct EffectTimingPolicy;

// ---------------------------------------------------------------------------
// The shape of the action
// ---------------------------------------------------------------------------

/// Whether a text is the name of the Aura subtype.
pub open spec fn aura() -> spec_fn(String) -> bool {
    |s: String| s@ == "Aura"@
}

/// Whether an object had better be cast before combat.
pub open spec fn before_combat(o: GameObject) -> bool {
    o.has_type(CoreType::Creature) || seqs::any(o.subtypes@, aura())
}

/// What the shape of a spell or ability is worth in the current phase.
pub open spec fn shape_value(ctx: PolicyContext<'_>, o: GameObject) -> int {
    let first_main = ctx.state.phase == Phase::PreCombatMain;
    let second_main = ctx.state.phase == Phase::PostCombatMain;
    let (removes, draws) = match context::profile_of(ctx) {
        Some(p) => (p.has_direct_removal_text, p.has_draw),
        None => (false, false),
    };
    eval::when(
        before_combat(o),
        if first_main {
            350_000
        } else {
            100_000
        },
    ) + eval::when(
        first_main && o.has(Keyword::Haste) && o.has_type(CoreType::Creature),
        200_000,
    ) + eval::when(
        first_main && removes && strategy_helpers::worst_threat(
            *ctx.state,
            ctx.ai_player,
            strategy_helpers::untapped(*ctx.state),
        ) > 0,
        200_000,
    ) + eval::when(second_main && draws, 150_000)
}

/// What the shape of an action is worth.
pub open spec fn shape_score(ctx: PolicyContext<'_>) -> int {
    match ctx.candidate.action {
        GameAction::PlayLand { .. } => 1_000_000,
        GameAction::CastSpell { .. } => match context::source_of(ctx) {
            Some(o) => shape_value(ctx, o),
            None => 0,
        },
        GameAction::ActivateAbility { .. } => match context::source_of(ctx) {
            Some(o) => shape_value(ctx, o),
            None => 0,
        },
        _ => 0,
    }
}

// ---------------------------------------------------------------------------
// Removal
// ---------------------------------------------------------------------------

/// The filter of the first effect that can only be pointed at creatures.
pub open spec fn creature_filter(effects: Seq<Effect>) -> Option<TargetFilter>
    decreases effects.len(),
{
    if effects.len() == 0 {
        None
    } else if effects[0].creature_target is Some {
        effects[0].creature_target
    } else {
        creature_filter(effects.drop_first())
    }
}

/// The worst threat that removal could answer. Removal that is not limited to
/// creatures is held against all of them.
pub open spec fn answerable_threat(ctx: PolicyContext<'_>) -> int {
    let (state, player) = (*ctx.state, ctx.ai_player);
    match (context::source_of(ctx), creature_filter(context::effects_of(ctx))) {
        (Some(_), Some(filter)) => strategy_helpers::worst_threat(
            state,
            player,
            strategy_helpers::matched(filter),
        ),
        _ => strategy_helpers::worst_threat(state, player, strategy_helpers::anything()),
    }
}

/// Whether an effect makes a creature larger for a turn.
pub open spec fn pumps() -> spec_fn(Effect) -> bool {
    |e: Effect| e.kind is Pump || e.kind is DoublePT
}

/// What somebody else has on the stack that makes a creature larger.
pub open spec fn opposing_pump(ai_player: PlayerId) -> spec_fn(StackEntry) -> bool {
    |e: StackEntry|
        e.controller != ai_player && (match e.ability {
            Some(a) => seqs::any(context::resolved_effects(a), pumps()),
            None => false,
        })
}

/// What using removal now is worth.
pub open spec fn removal_value(ctx: PolicyContext<'_>) -> int {
    300_000 + score::lesser(answerable_threat(ctx) / 25, 800_000) + eval::when(
        eval::intent(*ctx.state, ctx.ai_player) == StrategicIntent::Stabilize,
        250_000,
    ) + eval::when(seqs::any(ctx.state.stack@, opposing_pump(ctx.ai_player)), 500_000)
}

/// What using burn now is worth: it may also close the game.
pub open spec fn burn_value(ctx: PolicyContext<'_>) -> int {
    removal_value(ctx) + eval::when(
        eval::intent(*ctx.state, ctx.ai_player) == StrategicIntent::PushLethal,
        350_000,
    )
}

// ---------------------------------------------------------------------------
// Counterspells
// ---------------------------------------------------------------------------

/// What somebody else has on the stack that is a creature.
pub open spec fn opposing_creature_spell(
    state: GameState,
    ai_player: PlayerId,
) -> spec_fn(StackEntry) -> bool {
    |e: StackEntry|
        e.controller != ai_player && (match state.obj(e.source_id) {
            Some(o) => o.has_type(CoreType::Creature),
            None => false,
        })
}

/// The creatures of everybody else.
pub open spec fn creature_of_others(ai_player: PlayerId) -> spec_fn(GameObject) -> bool {
    |o: GameObject| o.controller != ai_player && o.has_type(CoreType::Creature)
}

/// How urgent it is to counter a creature: the more so the more there are.
pub open spec fn creature_urgency(ctx: PolicyContext<'_>) -> int {
    eval::when(
        seqs::any(ctx.state.stack@, opposing_creature_spell(*ctx.state, ctx.ai_player)),
        300_000 + 100_000 * score::lesser(
            board::count(
                *ctx.state,
                ctx.state.battlefield@,
                creature_of_others(ctx.ai_player),
            ) as int,
            3,
        ),
    )
}

/// What there is on the stack to counter.
pub open spec fn stack_pressure(ctx: PolicyContext<'_>) -> int {
    eval::when(
        ctx.state.stack@.len() > 0,
        score::scaled(800_000, ctx.config.interaction_patience as int) + (match eval::intent(
            *ctx.state,
            ctx.ai_player,
        ) {
            StrategicIntent::PreserveAdvantage => 150_000,
            StrategicIntent::Stabilize => 200_000,
            _ => 0int,
        }) + creature_urgency(ctx),
    )
}

/// Whether an effect counters something.
pub open spec fn counters() -> spec_fn(Effect) -> bool {
    |e: Effect| e.kind is Counter
}

/// The first entry of the stack with the given id.
pub open spec fn find_entry(stack: Seq<StackEntry>, id: ObjectId) -> Option<StackEntry>
    decreases stack.len(),
{
    if stack.len() == 0 {
        None
    } else if stack[0].id == id {
        Some(stack[0])
    } else {
        find_entry(stack.drop_first(), id)
    }
}

/// How much a target is worth as a spell of the AI's own.
pub open spec fn own_spell_value(
    stack: Seq<StackEntry>,
    ai_player: PlayerId,
) -> spec_fn(TargetRef) -> int {
    |t: TargetRef|
        match t {
            TargetRef::Object(id) => match find_entry(stack, id) {
                Some(e) => if e.controller == ai_player {
                    e.impact as int
                } else {
                    0
                },
                None => 0,
            },
            TargetRef::Player(_) => 0,
        }
}

/// How much the best spell of the AI is worth that somebody else is countering.
pub open spec fn threatened_value(
    stack: Seq<StackEntry>,
    ai_player: PlayerId,
) -> spec_fn(StackEntry) -> int {
    |e: StackEntry|
        match e.ability {
            Some(a) => if e.controller != ai_player && seqs::any(
                context::resolved_effects(a),
                counters(),
            ) {
                seqs::largest(a.targets@, 0, own_spell_value(stack, ai_player))
            } else {
                0
            },
            None => 0,
        }
}

/// How much the best spell of the AI is worth that somebody else is countering.
pub open spec fn threatened_own_spell(state: GameState, ai_player: PlayerId) -> int {
    seqs::largest(state.stack@, 0, threatened_value(state.stack@, ai_player))
}

/// What using a counterspell now is worth. On the AI's own turn, and with
/// nothing to counter, it is better kept, unless a spell of its own needs it.
pub open spec fn counterspell_value(ctx: PolicyContext<'_>) -> int {
    let own_turn = ctx.state.turn_decision_maker == ctx.ai_player;
    let there = stack_pressure(ctx);
    let protects = score::scaled(
        threatened_own_spell(*ctx.state, ctx.ai_player),
        ctx.config.policy_penalties.protect_spell_bonus_mult as int,
    );
    if !(ctx.decision.waiting_for is Priority) || (!own_turn && there > 0) {
        there + protects
    } else if protects > 0 {
        protects
    } else {
        score::scaled(-600_000, ctx.config.interaction_patience as int)
    }
}

// ---------------------------------------------------------------------------
// Combat tricks
// ---------------------------------------------------------------------------

/// What using a combat trick now is worth. What it does ends with the turn, so
/// that outside combat it does nothing.
pub open spec fn trick_value(ctx: PolicyContext<'_>) -> int {
    let patience = ctx.config.interaction_patience as int;
    let main = ctx.state.phase == Phase::PreCombatMain || ctx.state.phase
        == Phase::PostCombatMain;
    match ctx.state.phase {
        Phase::End | Phase::Cleanup | Phase::Untap | Phase::Upkeep | Phase::Draw => -2_000_000,
        Phase::BeginCombat
        | Phase::DeclareAttackers
        | Phase::DeclareBlockers
        | Phase::CombatDamage => score::scaled(800_000, score::greater(patience, 500_000)) + (
        match eval::intent(*ctx.state, ctx.ai_player) {
            StrategicIntent::PushLethal => 200_000,
            StrategicIntent::PreserveAdvantage => 100_000,
            _ => 0int,
        }),
        _ => if main && !ctx.state.in_combat {
            -2_000_000
        } else {
            score::scaled(-500_000, patience)
        },
    }
}

// ---------------------------------------------------------------------------
// All together
// ---------------------------------------------------------------------------

/// What using an effect now is worth.
pub open spec fn effect_value(ctx: PolicyContext<'_>) -> spec_fn(Effect) -> int {
    |e: Effect|
        match e.kind {
            EffectKind::Destroy => removal_value(ctx),
            EffectKind::DealDamage => burn_value(ctx),
            EffectKind::Counter => counterspell_value(ctx),
            EffectKind::Pump => trick_value(ctx),
            EffectKind::DoublePT => trick_value(ctx),
            _ => 0,
        }
}

/// What the policy adds to a candidate.
pub open spec fn timing_score(ctx: PolicyContext<'_>) -> int {
    shape_score(ctx) + seqs::sum(context::effects_of(ctx), effect_value(ctx))
}

/// A combat trick is never welcome outside combat, for a seat whose patience
/// is not negative.
pub proof fn law_tricks_are_for_combat(ctx: PolicyContext<'_>)
    requires
        ctx.config.interaction_patience >= 0,
        !(ctx.state.phase is BeginCombat),
        !(ctx.state.phase is DeclareAttackers),
        !(ctx.state.phase is DeclareBlockers),
        !(ctx.state.phase is CombatDamage),
    ensures
        trick_value(ctx) <= 0,
{
}

/// With nothing on the stack a counterspell is never welcome at priority, for
/// a seat whose patience is not negative.
pub proof fn law_counterspells_wait_for_a_spell(ctx: PolicyContext<'_>)
    requires
        ctx.config.interaction_patience >= 0,
        ctx.decision.waiting_for is Priority,
        ctx.state.stack@.len() == 0,
    ensures
        counterspell_value(ctx) <= 0,
{
    assert(threatened_own_spell(*ctx.state, ctx.ai_player) == 0);
    let mult = ctx.config.policy_penalties.protect_spell_bonus_mult as int;
    assert(0int * mult == 0) by (nonlinear_arith);
}

/// Burn is worth at least what other removal is.
pub proof fn law_burn_is_at_least_removal(ctx: PolicyContext<'_>)
    ensures
        burn_value(ctx) >= removal_value(ctx),
{
}

/// Whether an object had better be cast before combat.
fn is_pre_combat_preferred(o: &GameObject) -> (r: bool)
    ensures
        r == before_combat(*o),
{
    let is_aura = |s: &String| -> (b: bool)
        ensures
            b == aura()(*s),
        { same_text(s.as_str(), "Aura") };
    o.is_type(CoreType::Creature) || seqs::any_of(&o.subtypes, is_aura, Ghost(aura()))
}

/// What the shape of a spell or ability is worth.
fn score_source_shape(ctx: &PolicyContext<'_>, object: &GameObject) -> (r: i128)
    requires
        ctx.valid(),
    ensures
        r == shape_value(*ctx, *object),
        0 <= r <= 1_000_000,
{
    let first_main: bool = ctx.state.phase == Phase::PreCombatMain;
    let second_main: bool = ctx.state.phase == Phase::PostCombatMain;
    let (removes, draws): (bool, bool) = match ctx.effect_profile() {
        Some(p) => (p.has_direct_removal_text, p.has_draw),
        None => (false, false),
    };
    let mut score: i128 = 0;
    if is_pre_combat_preferred(object) {
        score += if first_main {
            350_000
        } else {
            100_000
        };
    }
    if first_main && object.has_keyword(Keyword::Haste) && object.is_type(CoreType::Creature) {
        score += 200_000;
    }
    if first_main && removes && untapped_opponent_blocker_value(ctx.state, ctx.ai_player) > 0 {
        score += 200_000;
    }
    if second_main && draws {
        score += 150_000;
    }
    score
}

/// What the shape of an action is worth.
fn score_action_shape(ctx: &PolicyContext<'_>) -> (r: i128)
    requires
        ctx.valid(),
    ensures
        r == shape_score(*ctx),
        0 <= r <= 1_000_000,
{
    match &ctx.candidate.action {
        GameAction::PlayLand { .. } => 1_000_000,
        GameAction::CastSpell { .. } | GameAction::ActivateAbility { .. } => {
            match ctx.source_object() {
                Some(object) => score_source_shape(ctx, object),
                None => 0,
            }
        },
        _ => 0,
    }
}

/// The filter of the first effect that can only be pointed at creatures.
fn first_creature_filter<'b>(effects: &Vec<&'b Effect>) -> (r: Option<&'b TargetFilter>)
    ensures
        model::deref_opt(r) == creature_filter(context::values(effects@)),
{
    let ghost s = context::values(effects@);
    let mut i: usize = 0;
    assert(s.skip(0) =~= s);
    while i < effects.len()
        invariant
            s == context::values(effects@),
            i <= s.len(),
            creature_filter(s.skip(i as int)) == creature_filter(s),
        decreases s.len() - i,
    {
        assert(s.skip(i as int).drop_first() =~= s.skip(i + 1));
        assert(s.skip(i as int)[0] == *effects@[i as int]);
        let e: &'b Effect = effects[i];
        if let Some(filter) = &e.creature_target {
            return Some(filter);
        }
        i += 1;
    }
    None
}

/// The worst threat that removal could answer.
fn max_threat(ctx: &PolicyContext<'_>) -> (r: i128)
    requires
        ctx.valid(),
    ensures
        r == answerable_threat(*ctx),
        0 <= r <= THREAT_VALUE_LIMIT,
{
    if ctx.source_object().is_some() {
        if let Some(filter) = first_creature_filter(&ctx.effects()) {
            return targetable_threat_value(ctx.state, ctx.ai_player, filter);
        }
    }
    visible_opponent_creature_value(ctx.state, ctx.ai_player)
}

/// Whether somebody else has something on the stack that makes a creature
/// larger.
fn opponent_pumps(ctx: &PolicyContext<'_>) -> (r: bool)
    ensures
        r == seqs::any(ctx.state.stack@, opposing_pump(ctx.ai_player)),
{
    let ai_player = ctx.ai_player;
    let accepts = |e: &StackEntry| -> (b: bool)
        ensures
            b == opposing_pump(ai_player)(*e),
        {
            let is_pump = |e: &Effect| -> (p: bool)
                ensures
                    p == pumps()(*e),
                { matches!(e.kind, EffectKind::Pump | EffectKind::DoublePT) };
            e.controller != ai_player && (match &e.ability {
                Some(a) => any_effect(&collect_ability_effects(a), is_pump, Ghost(pumps())),
                None => false,
            })
        };
    seqs::any_of(&ctx.state.stack, accepts, Ghost(opposing_pump(ai_player)))
}

/// What using removal now is worth.
fn removal_score(ctx: &PolicyContext<'_>) -> (r: i128)
    requires
        ctx.valid(),
    ensures
        r == removal_value(*ctx),
        0 <= r <= 1_850_000,
{
    let threat: i128 = max_threat(ctx);
    let mut score: i128 = 300_000 + min_score(div_floor(threat, 25), 800_000);
    if ctx.strategic_intent() == StrategicIntent::Stabilize {
        score += 250_000;
    }
    if opponent_pumps(ctx) {
        score += 500_000;
    }
    score
}

/// What using burn now is worth.
fn burn_score(ctx: &PolicyContext<'_>) -> (r: i128)
    requires
        ctx.valid(),
    ensures
        r == burn_value(*ctx),
        0 <= r <= 2_200_000,
{
    let lethal_bias: i128 = if ctx.strategic_intent() == StrategicIntent::PushLethal {
        350_000
    } else {
        0
    };
    removal_score(ctx) + lethal_bias
}

/// How urgent it is to counter a creature.
fn score_creature_urgency(ctx: &PolicyContext<'_>) -> (r: i128)
    ensures
        r == creature_urgency(*ctx),
        0 <= r <= 600_000,
{
    let ai_player = ctx.ai_player;
    let on_stack = |e: &StackEntry| -> (b: bool)
        ensures
            b == opposing_creature_spell(*ctx.state, ai_player)(*e),
        {
            e.controller != ai_player && (match ctx.state.object(e.source_id) {
                Some(o) => o.is_type(CoreType::Creature),
                None => false,
            })
        };
    if !seqs::any_of(
        &ctx.state.stack,
        on_stack,
        Ghost(opposing_creature_spell(*ctx.state, ai_player)),
    ) {
        return 0;
    }
    let others = |o: &GameObject| -> (b: bool)
        ensures
            b == creature_of_others(ai_player)(*o),
        { o.controller != ai_player && o.is_type(CoreType::Creature) };
    let count: usize = board::count_where(
        ctx.state,
        &ctx.state.battlefield,
        others,
        Ghost(creature_of_others(ai_player)),
    );
    300_000 + 100_000 * min_score(count as i128, 3)
}

/// What there is on the stack to counter.
fn score_stack_pressure(ctx: &PolicyContext<'_>) -> (r: i128)
    requires
        ctx.valid(),
    ensures
        r == stack_pressure(*ctx),
        -0x1_0000_0000 <= r <= 0x1_0000_0000,
{
    if ctx.state.stack.len() == 0 {
        return 0;
    }
    let intent_bonus: i128 = match ctx.strategic_intent() {
        StrategicIntent::PreserveAdvantage => 150_000,
        StrategicIntent::Stabilize => 200_000,
        _ => 0,
    };
    mul_scaled(800_000, ctx.config.interaction_patience as i128) + intent_bonus
        + score_creature_urgency(ctx)
}

/// The first entry of the stack with the given id.
fn entry_with_id<'b>(stack: &'b Vec<StackEntry>, id: ObjectId) -> (r: Option<&'b StackEntry>)
    ensures
        model::deref_opt(r) == find_entry(stack@, id),
{
    let mut i: usize = 0;
    assert(stack@.skip(0) =~= stack@);
    while i < stack.len()
        invariant
            i <= stack@.len(),
            find_entry(stack@.skip(i as int), id) == find_entry(stack@, id),
        decreases stack@.len() - i,
    {
        assert(stack@.skip(i as int).drop_first() =~= stack@.skip(i + 1));
        if stack[i].id == id {
            return Some(&stack[i]);
        }
        i += 1;
    }
    None
}

/// How much the best spell of the AI is worth among the targets of a
/// counterspell.
fn best_own_target(
    stack: &Vec<StackEntry>,
    ai_player: PlayerId,
    ability: &ResolvedAbility,
) -> (r: i32)
    ensures
        r == seqs::largest(ability.targets@, 0, own_spell_value(stack@, ai_player)),
        r >= 0,
{
    let targets = &ability.targets;
    let ghost f = own_spell_value(stack@, ai_player);
    let mut best: i32 = 0;
    let mut i: usize = 0;
    while i < targets.len()
        invariant
            f == own_spell_value(stack@, ai_player),
            i <= targets@.len(),
            best >= 0,
            best == seqs::largest(targets@.take(i as int), 0, f),
        decreases targets@.len() - i,
    {
        proof {
            seqs::lemma_largest_step(targets@, i as int, 0, f);
        }
        if let TargetRef::Object(id) = targets[i] {
            if let Some(threatened) = entry_with_id(stack, id) {
                if threatened.controller == ai_player && threatened.impact > best {
                    best = threatened.impact;
                }
            }
        }
        i += 1;
    }
    assert(targets@.take(targets@.len() as int) =~= targets@);
    best
}

/// How much the best spell of the AI is worth that somebody else is countering.
fn threatened_own_spell_value(state: &GameState, ai_player: PlayerId) -> (r: i32)
    ensures
        r == threatened_own_spell(*state, ai_player),
        r >= 0,
{
    let stack = &state.stack;
    let ghost f = threatened_value(stack@, ai_player);
    let mut best: i32 = 0;
    let mut i: usize = 0;
    while i < stack.len()
        invariant
            f == threatened_value(stack@, ai_player),
            i <= stack@.len(),
            best >= 0,
            best == seqs::largest(stack@.take(i as int), 0, f),
        decreases stack@.len() - i,
    {
        proof {
            seqs::lemma_largest_step(stack@, i as int, 0, f);
        }
        if let Some(ability) = &stack[i].ability {
            let is_counter = |e: &Effect| -> (b: bool)
                ensures
                    b == counters()(*e),
                { matches!(e.kind, EffectKind::Counter) };
            if stack[i].controller != ai_player && any_effect(
                &collect_ability_effects(ability),
                is_counter,
                Ghost(counters()),
            ) {
                let value: i32 = best_own_target(stack, ai_player, ability);
                if value > best {
                    best = value;
                }
            }
        }
        i += 1;
    }
    assert(stack@.take(stack@.len() as int) =~= stack@);
    best
}

/// What using a counterspell now is worth.
fn counterspell_score(ctx: &PolicyContext<'_>) -> (r: i128)
    requires
        ctx.valid(),
    ensures
        r == counterspell_value(*ctx),
        -0x4000_0000_0000_0000 <= r <= 0x4000_0000_0000_0000,
{
    let is_own_turn: bool = ctx.state.turn_decision_maker == ctx.ai_player;
    let there: i128 = score_stack_pressure(ctx);
    let value: i128 = threatened_own_spell_value(ctx.state, ctx.ai_player) as i128;
    let mult: i128 = ctx.penalties().protect_spell_bonus_mult as i128;
    proof {
        score::lemma_product_bound(value as int, mult as int, 0x7fff_ffff, 0x8000_0000);
        score::lemma_quotient_bound(value * mult, 1_000_000, 0x4000_0000_0000_0000);
    }
    let protect_bonus: i128 = mul_scaled(value, mult);
    let at_priority: bool = matches!(ctx.decision.waiting_for, WaitingFor::Priority { .. });
    if !at_priority || (!is_own_turn && there > 0) {
        there + protect_bonus
    } else if protect_bonus > 0 {
        protect_bonus
    } else {
        mul_scaled(-600_000, ctx.config.interaction_patience as i128)
    }
}

/// What using a combat trick now is worth.
pub fn combat_trick_score(ctx: &PolicyContext<'_>) -> (r: i128)
    requires
        ctx.valid(),
    ensures
        r == trick_value(*ctx),
        -0x1_0000_0000 <= r <= 0x1_0000_0000,
{
    let patience: i128 = ctx.config.interaction_patience as i128;
    match ctx.state.phase {
        Phase::End | Phase::Cleanup | Phase::Untap | Phase::Upkeep | Phase::Draw => -2_000_000,
        Phase::BeginCombat
        | Phase::DeclareAttackers
        | Phase::DeclareBlockers
        | Phase::CombatDamage => {
            let intent_bonus: i128 = match ctx.strategic_intent() {
                StrategicIntent::PushLethal => 200_000,
                StrategicIntent::PreserveAdvantage => 100_000,
                _ => 0,
            };
            mul_scaled(800_000, max_score(patience, 500_000)) + intent_bonus
        },
        Phase::PreCombatMain | Phase::PostCombatMain => {
            if !ctx.state.in_combat {
                -2_000_000
            } else {
                mul_scaled(-500_000, patience)
            }
        },
        _ => mul_scaled(-500_000, patience),
    }
}

/// What using an effect now is worth.
fn score_effect(ctx: &PolicyContext<'_>, effect: &Effect) -> (r: i128)
    requires
        ctx.valid(),
    ensures
        r == effect_value(*ctx)(*effect),
        -0x4000_0000_0000_0000 <= r <= 0x4000_0000_0000_0000,
{
    match &effect.kind {
        EffectKind::Destroy => removal_score(ctx),
        EffectKind::DealDamage => burn_score(ctx),
        EffectKind::Counter => counterspell_score(ctx),
        EffectKind::Pump | EffectKind::DoublePT => combat_trick_score(ctx),
        _ => 0,
    }
}

impl EffectTimingPolicy {
    /// What the policy adds to a candidate.
    pub fn score(&self, ctx: &PolicyContext<'_>) -> (r: i128)
        requires
            ctx.valid(),
        ensures
            r == timing_score(*ctx),
    {
        let effects = ctx.effects();
        let ghost s = context::values(effects@);
        let ghost f = effect_value(*ctx);
        let shape: i128 = score_action_shape(ctx);
        let mut total: i128 = 0;
        let mut i: usize = 0;
        while i < effects.len()
            invariant
                ctx.valid(),
                s == context::values(effects@),
                f == effect_value(*ctx),
                i <= s.len(),
                -0x4000_0000_0000_0000 * i <= total <= 0x4000_0000_0000_0000 * i,
                total == seqs::sum(s.take(i as int), f),
            decreases s.len() - i,
        {
            proof {
                seqs::lemma_sum_step(s, i as int, f);
            }
            total += score_effect(ctx, effects[i]);
            i += 1;
        }
        assert(s.take(s.len() as int) =~= s);
        shape + total
    }
}

impl TacticalPolicy for EffectTimingPolicy {
    open spec fn identity(&self) -> PolicyId {
        PolicyId::EffectTiming
    }

    open spec fn kinds(&self) -> Seq<DecisionKind> {
        seq![
            DecisionKind::PlayLand,
            DecisionKind::CastSpell,
            DecisionKind::ActivateAbility,
        ]
    }

    open spec fn weight(&self, features: DeckFeatures, state: GameState) -> Option<int> {
        activation::by_turn(features)
    }

    open spec fn ruling(&self, ctx: PolicyContext<'_>) -> Ruling {
        registry::scores(timing_score(ctx), registry::because("effect_timing_score"@))
    }

    fn id(&self) -> PolicyId {
        PolicyId::EffectTiming
    }

    fn decision_kinds(&self) -> Vec<DecisionKind> {
        vec![
            DecisionKind::PlayLand,
            DecisionKind::CastSpell,
            DecisionKind::ActivateAbility,
        ]
    }

    fn activation(
        &self,
        features: &DeckFeatures,
        _state: &GameState,
        _player: PlayerId,
    ) -> Option<i128> {
        turn_only(features)
    }

    fn verdict(&self, ctx: &PolicyContext<'_>) -> PolicyVerdict {
        PolicyVerdict::Score {
            delta: self.score(ctx),
            reason: PolicyReason::new("effect_timing_score"),
        }
    }
}

// ---------------------------------------------------------------------------
// What timing promises
// ---------------------------------------------------------------------------

/// A land drop is worth one card, whatever the phase, and its effects on top.
pub proof fn law_land_drop_is_worth_a_card(ctx: PolicyContext<'_>)
    ensures
        ctx.candidate.action is PlayLand ==> shape_score(ctx) == 1_000_000,
        !(ctx.candidate.action is PlayLand) && !(ctx.candidate.action is CastSpell)
            && !(ctx.candidate.action is ActivateAbility) ==> shape_score(ctx) == 0,
{
}

/// The shape of a spell or ability: a creature or an aura is worth more before
/// combat than after, haste and removal of a blocker add to it there, and
/// drawing cards counts after combat.
pub proof fn law_shape_follows_the_phase(ctx: PolicyContext<'_>, o: GameObject)
    requires
        ctx.candidate.action is CastSpell || ctx.candidate.action is ActivateAbility,
        context::source_of(ctx) == Some(o),
    ensures
        ({
            let creature = o.core_types@.contains(CoreType::Creature);
            let on_board = creature || exists|i: int|
                0 <= i < o.subtypes@.len() && (#[trigger] o.subtypes@[i])@ == "Aura"@;
            let first = ctx.state.phase is PreCombatMain;
            let second = ctx.state.phase is PostCombatMain;
            let removes = context::profile_of(ctx) matches Some(p) && p.has_direct_removal_text;
            let draws = context::profile_of(ctx) matches Some(p) && p.has_draw;
            let blockers = strategy_helpers::worst_threat(
                *ctx.state,
                ctx.ai_player,
                strategy_helpers::untapped(*ctx.state),
            ) > 0;
            shape_score(ctx) == (if on_board && first {
                350_000int
            } else if on_board {
                100_000int
            } else {
                0
            }) + (if first && creature && o.keywords@.contains(Keyword::Haste) {
                200_000int
            } else {
                0
            }) + (if first && removes && blockers {
                200_000int
            } else {
                0
            }) + (if second && draws {
                150_000int
            } else {
                0
            })
        }),
{
    let s = o.subtypes@;
    if seqs::any(s, aura()) {
        let i = choose|i: int| 0 <= i < s.len() && aura()(#[trigger] s[i]);
        assert(s[i]@ == "Aura"@);
    }
    if exists|i: int| 0 <= i < s.len() && (#[trigger] s[i])@ == "Aura"@ {
        let i = choose|i: int| 0 <= i < s.len() && (#[trigger] s[i])@ == "Aura"@;
        assert(aura()(s[i]));
    }
}

/// The first effect that can only be pointed at creatures gives the filter.
pub proof fn law_creature_filter_is_the_first(effects: Seq<Effect>, n: int)
    requires
        0 <= n <= effects.len(),
        forall|i: int| 0 <= i < n ==> (#[trigger] effects[i]).creature_target is None,
    ensures
        n < effects.len() && effects[n].creature_target is Some ==> creature_filter(effects)
            == effects[n].creature_target,
        n == effects.len() ==> creature_filter(effects) is None,
    decreases n,
{
    if n > 0 {
        let rest = effects.drop_first();
        assert(effects[0].creature_target is None);
        assert forall|i: int| 0 <= i < n - 1 implies (#[trigger] rest[i]).creature_target
            is None by {
            assert(rest[i] == effects[i + 1]);
        }
        law_creature_filter_is_the_first(rest, n - 1);
    }
}

/// Removal is worth three tenths and a twenty-fifth of the worst threat that it
/// could answer, up to eight tenths of it; a quarter more where the AI must
/// stabilize, and a half where somebody is making a creature larger in
/// response. Burn is worth thirty-five hundredths more where it may close the
/// game.
pub proof fn law_removal_grows_with_the_threat(ctx: PolicyContext<'_>)
    ensures
        ({
            let threat = answerable_threat(ctx);
            let asked = eval::intent(*ctx.state, ctx.ai_player);
            let pumped = exists|i: int|
                0 <= i < ctx.state.stack@.len() && makes_larger(
                    ctx.ai_player,
                    #[trigger] ctx.state.stack@[i],
                );
            let answer = removal_value(ctx) - 300_000 - (if asked is Stabilize {
                250_000int
            } else {
                0
            }) - (if pumped {
                500_000int
            } else {
                0
            });
            &&& threat <= 20_000_000 ==> 25 * answer <= threat < 25 * (answer + 1)
            &&& threat >= 20_000_000 ==> answer == 800_000
            &&& burn_value(ctx) - removal_value(ctx) == (if asked is PushLethal {
                350_000int
            } else {
                0
            })
        }),
{
    let stack = ctx.state.stack@;
    let q = opposing_pump(ctx.ai_player);
    assert forall|i: int| 0 <= i < stack.len() implies q(#[trigger] stack[i]) == makes_larger(
        ctx.ai_player,
        stack[i],
    ) by {
        lemma_makes_larger(ctx.ai_player, stack[i]);
    }
    if seqs::any(stack, q) {
        let i = choose|i: int| 0 <= i < stack.len() && q(#[trigger] stack[i]);
        assert(makes_larger(ctx.ai_player, stack[i]));
    }
    if exists|i: int| 0 <= i < stack.len() && makes_larger(ctx.ai_player, #[trigger] stack[i]) {
        let i = choose|i: int|
            0 <= i < stack.len() && makes_larger(ctx.ai_player, #[trigger] stack[i]);
        assert(q(stack[i]));
    }
}

/// Whether an entry of somebody else makes a creature larger.
pub open spec fn makes_larger(ai_player: PlayerId, e: StackEntry) -> bool {
    e.controller != ai_player && e.ability is Some && exists|i: int|
        0 <= i < context::resolved_effects(e.ability->Some_0).len() && (
        (#[trigger] context::resolved_effects(e.ability->Some_0)[i]).kind is Pump
            || context::resolved_effects(e.ability->Some_0)[i].kind is DoublePT)
}

proof fn lemma_makes_larger(ai_player: PlayerId, e: StackEntry)
    ensures
        opposing_pump(ai_player)(e) == makes_larger(ai_player, e),
{
    if let Some(a) = e.ability {
        let effects = context::resolved_effects(a);
        if seqs::any(effects, pumps()) {
            let i = choose|i: int| 0 <= i < effects.len() && pumps()(#[trigger] effects[i]);
            assert(effects[i].kind is Pump || effects[i].kind is DoublePT);
        }
        if exists|i: int|
            0 <= i < effects.len() && ((#[trigger] effects[i]).kind is Pump || effects[i].kind
                is DoublePT) {
            let i = choose|i: int|
                0 <= i < effects.len() && ((#[trigger] effects[i]).kind is Pump || effects[i].kind
                    is DoublePT);
            assert(pumps()(effects[i]));
        }
    }
}

/// The threat that removal could answer is that of the creatures its filter
/// matches, or of all of them where it has a source but no such filter, or no
/// source.
pub proof fn law_removal_answers_what_it_may_hit(ctx: PolicyContext<'_>)
    ensures
        match (context::source_of(ctx), creature_filter(context::effects_of(ctx))) {
            (Some(_), Some(filter)) => answerable_threat(ctx) == strategy_helpers::worst_threat(
                *ctx.state,
                ctx.ai_player,
                |id: ObjectId| filter.matching_objects@.contains(id),
            ),
            _ => answerable_threat(ctx) == strategy_helpers::worst_threat(
                *ctx.state,
                ctx.ai_player,
                |id: ObjectId| true,
            ),
        },
{
    assert(strategy_helpers::anything() =~= (|id: ObjectId| true));
    if let Some(filter) = creature_filter(context::effects_of(ctx)) {
        assert(strategy_helpers::matched(filter) =~= (|id: ObjectId|
            filter.matching_objects@.contains(id)));
    }
}

/// Countering a creature is urgent where somebody else has one on the stack:
/// three tenths, and one tenth for each of up to three creatures of others.
pub proof fn law_creature_spells_are_urgent(ctx: PolicyContext<'_>)
    ensures
        ({
            let others = board::count(
                *ctx.state,
                ctx.state.battlefield@,
                |o: GameObject|
                    o.controller != ctx.ai_player && o.core_types@.contains(CoreType::Creature),
            );
            let there = exists|i: int|
                0 <= i < ctx.state.stack@.len() && (
                #[trigger] ctx.state.stack@[i]).controller != ctx.ai_player && (
                match ctx.state.obj(ctx.state.stack@[i].source_id) {
                    Some(o) => o.core_types@.contains(CoreType::Creature),
                    None => false,
                });
            &&& !there ==> creature_urgency(ctx) == 0
            &&& there && others <= 3 ==> creature_urgency(ctx) == 300_000 + 100_000 * others
            &&& there && others >= 3 ==> creature_urgency(ctx) == 600_000
        }),
{
    let stack = ctx.state.stack@;
    let q = opposing_creature_spell(*ctx.state, ctx.ai_player);
    assert(creature_of_others(ctx.ai_player) =~= (|o: GameObject|
        o.controller != ctx.ai_player && o.core_types@.contains(CoreType::Creature)));
    if seqs::any(stack, q) {
        let i = choose|i: int| 0 <= i < stack.len() && q(#[trigger] stack[i]);
        assert(stack[i].controller != ctx.ai_player);
    }
    if exists|i: int|
        0 <= i < stack.len() && (#[trigger] stack[i]).controller != ctx.ai_player && (
        match ctx.state.obj(stack[i].source_id) {
            Some(o) => o.core_types@.contains(CoreType::Creature),
            None => false,
        }) {
        let i = choose|i: int|
            0 <= i < stack.len() && (#[trigger] stack[i]).controller != ctx.ai_player && (
            match ctx.state.obj(stack[i].source_id) {
                Some(o) => o.core_types@.contains(CoreType::Creature),
                None => false,
            });
        assert(q(stack[i]));
    }
}

/// The pressure of the stack: nothing where it is empty, else eight tenths of
/// the seat's patience, something for an intent that wants to answer, and the
/// urgency of a creature spell.
pub proof fn law_stack_pressure_needs_a_stack(ctx: PolicyContext<'_>)
    ensures
        ctx.state.stack@.len() == 0 ==> stack_pressure(ctx) == 0,
        ctx.state.stack@.len() > 0 ==> ({
            let asked = eval::intent(*ctx.state, ctx.ai_player);
            let rest = stack_pressure(ctx) - creature_urgency(ctx) - (if asked
                is PreserveAdvantage {
                150_000int
            } else if asked is Stabilize {
                200_000int
            } else {
                0
            });
            5 * rest <= 4 * ctx.config.interaction_patience < 5 * (rest + 1)
        }),
{
}

/// A spell of the AI's own that is being countered is worth its impact, and
/// only such a one is worth protecting.
pub proof fn law_protected_spells_are_own(
    stack: Seq<StackEntry>,
    ai_player: PlayerId,
    t: TargetRef,
)
    ensures
        match t {
            TargetRef::Object(id) => match find_entry(stack, id) {
                Some(e) => {
                    &&& e.controller == ai_player ==> own_spell_value(stack, ai_player)(t)
                        == e.impact
                    &&& e.controller != ai_player ==> own_spell_value(stack, ai_player)(t) == 0
                },
                None => own_spell_value(stack, ai_player)(t) == 0,
            },
            TargetRef::Player(_) => own_spell_value(stack, ai_player)(t) == 0,
        },
{
}

/// An entry threatens the AI's own spells exactly where somebody else controls
/// it and it counters something; what it threatens is the best of its targets.
pub proof fn law_counters_of_others_threaten(
    stack: Seq<StackEntry>,
    ai_player: PlayerId,
    e: StackEntry,
    k: int,
)
    requires
        e.ability is Some,
        0 <= k < e.ability->Some_0.targets@.len(),
    ensures
        ({
            let ability = e.ability->Some_0;
            let counters = exists|i: int|
                0 <= i < context::resolved_effects(ability).len() && (
                #[trigger] context::resolved_effects(ability)[i]).kind is Counter;
            &&& e.controller == ai_player || !counters ==> threatened_value(stack, ai_player)(e)
                == 0
            &&& e.controller != ai_player && counters ==> threatened_value(stack, ai_player)(e)
                >= own_spell_value(stack, ai_player)(ability.targets@[k])
        }),
{
    let ability = e.ability->Some_0;
    let effects = context::resolved_effects(ability);
    seqs::lemma_largest_attained(ability.targets@, 0, own_spell_value(stack, ai_player));
    if exists|i: int| 0 <= i < effects.len() && (#[trigger] effects[i]).kind is Counter {
        let i = choose|i: int| 0 <= i < effects.len() && (#[trigger] effects[i]).kind is Counter;
        assert(counters()(effects[i]));
    }
    if seqs::any(effects, counters()) {
        let i = choose|i: int| 0 <= i < effects.len() && counters()(#[trigger] effects[i]);
        assert(effects[i].kind is Counter);
    }
}

/// Every entry of the stack that threatens an own spell counts for what is
/// threatened most.
pub proof fn law_threatened_spell_is_the_best(state: GameState, ai_player: PlayerId, k: int)
    requires
        0 <= k < state.stack@.len(),
    ensures
        threatened_own_spell(state, ai_player) >= threatened_value(state.stack@, ai_player)(
            state.stack@[k],
        ),
        threatened_own_spell(state, ai_player) >= 0,
{
    seqs::lemma_largest_attained(
        state.stack@,
        0,
        threatened_value(state.stack@, ai_player),
    );
}

/// A lookup on the stack finds an entry with the id, and nothing only where no
/// entry has it.
pub proof fn law_entry_lookup(stack: Seq<StackEntry>, id: ObjectId)
    ensures
        match find_entry(stack, id) {
            Some(e) => stack.contains(e) && e.id == id,
            None => forall|i: int| 0 <= i < stack.len() ==> (#[trigger] stack[i]).id != id,
        },
    decreases stack.len(),
{
    if stack.len() > 0 {
        assert(stack.contains(stack[0]));
        if stack[0].id != id {
            let rest = stack.drop_first();
            law_entry_lookup(rest, id);
            match find_entry(rest, id) {
                Some(e) => {
                    let k = choose|k: int| 0 <= k < rest.len() && rest[k] == e;
                    assert(stack[k + 1] == e);
                },
                None => {
                    assert forall|i: int| 0 <= i < stack.len() implies (
                    #[trigger] stack[i]).id != id by {
                        if i > 0 {
                            assert(rest[i - 1] == stack[i]);
                        }
                    }
                },
            }
        }
    }
}

/// A counterspell is used against what others put on the stack in their turn,
/// with the protection of an own spell on top; otherwise only to protect one;
/// and where there is neither it is kept, at six tenths of the patience.
pub proof fn law_counterspells_answer_or_protect(ctx: PolicyContext<'_>)
    ensures
        ({
            let there = stack_pressure(ctx);
            let mult = ctx.config.policy_penalties.protect_spell_bonus_mult as int;
            let saved = threatened_own_spell(*ctx.state, ctx.ai_player);
            let protects = (saved * mult) / 1_000_000;
            let answers = !(ctx.decision.waiting_for is Priority) || (
            ctx.state.turn_decision_maker != ctx.ai_player && there > 0);
            &&& answers ==> counterspell_value(ctx) == there + protects
            &&& !answers && protects > 0 ==> counterspell_value(ctx) == protects
            &&& !answers && protects <= 0 ==> 5 * counterspell_value(ctx) <= -3
                * ctx.config.interaction_patience < 5 * (counterspell_value(ctx) + 1)
        }),
{
}

/// A combat trick is welcome during combat, at eight tenths of the patience or
/// of one half where that is more; and wasted, at two cards, in the steps
/// around the turn and in a main phase without combat.
pub proof fn law_tricks_are_kept_for_combat(ctx: PolicyContext<'_>)
    ensures
        ({
            let fight = ctx.state.phase is BeginCombat || ctx.state.phase is DeclareAttackers
                || ctx.state.phase is DeclareBlockers || ctx.state.phase is CombatDamage;
            let idle = ctx.state.phase is End || ctx.state.phase is Cleanup || ctx.state.phase
                is Untap || ctx.state.phase is Upkeep || ctx.state.phase is Draw;
            let main = ctx.state.phase is PreCombatMain || ctx.state.phase is PostCombatMain;
            let asked = eval::intent(*ctx.state, ctx.ai_player);
            let base = trick_value(ctx) - (if asked is PushLethal {
                200_000int
            } else if asked is PreserveAdvantage {
                100_000int
            } else {
                0
            });
            let patience = ctx.config.interaction_patience as int;
            &&& fight && patience >= 500_000 ==> 5 * base <= 4 * patience < 5 * (base + 1)
            &&& fight && patience < 500_000 ==> base == 400_000
            &&& idle ==> trick_value(ctx) == -2_000_000
            &&& main && !ctx.state.in_combat ==> trick_value(ctx) == -2_000_000
            &&& (main && ctx.state.in_combat) || ctx.state.phase is EndCombat ==> 2 * trick_value(
                ctx,
            ) <= -patience < 2 * (trick_value(ctx) + 1)
        }),
{
}

/// Each effect is timed by its kind: destruction as removal, damage as burn,
/// counters as counterspells, pumps as tricks, and nothing else at all.
pub proof fn law_effects_are_timed_by_kind(ctx: PolicyContext<'_>, e: Effect)
    ensures
        e.kind is Destroy ==> effect_value(ctx)(e) == removal_value(ctx),
        e.kind is DealDamage ==> effect_value(ctx)(e) == burn_value(ctx),
        e.kind is Counter ==> effect_value(ctx)(e) == counterspell_value(ctx),
        e.kind is Pump || e.kind is DoublePT ==> effect_value(ctx)(e) == trick_value(ctx),
        !(e.kind is Destroy || e.kind is DealDamage || e.kind is Counter || e.kind is Pump
            || e.kind is DoublePT) ==> effect_value(ctx)(e) == 0,
{
}

/// The policy is worth the shape of an action and the timing of each of its
/// effects; an action with one effect is worth just these two.
pub proof fn law_timing_adds_up(ctx: PolicyContext<'_>)
    ensures
        context::effects_of(ctx).len() == 0 ==> EffectTimingPolicy.ruling(ctx).worth() == Some(
            shape_score(ctx),
        ),
        context::effects_of(ctx).len() == 1 ==> EffectTimingPolicy.ruling(ctx).worth() == Some(
            shape_score(ctx) + effect_value(ctx)(context::effects_of(ctx)[0]),
        ),
        context::effects_of(ctx).len() == 2 ==> EffectTimingPolicy.ruling(ctx).worth() == Some(
            shape_score(ctx) + effect_value(ctx)(context::effects_of(ctx)[0]) + effect_value(ctx)(
                context::effects_of(ctx)[1],
            ),
        ),
{
    let e = context::effects_of(ctx);
    let f = effect_value(ctx);
    reveal_with_fuel(seqs::sum, 3);
    if e.len() == 2 {
        assert(e.drop_last().last() == e[0]);
    }
}

/// What `combat_trick_score` and the policy's score return.
pub proof fn law_timing_scores_are_returned(
    policy: &EffectTimingPolicy,
    ctx: &PolicyContext<'_>,
    trick: i128,
    score: i128,
)
    requires
        call_ensures(combat_trick_score, (ctx,), trick),
        call_ensures(EffectTimingPolicy::score, (policy, ctx), score),
    ensures
        trick == trick_value(*ctx),
        Some(score as int) == policy.ruling(*ctx).worth(),
{
}

/// What is threatened is the impact of a spell of the AI's own that an entry of
/// somebody else is countering, unless it is nothing.
pub proof fn law_threatened_spell_is_being_countered(state: GameState, ai_player: PlayerId)
    requires
        threatened_own_spell(state, ai_player) > 0,
    ensures
        exists|k: int|
            0 <= k < state.stack@.len() && is_countering(
                state,
                ai_player,
                #[trigger] state.stack@[k],
                threatened_own_spell(state, ai_player),
            ),
{
    let stack = state.stack@;
    let f = threatened_value(stack, ai_player);
    let worst = threatened_own_spell(state, ai_player);
    seqs::lemma_largest_attained(stack, 0, f);
    let k = choose|k: int| 0 <= k < stack.len() && f(#[trigger] stack[k]) == worst;
    let targets = stack[k].ability->Some_0.targets@;
    let g = own_spell_value(stack, ai_player);
    seqs::lemma_largest_attained(targets, 0, g);
    let i = choose|i: int| 0 <= i < targets.len() && g(#[trigger] targets[i]) == worst;
    assert(is_countered(state, ai_player, targets[i], worst));
    assert(is_countering(state, ai_player, stack[k], worst));
}

/// Whether an entry of somebody else targets a spell of the AI's own with the
/// given impact.
pub open spec fn is_countering(
    state: GameState,
    ai_player: PlayerId,
    e: StackEntry,
    impact: int,
) -> bool {
    e.controller != ai_player && e.ability is Some && exists|i: int|
        0 <= i < e.ability->Some_0.targets@.len() && is_countered(
            state,
            ai_player,
            #[trigger] e.ability->Some_0.targets@[i],
            impact,
        )
}

/// Whether a target is a spell of the AI's own with the given impact.
pub open spec fn is_countered(
    state: GameState,
    ai_player: PlayerId,
    t: TargetRef,
    impact: int,
) -> bool {
    t matches TargetRef::Object(id) && (find_entry(state.stack@, id) matches Some(own)
        && own.controller == ai_player && own.impact == impact)
}

} // verus!
