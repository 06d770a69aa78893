//! When mana is accelerated.

use vstd::prelude::*;

use crate::board;
use crate::features::DeckFeatures;
use crate::model::{
    AbilityDefinition, CoreType, Effect, EffectKind, GameAction, GameObject, GameState, ObjectId,
    PlayerId,
};
use crate::seqs;

use super::context;
use super::context::{any_effect, collect_definition_effects, PolicyContext};
use super::registry;
use super::registry::{
    DecisionKind, PolicyId, PolicyReason, PolicyVerdict, Ruling, TacticalPolicy,
};
use super::strategy_helpers;
use super::strategy_helpers::count_own_lands;

verus! {

/// Below this commitment to ramp the policy is not asked, in millionths.
pub const COMMITMENT_FLOOR: i64 = 100_000;

/// Rewards ramp on the first turns, and later where it enables a threat in
/// hand; defers other spells while there is ramp to cast.
#[derive(Debug)]
pub struct RampTimingPolicy;

/// Whether an effect adds mana.
pub open spec fn adds_mana() -> spec_fn(Effect) -> bool {
    |e: Effect| e.kind is Mana
}

/// The spells that fetch a land or add mana.
pub open spec fn ramp_spell() -> spec_fn(GameObject) -> bool {
    |o: GameObject| o.is_land_fetch_spell || o.is_ritual
}

/// The cards other than lands that cost more than `threshold`.
pub open spec fn costs_more(threshold: int) -> spec_fn(GameObject) -> bool {
    |o: GameObject| !o.has_type(CoreType::Land) && o.mana_value > threshold
}

/// Whether a candidate accelerates mana.
pub open spec fn ramps(ctx: PolicyContext<'_>) -> bool {
    match ctx.candidate.action {
        GameAction::ActivateAbility { source_id, ability_index } => match ctx.state.obj(
            source_id,
        ) {
            Some(o) => ability_index < o.abilities@.len() && seqs::any(
                context::definition_effects(o.abilities@[ability_index as int]),
                adds_mana(),
            ),
            None => false,
        },
        GameAction::CastSpell { object_id, .. } => board::that(*ctx.state, ramp_spell())(object_id),
        _ => false,
    }
}

/// What the policy says of a candidate.
pub open spec fn ramp_ruling(ctx: PolicyContext<'_>) -> Ruling {
    let turn = ctx.state.turn_number as int;
    let hand = ctx.state.seat(ctx.ai_player).hand@;
    let lands = strategy_helpers::land_count(*ctx.state, ctx.ai_player) as int;
    if ramps(ctx) && turn <= 3 {
        registry::scores(2_500_000, registry::because("ramp_on_curve"@).fact("turn"@, turn))
    } else if ramps(ctx) && board::any(*ctx.state, hand, costs_more(lands + 1)) {
        registry::scores(
            1_000_000,
            registry::because("ramp_enables_threat"@).fact("turn"@, turn).fact(
                "land_count"@,
                lands,
            ),
        )
    } else if !ramps(ctx) && board::any(*ctx.state, hand, ramp_spell()) {
        registry::scores(-1_000_000, registry::because("defer_to_ramp"@))
    } else {
        registry::neutrally(registry::because("ramp_timing_na"@))
    }
}

/// Whether an ability adds mana anywhere in its chain.
fn chain_has_mana_effect(ability: &AbilityDefinition) -> (r: bool)
    ensures
        r == seqs::any(context::definition_effects(*ability), adds_mana()),
{
    let is_mana = |e: &Effect| -> (b: bool)
        ensures
            b == adds_mana()(*e),
        { matches!(e.kind, EffectKind::Mana { .. }) };
    any_effect(&collect_definition_effects(ability), is_mana, Ghost(adds_mana()))
}

/// Whether a candidate accelerates mana.
fn is_ramp_shaped_action(ctx: &PolicyContext<'_>) -> (r: bool)
    ensures
        r == ramps(*ctx),
{
    match &ctx.candidate.action {
        GameAction::ActivateAbility { source_id, ability_index } => match ctx.state.object(
            *source_id,
        ) {
            Some(o) => *ability_index < o.abilities.len() && chain_has_mana_effect(
                &o.abilities[*ability_index],
            ),
            None => false,
        },
        GameAction::CastSpell { object_id, .. } => match ctx.state.object(*object_id) {
            Some(o) => o.is_land_fetch_spell || o.is_ritual,
            None => false,
        },
        _ => false,
    }
}

/// Whether the AI holds a card other than a land that costs more than
/// `threshold`.
fn hand_has_expensive_spell(ctx: &PolicyContext<'_>, threshold: u64) -> (r: bool)
    requires
        ctx.valid(),
    ensures
        r == board::any(
            *ctx.state,
            ctx.state.seat(ctx.ai_player).hand@,
            costs_more(threshold as int),
        ),
{
    let accepts = |o: &GameObject| -> (b: bool)
        ensures
            b == costs_more(threshold as int)(*o),
        { !o.is_type(CoreType::Land) && o.mana_value as u64 > threshold };
    board::any_where(
        ctx.state,
        &ctx.state.player(ctx.ai_player).hand,
        accepts,
        Ghost(costs_more(threshold as int)),
    )
}

/// Whether the AI holds a spell that accelerates mana.
fn hand_has_ramp_spell(ctx: &PolicyContext<'_>) -> (r: bool)
    requires
        ctx.valid(),
    ensures
        r == board::any(*ctx.state, ctx.state.seat(ctx.ai_player).hand@, ramp_spell()),
{
    let accepts = |o: &GameObject| -> (b: bool)
        ensures
            b == ramp_spell()(*o),
        { o.is_land_fetch_spell || o.is_ritual };
    board::any_where(
        ctx.state,
        &ctx.state.player(ctx.ai_player).hand,
        accepts,
        Ghost(ramp_spell()),
    )
}

impl TacticalPolicy for RampTimingPolicy {
    open spec fn identity(&self) -> PolicyId {
        PolicyId::RampTiming
    }

    open spec fn kinds(&self) -> Seq<DecisionKind> {
        seq![
            DecisionKind::CastSpell,
            DecisionKind::ActivateManaAbility,
            DecisionKind::ActivateAbility,
        ]
    }

    open spec fn weight(&self, features: DeckFeatures, state: GameState) -> Option<int> {
        if features.mana_ramp.commitment < COMMITMENT_FLOOR || state.turn_number >= 5 {
            None
        } else {
            Some(features.mana_ramp.commitment as int)
        }
    }

    open spec fn ruling(&self, ctx: PolicyContext<'_>) -> Ruling {
        ramp_ruling(ctx)
    }

    fn id(&self) -> PolicyId {
        PolicyId::RampTiming
    }

    fn decision_kinds(&self) -> Vec<DecisionKind> {
        vec![
            DecisionKind::CastSpell,
            DecisionKind::ActivateManaAbility,
            DecisionKind::ActivateAbility,
        ]
    }

    fn activation(
        &self,
        features: &DeckFeatures,
        state: &GameState,
        _player: PlayerId,
    ) -> Option<i128> {
        if features.mana_ramp.commitment < COMMITMENT_FLOOR || state.turn_number >= 5 {
            None
        } else {
            Some(features.mana_ramp.commitment as i128)
        }
    }

    fn verdict(&self, ctx: &PolicyContext<'_>) -> PolicyVerdict {
        let action_is_ramp: bool = is_ramp_shaped_action(ctx);
        let turn: u32 = ctx.state.turn_number;
        if action_is_ramp && turn <= 3 {
            return PolicyVerdict::Score {
                delta: 2_500_000,
                reason: PolicyReason::new("ramp_on_curve").with_fact("turn", turn as i64),
            };
        }
        if action_is_ramp {
            let lands: u64 = count_own_lands(ctx.state, ctx.ai_player) as u64;
            if hand_has_expensive_spell(ctx, lands + 1) {
                return PolicyVerdict::Score {
                    delta: 1_000_000,
                    reason: PolicyReason::new("ramp_enables_threat").with_fact(
                        "turn",
                        turn as i64,
                    ).with_fact("land_count", lands as i64),
                };
            }
        }
        if !action_is_ramp && hand_has_ramp_spell(ctx) {
            return PolicyVerdict::Score {
                delta: -1_000_000,
                reason: PolicyReason::new("defer_to_ramp"),
            };
        }
        PolicyVerdict::neutral(PolicyReason::new("ramp_timing_na"))
    }
}

/// Ramp is rewarded on the first three turns, and later where a card in hand
/// costs more than one above the lands on the battlefield; anything else is
/// discouraged where there is ramp to cast, and nothing more is said.
pub proof fn law_ramp_comes_early(ctx: PolicyContext<'_>)
    ensures
        ({
            let hand = ctx.state.players[ctx.ai_player.0 as int].hand@;
            let lands = strategy_helpers::land_count(*ctx.state, ctx.ai_player);
            let early = ctx.state.turn_number < 4;
            let dear = exists|i: int|
                0 <= i < hand.len() && (match ctx.state.obj(#[trigger] hand[i]) {
                    Some(o) => !o.core_types@.contains(CoreType::Land) && o.mana_value >= lands + 2,
                    None => false,
                });
            let other = exists|i: int|
                0 <= i < hand.len() && (match ctx.state.obj(#[trigger] hand[i]) {
                    Some(o) => o.is_land_fetch_spell || o.is_ritual,
                    None => false,
                });
            let worth = RampTimingPolicy.ruling(ctx).worth();
            &&& ramps(ctx) && early ==> worth == Some(2_500_000int)
            &&& ramps(ctx) && !early && dear ==> worth == Some(1_000_000int)
            &&& ramps(ctx) && !early && !dear ==> worth == Some(0int)
            &&& !ramps(ctx) && other ==> worth == Some(-1_000_000int)
            &&& !ramps(ctx) && !other ==> worth == Some(0int)
        }),
{
    let hand = ctx.state.players[ctx.ai_player.0 as int].hand@;
    let lands = strategy_helpers::land_count(*ctx.state, ctx.ai_player) as int;
    board::law_any_is_a_count_above_zero(*ctx.state, hand, costs_more(lands + 1));
    board::law_any_is_a_count_above_zero(*ctx.state, hand, ramp_spell());
    if board::any(*ctx.state, hand, costs_more(lands + 1)) {
        let i = choose|i: int|
            0 <= i < hand.len() && (match ctx.state.obj(#[trigger] hand[i]) {
                Some(o) => costs_more(lands + 1)(o),
                None => false,
            });
        assert(match ctx.state.obj(hand[i]) {
            Some(o) => !o.core_types@.contains(CoreType::Land) && o.mana_value >= lands + 2,
            None => false,
        });
    }
    if exists|i: int|
        0 <= i < hand.len() && (match ctx.state.obj(#[trigger] hand[i]) {
            Some(o) => !o.core_types@.contains(CoreType::Land) && o.mana_value >= lands + 2,
            None => false,
        }) {
        let i = choose|i: int|
            0 <= i < hand.len() && (match ctx.state.obj(#[trigger] hand[i]) {
                Some(o) => !o.core_types@.contains(CoreType::Land) && o.mana_value >= lands + 2,
                None => false,
            });
        assert(match ctx.state.obj(hand[i]) {
            Some(o) => costs_more(lands + 1)(o),
            None => false,
        });
    }
}

/// A spell accelerates mana where it fetches a land or adds mana, an ability
/// where its first effect adds mana, and no other action does.
pub proof fn law_ramp_is_mana_or_land(ctx: PolicyContext<'_>)
    ensures
        match ctx.candidate.action {
            GameAction::CastSpell { object_id, .. } => match ctx.state.obj(object_id) {
                Some(o) => ramps(ctx) <==> o.is_land_fetch_spell || o.is_ritual,
                None => !ramps(ctx),
            },
            GameAction::ActivateAbility { source_id, ability_index } => match ctx.state.obj(
                source_id,
            ) {
                Some(o) => {
                    &&& ability_index >= o.abilities@.len() ==> !ramps(ctx)
                    &&& ability_index < o.abilities@.len() ==> {
                        let a = o.abilities@[ability_index as int];
                        &&& a.effect.kind is Mana ==> ramps(ctx)
                        &&& !(a.effect.kind is Mana) && a.sub_ability is None ==> !ramps(ctx)
                    }
                },
                None => !ramps(ctx),
            },
            _ => !ramps(ctx),
        },
{
    if let GameAction::ActivateAbility { source_id, ability_index } = ctx.candidate.action {
        if let Some(o) = ctx.state.obj(source_id) {
            if ability_index < o.abilities@.len() {
                let a = o.abilities@[ability_index as int];
                let effects = context::definition_effects(a);
                assert(effects[0] == a.effect);
                if adds_mana()(effects[0]) {
                    assert(seqs::any(effects, adds_mana()));
                }
            }
        }
    }
}

/// An activated ability accelerates mana exactly where some effect of its chain
/// adds mana.
pub proof fn law_ramping_abilities_add_mana(
    ctx: PolicyContext<'_>,
    source_id: ObjectId,
    ability_index: usize,
    o: GameObject,
)
    requires
        ctx.candidate.action == (GameAction::ActivateAbility { source_id, ability_index }),
        ctx.state.obj(source_id) == Some(o),
        ability_index < o.abilities@.len(),
    ensures
        ({
            let effects = context::definition_effects(o.abilities@[ability_index as int]);
            ramps(ctx) <==> exists|i: int|
                0 <= i < effects.len() && (#[trigger] effects[i]).kind is Mana
        }),
{
    let effects = context::definition_effects(o.abilities@[ability_index as int]);
    if seqs::any(effects, adds_mana()) {
        let i = choose|i: int| 0 <= i < effects.len() && adds_mana()(#[trigger] effects[i]);
        assert(effects[i].kind is Mana);
    }
    if exists|i: int| 0 <= i < effects.len() && (#[trigger] effects[i]).kind is Mana {
        let i = choose|i: int| 0 <= i < effects.len() && (#[trigger] effects[i]).kind is Mana;
        assert(adds_mana()(effects[i]));
    }
}

/// A verdict for ramp says the turn, and the lands where it enables a threat.
pub proof fn law_ramp_verdicts_say_why(ctx: PolicyContext<'_>)
    ensures
        ({
            let r = RampTimingPolicy.ruling(ctx);
            let turn = ctx.state.turn_number as int;
            &&& r.worth() == Some(2_500_000int) ==> r.kind() == "ramp_on_curve"@ && r.facts()
                == seq![("turn"@, turn)]
            &&& r.worth() == Some(1_000_000int) ==> r.kind() == "ramp_enables_threat"@ && r.facts()
                == seq![
                ("turn"@, turn),
                ("land_count"@, strategy_helpers::land_count(*ctx.state, ctx.ai_player) as int),
            ]
            &&& r.discourages() ==> r.kind() == "defer_to_ramp"@
        }),
{
}

} // verus!
