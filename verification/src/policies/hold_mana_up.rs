//! Mana is held up for instants.

use vstd::prelude::*;

use crate::board;
use crate::features::DeckFeatures;
use crate::model::{CoreType, GameAction, GameObject, GameState, ObjectId, PlayerId};
use crate::score;
use crate::seqs;

use super::context::PolicyContext;
use super::registry;
use super::registry::{
    DecisionKind, PolicyId, PolicyReason, PolicyVerdict, Ruling, TacticalPolicy,
};
use super::strategy_helpers;
use super::strategy_helpers::is_own_main_phase;

verus! {

/// Discourages tapping out below the cheapest instant in hand.
#[derive(Debug)]
pub struct HoldManaUpForInteractionPolicy;

/// The untapped lands, and the untapped creatures and artifacts that tap for
/// mana, of a player.
pub open spec fn untapped_source(player: PlayerId) -> spec_fn(GameObject) -> bool {
    |o: GameObject|
        o.controller == player && !o.tapped && (o.has_type(CoreType::Land) || o.is_mana_dork)
}

/// How much mana the candidate spell costs; nothing for anything else.
pub open spec fn spell_cost(ctx: PolicyContext<'_>) -> int {
    match ctx.candidate.action {
        GameAction::CastSpell { object_id, .. } => match ctx.state.obj(object_id) {
            Some(o) => o.mana_value as int,
            None => 0,
        },
        _ => 0,
    }
}

/// The instants.
pub open spec fn instant() -> spec_fn(GameObject) -> bool {
    |o: GameObject| o.has_type(CoreType::Instant)
}

/// The mana value of an object.
pub open spec fn mana_value_of(state: GameState) -> spec_fn(ObjectId) -> int {
    |id: ObjectId|
        match state.obj(id) {
            Some(o) => o.mana_value as int,
            None => 0,
        }
}

/// The mana value of the cheapest instant that a player holds.
pub open spec fn cheapest_instant(state: GameState, player: PlayerId) -> Option<int> {
    seqs::minimum(
        state.seat(player).hand@,
        board::that(state, instant()),
        mana_value_of(state),
    )
}

/// The mana sources that are left after the candidate spell is paid for.
pub open spec fn mana_after_cast(ctx: PolicyContext<'_>) -> int {
    score::greater(
        board::count(*ctx.state, ctx.state.battlefield@, untapped_source(ctx.ai_player))
            - spell_cost(ctx),
        0,
    )
}

/// What the policy says of a candidate.
pub open spec fn hold_mana_ruling(ctx: PolicyContext<'_>) -> Ruling {
    let acts = match ctx.candidate.action {
        GameAction::CastSpell { .. } => true,
        GameAction::ActivateAbility { .. } => true,
        _ => false,
    };
    let after = mana_after_cast(ctx);
    if !strategy_helpers::own_main_phase(ctx) || !acts {
        registry::neutrally(registry::because("hold_mana_up_na"@))
    } else {
        match cheapest_instant(*ctx.state, ctx.ai_player) {
            Some(least) if after < least => registry::scores(
                -400_000,
                registry::because("hold_mana_up_tap_out"@).fact("min_instant_cmc"@, least).fact(
                    "mana_after_cast"@,
                    after,
                ),
            ),
            _ => registry::neutrally(registry::because("hold_mana_up_ok"@)),
        }
    }
}

/// How many untapped mana sources a player has.
fn count_untapped_mana_sources(state: &GameState, player: PlayerId) -> (r: usize)
    ensures
        r == board::count(*state, state.battlefield@, untapped_source(player)),
        r <= state.battlefield@.len(),
{
    let accepts = |o: &GameObject| -> (b: bool)
        ensures
            b == untapped_source(player)(*o),
        { o.controller == player && !o.tapped && (o.is_type(CoreType::Land) || o.is_mana_dork) };
    board::count_where(state, &state.battlefield, accepts, Ghost(untapped_source(player)))
}

/// How much mana the candidate spell costs.
fn spell_mana_value(ctx: &PolicyContext<'_>) -> (r: u32)
    ensures
        r == spell_cost(*ctx),
{
    match &ctx.candidate.action {
        GameAction::CastSpell { object_id, .. } => match ctx.state.object(*object_id) {
            Some(o) => o.mana_value,
            None => 0,
        },
        _ => 0,
    }
}

/// The mana value of the cheapest instant that a player holds.
fn min_instant_cmc_in_hand(state: &GameState, player: PlayerId) -> (r: Option<u32>)
    requires
        state.seated(player),
    ensures
        cheapest_instant(*state, player) == (match r {
            Some(v) => Some(v as int),
            None => None,
        }),
{
    let hand = &state.player(player).hand;
    let ghost p = board::that(*state, instant());
    let ghost f = mana_value_of(*state);
    let mut best: Option<u32> = None;
    let mut i: usize = 0;
    while i < hand.len()
        invariant
            p == board::that(*state, instant()),
            f == mana_value_of(*state),
            i <= hand@.len(),
            seqs::minimum(hand@.take(i as int), p, f) == (match best {
                Some(v) => Some(v as int),
                None => None,
            }),
        decreases hand@.len() - i,
    {
        proof {
            seqs::lemma_minimum_step(hand@, i as int, p, f);
        }
        if let Some(o) = state.object(hand[i]) {
            if o.is_type(CoreType::Instant) {
                let value: u32 = o.mana_value;
                best = match best {
                    Some(b) => if value < b {
                        Some(value)
                    } else {
                        Some(b)
                    },
                    None => Some(value),
                };
            }
        }
        i += 1;
    }
    assert(hand@.take(hand@.len() as int) =~= hand@);
    best
}

impl TacticalPolicy for HoldManaUpForInteractionPolicy {
    open spec fn identity(&self) -> PolicyId {
        PolicyId::HoldManaUpForInteraction
    }

    open spec fn kinds(&self) -> Seq<DecisionKind> {
        seq![DecisionKind::CastSpell, DecisionKind::ActivateAbility]
    }

    open spec fn weight(&self, features: DeckFeatures, state: GameState) -> Option<int> {
        if features.control.reactive_tempo < features.control.reactive_tempo_floor {
            None
        } else {
            Some(features.control.reactive_tempo as int)
        }
    }

    open spec fn ruling(&self, ctx: PolicyContext<'_>) -> Ruling {
        hold_mana_ruling(ctx)
    }

    fn id(&self) -> PolicyId {
        PolicyId::HoldManaUpForInteraction
    }

    fn decision_kinds(&self) -> Vec<DecisionKind> {
        vec![DecisionKind::CastSpell, DecisionKind::ActivateAbility]
    }

    fn activation(
        &self,
        features: &DeckFeatures,
        _state: &GameState,
        _player: PlayerId,
    ) -> Option<i128> {
        if features.control.reactive_tempo < features.control.reactive_tempo_floor {
            None
        } else {
            Some(features.control.reactive_tempo as i128)
        }
    }

    fn verdict(&self, ctx: &PolicyContext<'_>) -> PolicyVerdict {
        let acts: bool = matches!(
            ctx.candidate.action,
            GameAction::CastSpell { .. } | GameAction::ActivateAbility { .. }
        );
        if !is_own_main_phase(ctx) || !acts {
            return PolicyVerdict::neutral(PolicyReason::new("hold_mana_up_na"));
        }
        let before: i64 = count_untapped_mana_sources(ctx.state, ctx.ai_player) as i64;
        let cost: i64 = spell_mana_value(ctx) as i64;
        let after: i64 = if before > cost {
            before - cost
        } else {
            0
        };
        if let Some(least) = min_instant_cmc_in_hand(ctx.state, ctx.ai_player) {
            if after < least as i64 {
                return PolicyVerdict::Score {
                    delta: -400_000,
                    reason: PolicyReason::new("hold_mana_up_tap_out").with_fact(
                        "min_instant_cmc",
                        least as i64,
                    ).with_fact("mana_after_cast", after),
                };
            }
        }
        PolicyVerdict::neutral(PolicyReason::new("hold_mana_up_ok"))
    }
}

/// Whether a card in hand is an instant that costs more than what is left.
pub open spec fn out_of_reach(state: GameState, id: ObjectId, left: int) -> bool {
    match state.obj(id) {
        Some(o) => o.core_types@.contains(CoreType::Instant) ==> o.mana_value > left,
        None => true,
    }
}

/// In its own quiet main phase, a spell or an ability is discouraged exactly
/// where the AI holds an instant and could pay for none of them afterwards;
/// nothing else is judged.
pub proof fn law_tapping_out_below_every_instant(ctx: PolicyContext<'_>)
    ensures
        ({
            let hand = ctx.state.players[ctx.ai_player.0 as int].hand@;
            let left = mana_after_cast(ctx);
            let acts = ctx.candidate.action is CastSpell || ctx.candidate.action
                is ActivateAbility;
            let holds = exists|i: int|
                0 <= i < hand.len() && (match ctx.state.obj(#[trigger] hand[i]) {
                    Some(o) => o.core_types@.contains(CoreType::Instant),
                    None => false,
                });
            let tapped_out = forall|i: int|
                0 <= i < hand.len() ==> out_of_reach(*ctx.state, #[trigger] hand[i], left);
            let ruling = HoldManaUpForInteractionPolicy.ruling(ctx);
            &&& ruling.discourages() <==> strategy_helpers::own_main_phase(ctx) && acts && holds
                && tapped_out
            &&& ruling.worth() == Some(0int) || ruling.worth() == Some(-400_000int)
        }),
{
    let hand = ctx.state.players[ctx.ai_player.0 as int].hand@;
    let left = mana_after_cast(ctx);
    let p = board::that(*ctx.state, instant());
    let f = mana_value_of(*ctx.state);
    seqs::lemma_minimum(hand, p, f);
    if seqs::any(hand, p) {
        let i = choose|i: int| 0 <= i < hand.len() && p(#[trigger] hand[i]);
        assert(ctx.state.obj(hand[i]) is Some);
        let least = cheapest_instant(*ctx.state, ctx.ai_player)->Some_0;
        let q = |id: ObjectId| p(id) && f(id) == least;
        let k = choose|k: int| 0 <= k < hand.len() && q(#[trigger] hand[k]);
        assert(q(hand[k]));
        if forall|i: int|
            0 <= i < hand.len() ==> out_of_reach(*ctx.state, #[trigger] hand[i], left) {
            assert(out_of_reach(*ctx.state, hand[k], left));
        }
        if left < least {
            assert forall|i: int| 0 <= i < hand.len() implies out_of_reach(
                *ctx.state,
                #[trigger] hand[i],
                left,
            ) by {
                if p(hand[i]) {
                    assert(least <= f(hand[i]));
                }
            }
        }
    }
    if exists|i: int|
        0 <= i < hand.len() && (match ctx.state.obj(#[trigger] hand[i]) {
            Some(o) => o.core_types@.contains(CoreType::Instant),
            None => false,
        }) {
        let i = choose|i: int|
            0 <= i < hand.len() && (match ctx.state.obj(#[trigger] hand[i]) {
                Some(o) => o.core_types@.contains(CoreType::Instant),
                None => false,
            });
        assert(p(hand[i]));
    }
}

/// What is left is one for each untapped land or mana creature or artifact
/// that the AI controls, less the cost of the spell, and never below nothing.
pub proof fn law_mana_left_after_the_cast(ctx: PolicyContext<'_>, o: GameObject)
    ensures
        untapped_source(ctx.ai_player)(o) <==> o.controller == ctx.ai_player && !o.tapped && (
        o.core_types@.contains(CoreType::Land) || o.is_mana_dork),
        ({
            let sources = board::count(
                *ctx.state,
                ctx.state.battlefield@,
                untapped_source(ctx.ai_player),
            );
            let cost = match ctx.candidate.action {
                GameAction::CastSpell { object_id, .. } => match ctx.state.obj(object_id) {
                    Some(spell) => spell.mana_value as int,
                    None => 0,
                },
                _ => 0,
            };
            &&& sources >= cost ==> mana_after_cast(ctx) + cost == sources
            &&& sources < cost ==> mana_after_cast(ctx) == 0
        }),
{
}

/// A verdict against tapping out says what the cheapest instant costs and what
/// would be left.
pub proof fn law_tap_out_verdicts_say_why(ctx: PolicyContext<'_>)
    ensures
        ({
            let r = HoldManaUpForInteractionPolicy.ruling(ctx);
            &&& r.discourages() ==> r.kind() == "hold_mana_up_tap_out"@
                && cheapest_instant(*ctx.state, ctx.ai_player) is Some && r.facts() == seq![
                ("min_instant_cmc"@, cheapest_instant(*ctx.state, ctx.ai_player)->Some_0),
                ("mana_after_cast"@, mana_after_cast(ctx)),
            ]
            &&& !r.discourages() ==> r.facts().len() == 0
        }),
{
}

} // verus!
