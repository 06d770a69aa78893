//! When spells that separate creatures into piles are cast.
//!
//! Each opponent separates the creatures they control into two piles, and the
//! caster chooses one per opponent. Without creatures nothing happens; with
//! few of them an opponent can always offer an empty or nearly empty pile.

use vstd::prelude::*;

use crate::board;
use crate::features::DeckFeatures;
use crate::model::{
    contains_player, AbilityDefinition, CardId, CoreType, Effect, EffectKind, GameAction,
    GameObject, GameState, ObjectId, PlayerId, PlayerScope, VoterScope,
};
use crate::seqs;

use super::activation;
use super::activation::always;
use super::context;
use super::context::{any_effect, collect_definition_effects, PolicyContext};
use super::registry;
use super::registry::{
    DecisionKind, PolicyId, PolicyReason, PolicyVerdict, Ruling, TacticalPolicy,
};

verus! {

/// Holds pile spells until the opponents have creatures enough.
#[derive(Debug)]
pub struct SeparatePilesTimingPolicy;

/// Whether an effect has each opponent make piles, and its controller choose.
pub open spec fn opponents_make_piles() -> spec_fn(Effect) -> bool {
    |e: Effect|
        match e.kind {
            EffectKind::SeparateIntoPiles { partition_subject, chooser } => partition_subject
                == VoterScope::EachOpponent && chooser == PlayerScope::Controller,
            _ => false,
        }
}

/// Whether an ability does so, anywhere in its chain.
pub open spec fn pile_ability() -> spec_fn(AbilityDefinition) -> bool {
    |a: AbilityDefinition| seqs::any(context::definition_effects(a), opponents_make_piles())
}

/// The creatures of the opponents of a player.
pub open spec fn opposing_creature(state: GameState, player: PlayerId) -> spec_fn(
    GameObject,
) -> bool {
    |o: GameObject|
        state.opponents_of(player).contains(o.controller) && o.has_type(CoreType::Creature)
}

/// How many creatures the opponents of a player have.
pub open spec fn opposing_creatures(state: GameState, player: PlayerId) -> nat {
    board::count(state, state.battlefield@, opposing_creature(state, player))
}

/// What the policy says of a pile spell, by the number of opposing creatures.
pub open spec fn piles_ruling(ctx: PolicyContext<'_>, creatures: nat) -> Ruling {
    let bands = ctx.config.bands;
    if creatures == 0 {
        registry::rejects(
            registry::because("separate_piles_no_targets"@).fact("opponent_creatures"@, 0),
        )
    } else if creatures == 1 {
        registry::banded(
            -2_500_000,
            bands.strong_max as int,
            registry::because("separate_piles_weak"@).fact(
                "opponent_creatures"@,
                creatures as int,
            ),
        )
    } else if creatures == 2 {
        registry::banded(
            -2_500_000,
            bands.strong_max as int,
            registry::because("separate_piles_marginal"@).fact(
                "opponent_creatures"@,
                creatures as int,
            ),
        )
    } else if creatures < 5 {
        registry::banded(
            -500_000,
            bands.preference_max as int,
            registry::because("separate_piles_below_threshold"@).fact(
                "opponent_creatures"@,
                creatures as int,
            ),
        )
    } else {
        registry::banded(
            300_000,
            bands.nudge_max as int,
            registry::because("separate_piles_timely"@).fact(
                "opponent_creatures"@,
                creatures as int,
            ),
        )
    }
}

/// Whether a candidate casts a pile spell.
pub open spec fn casts_pile_spell(ctx: PolicyContext<'_>) -> bool {
    match ctx.candidate.action {
        GameAction::CastSpell { object_id, .. } => match ctx.state.obj(object_id) {
            Some(o) => seqs::any(o.abilities@, pile_ability()),
            None => false,
        },
        _ => false,
    }
}

/// What the policy says of a candidate.
pub open spec fn separate_piles_ruling(ctx: PolicyContext<'_>) -> Ruling {
    if casts_pile_spell(ctx) {
        piles_ruling(ctx, opposing_creatures(*ctx.state, ctx.ai_player))
    } else {
        registry::neutrally(registry::because("separate_piles_na"@))
    }
}

/// More opposing creatures never make a pile spell look worse, where the bands
/// leave room for what the policy has to say.
pub proof fn law_more_creatures_never_hurt(ctx: PolicyContext<'_>, fewer: nat, more: nat)
    requires
        0 < fewer <= more,
        ctx.config.bands.nudge_max <= ctx.config.bands.preference_max,
        ctx.config.bands.preference_max <= ctx.config.bands.strong_max,
    ensures
        piles_ruling(ctx, fewer) matches registry::Ruling::Score { delta: a, .. } && (
        piles_ruling(ctx, more) matches registry::Ruling::Score { delta: b, .. } && a <= b),
{
}

/// The verdicts by the number of opposing creatures, where the bands leave room
/// for them: a veto for none, a strong penalty for one or two, a small one for
/// three or four, and a small bonus from five on.
pub proof fn law_verdicts_by_number(ctx: PolicyContext<'_>, creatures: nat)
    requires
        ctx.config.bands.nudge_max > 0,
        ctx.config.bands.preference_max > 0,
        ctx.config.bands.strong_max > 1_500_000,
    ensures
        match piles_ruling(ctx, creatures) {
            Ruling::Reject { reason } => creatures == 0 && reason.kind
                == "separate_piles_no_targets"@,
            Ruling::Score { delta, .. } => if creatures <= 2 {
                creatures > 0 && delta < -1_500_000
            } else if creatures <= 4 {
                -500_000 <= delta < 0
            } else {
                0 < delta <= 300_000
            },
        },
{
}

/// Whether an ability has each opponent make piles, and its controller choose.
fn ability_is_opponent_separate_piles_ai_chooses(ability: &AbilityDefinition) -> (r: bool)
    ensures
        r == pile_ability()(*ability),
{
    let makes_piles = |e: &Effect| -> (b: bool)
        ensures
            b == opponents_make_piles()(*e),
        {
            match &e.kind {
                EffectKind::SeparateIntoPiles { partition_subject, chooser } => *partition_subject
                    == VoterScope::EachOpponent && *chooser == PlayerScope::Controller,
                _ => false,
            }
        };
    any_effect(&collect_definition_effects(ability), makes_piles, Ghost(opponents_make_piles()))
}

/// How many creatures the opponents of a player have.
fn count_opponent_creatures(state: &GameState, player: PlayerId) -> (r: usize)
    requires
        state.seated(player),
    ensures
        r == opposing_creatures(*state, player),
        r <= state.battlefield@.len(),
{
    let opponents = &state.player(player).opponents;
    let accepts = |o: &GameObject| -> (b: bool)
        ensures
            b == opposing_creature(*state, player)(*o),
        { contains_player(opponents, o.controller) && o.is_type(CoreType::Creature) };
    board::count_where(
        state,
        &state.battlefield,
        accepts,
        Ghost(opposing_creature(*state, player)),
    )
}

/// Whether the candidate casts a pile spell.
fn candidate_casts_pile_spell(ctx: &PolicyContext<'_>) -> (r: bool)
    ensures
        r == casts_pile_spell(*ctx),
{
    match &ctx.candidate.action {
        GameAction::CastSpell { object_id, .. } => match ctx.state.object(*object_id) {
            Some(obj) => {
                let makes_piles = |a: &AbilityDefinition| -> (b: bool)
                    ensures
                        b == pile_ability()(*a),
                    { ability_is_opponent_separate_piles_ai_chooses(a) };
                seqs::any_of(&obj.abilities, makes_piles, Ghost(pile_ability()))
            },
            None => false,
        },
        _ => false,
    }
}

impl TacticalPolicy for SeparatePilesTimingPolicy {
    open spec fn identity(&self) -> PolicyId {
        PolicyId::SeparatePilesTiming
    }

    open spec fn kinds(&self) -> Seq<DecisionKind> {
        seq![DecisionKind::CastSpell]
    }

    open spec fn weight(&self, features: DeckFeatures, state: GameState) -> Option<int> {
        activation::constant()
    }

    open spec fn ruling(&self, ctx: PolicyContext<'_>) -> Ruling {
        separate_piles_ruling(ctx)
    }

    fn id(&self) -> PolicyId {
        PolicyId::SeparatePilesTiming
    }

    fn decision_kinds(&self) -> Vec<DecisionKind> {
        vec![DecisionKind::CastSpell]
    }

    fn activation(
        &self,
        _features: &DeckFeatures,
        _state: &GameState,
        _player: PlayerId,
    ) -> Option<i128> {
        always()
    }

    fn verdict(&self, ctx: &PolicyContext<'_>) -> PolicyVerdict {
        if !candidate_casts_pile_spell(ctx) {
            return PolicyVerdict::neutral(PolicyReason::new("separate_piles_na"));
        }
        let creatures: i64 = count_opponent_creatures(ctx.state, ctx.ai_player) as i64;
        let bands = &ctx.config.bands;
        if creatures == 0 {
            PolicyVerdict::reject(
                PolicyReason::new("separate_piles_no_targets").with_fact("opponent_creatures", 0),
            )
        } else if creatures == 1 {
            PolicyVerdict::strong(
                -2_500_000,
                bands,
                PolicyReason::new("separate_piles_weak").with_fact(
                    "opponent_creatures",
                    creatures,
                ),
            )
        } else if creatures == 2 {
            PolicyVerdict::strong(
                -2_500_000,
                bands,
                PolicyReason::new("separate_piles_marginal").with_fact(
                    "opponent_creatures",
                    creatures,
                ),
            )
        } else if creatures < 5 {
            PolicyVerdict::preference(
                -500_000,
                bands,
                PolicyReason::new("separate_piles_below_threshold").with_fact(
                    "opponent_creatures",
                    creatures,
                ),
            )
        } else {
            PolicyVerdict::nudge(
                300_000,
                bands,
                PolicyReason::new("separate_piles_timely").with_fact(
                    "opponent_creatures",
                    creatures,
                ),
            )
        }
    }
}

/// A pile spell is one with an ability that has each opponent make piles and
/// its controller choose; casting one is judged by the opposing creatures, and
/// nothing else is judged.
pub proof fn law_pile_spells_are_judged(
    ctx: PolicyContext<'_>,
    object_id: ObjectId,
    card_id: CardId,
    o: GameObject,
    k: int,
)
    requires
        ctx.candidate.action == (GameAction::CastSpell { object_id, card_id }),
        ctx.state.obj(object_id) == Some(o),
        0 <= k < o.abilities@.len(),
        o.abilities@[k].effect.kind == (EffectKind::SeparateIntoPiles {
            partition_subject: VoterScope::EachOpponent,
            chooser: PlayerScope::Controller,
        }),
    ensures
        opposing_creatures(*ctx.state, ctx.ai_player) == 0
            ==> SeparatePilesTimingPolicy.ruling(ctx).worth() is None,
        opposing_creatures(*ctx.state, ctx.ai_player) >= 5 && ctx.config.bands.nudge_max > 0
            ==> SeparatePilesTimingPolicy.ruling(ctx).rewards(),
        1 <= opposing_creatures(*ctx.state, ctx.ai_player) <= 4
            && ctx.config.bands.preference_max > 0 && ctx.config.bands.strong_max > 0
            ==> SeparatePilesTimingPolicy.ruling(ctx).discourages(),
{
    let a = o.abilities@[k];
    let effects = context::definition_effects(a);
    assert(effects[0] == a.effect);
    assert(opponents_make_piles()(effects[0]));
    assert(pile_ability()(o.abilities@[k]));
}

/// Nothing but casting a pile spell is judged.
pub proof fn law_other_actions_are_left_alone(ctx: PolicyContext<'_>)
    ensures
        !(ctx.candidate.action is CastSpell) ==> SeparatePilesTimingPolicy.ruling(ctx).worth()
            == Some(0int),
        (ctx.candidate.action matches GameAction::CastSpell { object_id, .. } && (
        match ctx.state.obj(object_id) {
            Some(o) => o.abilities@.len() == 0,
            None => true,
        })) ==> SeparatePilesTimingPolicy.ruling(ctx).worth() == Some(0int),
{
}

/// Opposing creatures are those that an opponent controls.
pub proof fn law_opposing_creatures_are_counted_once(
    before: GameState,
    after: GameState,
    player: PlayerId,
    id: ObjectId,
)
    requires
        after.objects@ == before.objects@,
        after.battlefield@ == before.battlefield@.push(id),
        after.opponents_of(player) == before.opponents_of(player),
    ensures
        opposing_creatures(after, player) == opposing_creatures(before, player) + (
        match before.obj(id) {
            Some(o) => if before.opponents_of(player).contains(o.controller)
                && o.core_types@.contains(CoreType::Creature) {
                1int
            } else {
                0int
            },
            None => 0int,
        }),
        before.battlefield@.len() == 0 ==> opposing_creatures(before, player) == 0,
{
    let q = opposing_creature(before, player);
    assert(opposing_creature(after, player) =~= q);
    assert(board::that(after, q) =~= board::that(before, q));
    board::law_count_takes_each_object_once(before, before.battlefield@, id, q);
}

/// A spell is judged exactly where some effect of some ability of it has each
/// opponent make piles and its controller choose.
pub proof fn law_pile_spells_have_a_pile_effect(
    ctx: PolicyContext<'_>,
    object_id: ObjectId,
    card_id: CardId,
    o: GameObject,
)
    requires
        ctx.candidate.action == (GameAction::CastSpell { object_id, card_id }),
        ctx.state.obj(object_id) == Some(o),
    ensures
        ({
            let piles = exists|k: int|
                0 <= k < o.abilities@.len() && makes_piles(
                    context::definition_effects(#[trigger] o.abilities@[k]),
                );
            &&& piles ==> SeparatePilesTimingPolicy.ruling(ctx) == piles_ruling(
                ctx,
                opposing_creatures(*ctx.state, ctx.ai_player),
            )
            &&& !piles ==> SeparatePilesTimingPolicy.ruling(ctx).worth() == Some(0int)
        }),
{
    assert forall|k: int| 0 <= k < o.abilities@.len() implies pile_ability()(
        #[trigger] o.abilities@[k],
    ) == makes_piles(context::definition_effects(o.abilities@[k])) by {
        let effects = context::definition_effects(o.abilities@[k]);
        if seqs::any(effects, opponents_make_piles()) {
            let i = choose|i: int| 0 <= i < effects.len() && opponents_make_piles()(
                #[trigger] effects[i],
            );
            assert(effects[i].kind == (EffectKind::SeparateIntoPiles {
                partition_subject: VoterScope::EachOpponent,
                chooser: PlayerScope::Controller,
            }));
        }
        if makes_piles(effects) {
            let i = choose|i: int|
                0 <= i < effects.len() && (#[trigger] effects[i]).kind == (
                EffectKind::SeparateIntoPiles {
                    partition_subject: VoterScope::EachOpponent,
                    chooser: PlayerScope::Controller,
                });
            assert(opponents_make_piles()(effects[i]));
        }
    }
    if exists|k: int|
        0 <= k < o.abilities@.len() && makes_piles(
            context::definition_effects(#[trigger] o.abilities@[k]),
        ) {
        let k = choose|k: int|
            0 <= k < o.abilities@.len() && makes_piles(
                context::definition_effects(#[trigger] o.abilities@[k]),
            );
        assert(pile_ability()(o.abilities@[k]));
    }
}

/// Whether some effect has each opponent make piles, and its controller choose.
pub open spec fn makes_piles(effects: Seq<Effect>) -> bool {
    exists|i: int|
        0 <= i < effects.len() && (#[trigger] effects[i]).kind == (EffectKind::SeparateIntoPiles {
            partition_subject: VoterScope::EachOpponent,
            chooser: PlayerScope::Controller,
        })
}

/// A verdict on a pile spell says how many opposing creatures there are.
pub proof fn law_pile_verdicts_say_why(ctx: PolicyContext<'_>, creatures: nat)
    ensures
        piles_ruling(ctx, creatures).facts() == seq![("opponent_creatures"@, creatures as int)],
        creatures == 0 ==> piles_ruling(ctx, creatures).kind() == "separate_piles_no_targets"@,
        creatures == 1 ==> piles_ruling(ctx, creatures).kind() == "separate_piles_weak"@,
        creatures == 2 ==> piles_ruling(ctx, creatures).kind() == "separate_piles_marginal"@,
        3 <= creatures <= 4 ==> piles_ruling(ctx, creatures).kind()
            == "separate_piles_below_threshold"@,
        creatures >= 5 ==> piles_ruling(ctx, creatures).kind() == "separate_piles_timely"@,
{
}

/// The scores by the number of opposing creatures, before they are kept in
/// their bands: two and a half against one or two, a half against three or
/// four, three tenths for five and more.
pub proof fn law_pile_scores_by_number(ctx: PolicyContext<'_>, creatures: nat)
    requires
        ctx.config.bands.nudge_max >= 300_000,
        ctx.config.bands.preference_max >= 500_000,
        ctx.config.bands.strong_max >= 2_500_000,
    ensures
        1 <= creatures <= 2 ==> piles_ruling(ctx, creatures).worth() == Some(-2_500_000int),
        3 <= creatures <= 4 ==> piles_ruling(ctx, creatures).worth() == Some(-500_000int),
        creatures >= 5 ==> piles_ruling(ctx, creatures).worth() == Some(300_000int),
{
}

} // verus!
