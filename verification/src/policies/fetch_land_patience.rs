//! Patience with lands that fetch a tapped land.

use vstd::prelude::*;

use crate::features::DeckFeatures;
use crate::model::{
    AbilityCost, Effect, EffectKind, EtbTapState, FilterShape, GameAction, GameObject, GameState,
    ObjectId, Phase, PlayerId, Zone,
};
use crate::seqs;

use super::activation;
use super::activation::always;
use super::context;
use super::context::{any_effect, PolicyContext};
use super::registry;
use super::registry::{
    DecisionKind, PolicyId, PolicyReason, PolicyVerdict, Ruling, TacticalPolicy,
};

verus! {

/// Holds a land that sacrifices itself for a tapped land until the AI's own
/// end step: fetching earlier gains no mana and gives up information.
#[derive(Debug)]
pub struct FetchLandPatiencePolicy;

/// Whether a cost, or a part of it, is to sacrifice the source itself.
pub open spec fn sacrifices_self(cost: AbilityCost) -> bool
    decreases cost,
{
    match cost {
        AbilityCost::Sacrifice { target } => target.shape is SelfRef,
        AbilityCost::Composite { costs } => exists|i: int|
            0 <= i < costs@.len() && sacrifices_self(#[trigger] costs@[i]),
        _ => false,
    }
}

/// Whether an effect searches the library for a land.
pub open spec fn searches_land() -> spec_fn(Effect) -> bool {
    |e: Effect|
        match e.kind {
            EffectKind::SearchLibrary { filter } => filter.references_land,
            _ => false,
        }
}

/// Whether an effect puts something onto the battlefield tapped.
pub open spec fn puts_tapped() -> spec_fn(Effect) -> bool {
    |e: Effect|
        match e.kind {
            EffectKind::ChangeZone { destination, enter_tapped } => destination
                == Zone::Battlefield && enter_tapped == EtbTapState::Tapped,
            _ => false,
        }
}

/// Whether effects fetch a land that enters tapped.
pub open spec fn tapped_land_fetch(effects: Seq<Effect>) -> bool {
    seqs::any(effects, searches_land()) && seqs::any(effects, puts_tapped())
}

/// Whether a candidate gives up its source for a land that enters tapped.
pub open spec fn fetches_tapped_land(ctx: PolicyContext<'_>) -> bool {
    match ctx.candidate.action {
        GameAction::ActivateAbility { source_id, ability_index } => match ctx.state.obj(
            source_id,
        ) {
            Some(o) => ability_index < o.abilities@.len() && (match o.abilities@[
                ability_index as int
            ].cost {
                Some(cost) => sacrifices_self(cost),
                None => false,
            }) && tapped_land_fetch(context::effects_of(ctx)),
            None => false,
        },
        _ => false,
    }
}

/// What the policy says of a candidate.
pub open spec fn fetch_ruling(ctx: PolicyContext<'_>) -> Ruling {
    if !fetches_tapped_land(ctx) {
        registry::neutrally(registry::because("fetch_patience_na"@))
    } else if ctx.state.phase == Phase::End && ctx.state.active_player == ctx.ai_player {
        registry::banded(
            300_000,
            ctx.config.bands.nudge_max as int,
            registry::because("fetch_patience_end_step"@),
        )
    } else {
        registry::rejects(registry::because("fetch_patience_hold"@))
    }
}

/// A land that fetches without putting anything onto the battlefield tapped is
/// never held back.
pub proof fn law_untapped_fetch_is_not_held(ctx: PolicyContext<'_>)
    requires
        !seqs::any(context::effects_of(ctx), puts_tapped()),
    ensures
        fetch_ruling(ctx) == registry::neutrally(registry::because("fetch_patience_na"@)),
{
}

/// No land is stranded: at the AI's own end step nothing is held back.
pub proof fn law_nothing_is_held_at_the_own_end_step(ctx: PolicyContext<'_>)
    requires
        ctx.state.phase == Phase::End,
        ctx.state.active_player == ctx.ai_player,
    ensures
        !(fetch_ruling(ctx) is Reject),
{
}

/// Whether a cost, or a part of it, is to sacrifice the source itself.
fn cost_sacrifices_self(cost: &AbilityCost) -> (r: bool)
    ensures
        r == sacrifices_self(*cost),
    decreases *cost,
{
    match cost {
        AbilityCost::Sacrifice { target } => matches!(target.shape, FilterShape::SelfRef),
        AbilityCost::Composite { costs } => {
            let mut i: usize = 0;
            while i < costs.len()
                invariant
                    *cost matches AbilityCost::Composite { costs: c } && c == *costs,
                    i <= costs@.len(),
                    forall|j: int| 0 <= j < i ==> !sacrifices_self(#[trigger] costs@[j]),
                decreases costs@.len() - i,
            {
                if cost_sacrifices_self(&costs[i]) {
                    assert(sacrifices_self(costs@[i as int]));
                    return true;
                }
                i += 1;
            }
            false
        },
        _ => false,
    }
}

/// Whether effects fetch a land that enters tapped.
fn effects_are_tapped_land_fetch<'b>(effects: &Vec<&'b Effect>) -> (r: bool)
    ensures
        r == tapped_land_fetch(context::values(effects@)),
{
    let searches = |e: &Effect| -> (b: bool)
        ensures
            b == searches_land()(*e),
        {
            match &e.kind {
                EffectKind::SearchLibrary { filter } => filter.references_land,
                _ => false,
            }
        };
    let puts = |e: &Effect| -> (b: bool)
        ensures
            b == puts_tapped()(*e),
        {
            match &e.kind {
                EffectKind::ChangeZone { destination, enter_tapped } => *destination
                    == Zone::Battlefield && *enter_tapped == EtbTapState::Tapped,
                _ => false,
            }
        };
    any_effect(effects, searches, Ghost(searches_land())) && any_effect(
        effects,
        puts,
        Ghost(puts_tapped()),
    )
}

/// Whether the candidate gives up its source for a land that enters tapped.
fn candidate_fetches(ctx: &PolicyContext<'_>) -> (r: bool)
    ensures
        r == fetches_tapped_land(*ctx),
{
    let (source_id, ability_index) = match &ctx.candidate.action {
        GameAction::ActivateAbility { source_id, ability_index } => (*source_id, *ability_index),
        _ => return false,
    };
    let obj = match ctx.state.object(source_id) {
        Some(o) => o,
        None => return false,
    };
    if ability_index >= obj.abilities.len() {
        return false;
    }
    let own: bool = match &obj.abilities[ability_index].cost {
        Some(cost) => cost_sacrifices_self(cost),
        None => false,
    };
    own && effects_are_tapped_land_fetch(&ctx.effects())
}

impl TacticalPolicy for FetchLandPatiencePolicy {
    open spec fn identity(&self) -> PolicyId {
        PolicyId::FetchLandPatience
    }

    open spec fn kinds(&self) -> Seq<DecisionKind> {
        seq![DecisionKind::ActivateAbility]
    }

    open spec fn weight(&self, features: DeckFeatures, state: GameState) -> Option<int> {
        activation::constant()
    }

    open spec fn ruling(&self, ctx: PolicyContext<'_>) -> Ruling {
        fetch_ruling(ctx)
    }

    fn id(&self) -> PolicyId {
        PolicyId::FetchLandPatience
    }

    fn decision_kinds(&self) -> Vec<DecisionKind> {
        vec![DecisionKind::ActivateAbility]
    }

    fn activation(
        &self,
        _features: &DeckFeatures,
        _state: &GameState,
        _player: PlayerId,
    ) -> Option<i128> {
        always()
    }

    fn verdict(&self, ctx: &PolicyContext<'_>) -> PolicyVerdict {
        if !candidate_fetches(ctx) {
            return PolicyVerdict::neutral(PolicyReason::new("fetch_patience_na"));
        }
        if ctx.state.phase == Phase::End && ctx.state.active_player == ctx.ai_player {
            return PolicyVerdict::nudge(
                300_000,
                &ctx.config.bands,
                PolicyReason::new("fetch_patience_end_step"),
            );
        }
        PolicyVerdict::reject(PolicyReason::new("fetch_patience_hold"))
    }
}

/// An ability that sacrifices its own source for a land that enters tapped is
/// vetoed everywhere but at the AI's own end step, where it is nudged; nothing
/// else is judged.
pub proof fn law_fetching_waits_for_the_end_step(ctx: PolicyContext<'_>)
    ensures
        ({
            let own_end = ctx.state.phase is End && ctx.state.active_player == ctx.ai_player;
            let worth = FetchLandPatiencePolicy.ruling(ctx).worth();
            &&& fetches_tapped_land(ctx) && !own_end <==> worth is None
            &&& fetches_tapped_land(ctx) && own_end && ctx.config.bands.nudge_max >= 300_000
                ==> worth == Some(300_000int)
            &&& fetches_tapped_land(ctx) && own_end && ctx.config.bands.nudge_max < 300_000
                ==> worth == Some(ctx.config.bands.nudge_max as int)
            &&& !fetches_tapped_land(ctx) ==> worth == Some(0int)
        }),
{
}

/// A candidate fetches a tapped land exactly where it activates an ability
/// that costs the source itself, searches for a land and puts something onto
/// the battlefield tapped.
pub proof fn law_fetch_needs_all_three(
    ctx: PolicyContext<'_>,
    source_id: ObjectId,
    ability_index: usize,
    o: GameObject,
    search: int,
    put: int,
)
    requires
        ctx.candidate.action == (GameAction::ActivateAbility { source_id, ability_index }),
        ctx.state.obj(source_id) == Some(o),
        ability_index < o.abilities@.len(),
        0 <= search < context::effects_of(ctx).len(),
        0 <= put < context::effects_of(ctx).len(),
    ensures
        ({
            let effects = context::effects_of(ctx);
            let cost = o.abilities@[ability_index as int].cost;
            &&& cost is None ==> !fetches_tapped_land(ctx)
            &&& cost matches Some(c) ==> !sacrifices_self(c) ==> !fetches_tapped_land(ctx)
            &&& cost matches Some(c) ==> sacrifices_self(c) && (match effects[search].kind {
                EffectKind::SearchLibrary { filter } => filter.references_land,
                _ => false,
            }) && (match effects[put].kind {
                EffectKind::ChangeZone { destination, enter_tapped } => destination is Battlefield
                    && enter_tapped is Tapped,
                _ => false,
            }) ==> fetches_tapped_land(ctx)
        }),
{
    let effects = context::effects_of(ctx);
    if searches_land()(effects[search]) && puts_tapped()(effects[put]) {
        assert(seqs::any(effects, searches_land()));
        assert(seqs::any(effects, puts_tapped()));
    }
}

/// Nothing is fetched by another action, by what is no object, or by an ability
/// that the source does not have.
pub proof fn law_fetch_needs_an_ability(ctx: PolicyContext<'_>)
    ensures
        fetches_tapped_land(ctx) ==> (match ctx.candidate.action {
            GameAction::ActivateAbility { source_id, ability_index } => match ctx.state.obj(
                source_id,
            ) {
                Some(o) => (ability_index as int) < o.abilities@.len(),
                None => false,
            },
            _ => false,
        }),
{
}

/// Giving up the source is a cost by itself, or as part of a composite one,
/// and no other cost is.
pub proof fn law_self_sacrifice_is_found_in_parts(cost: AbilityCost)
    ensures
        match cost {
            AbilityCost::Sacrifice { target } => sacrifices_self(cost) <==> target.shape is SelfRef,
            AbilityCost::Composite { costs } => {
                &&& forall|i: int|
                    0 <= i < costs@.len() && sacrifices_self(#[trigger] costs@[i])
                        ==> sacrifices_self(cost)
                &&& sacrifices_self(cost) ==> costs@.len() > 0
            },
            _ => !sacrifices_self(cost),
        },
{
}

/// Effects fetch a tapped land exactly where one of them searches for a land
/// and one puts something onto the battlefield tapped.
pub proof fn law_tapped_fetch_searches_and_puts(effects: Seq<Effect>)
    ensures
        tapped_land_fetch(effects) <==> (exists|i: int|
            0 <= i < effects.len() && (match (#[trigger] effects[i]).kind {
                EffectKind::SearchLibrary { filter } => filter.references_land,
                _ => false,
            })) && (exists|i: int|
            0 <= i < effects.len() && (#[trigger] effects[i]).kind == (EffectKind::ChangeZone {
                destination: Zone::Battlefield,
                enter_tapped: EtbTapState::Tapped,
            })),
{
    let put = EffectKind::ChangeZone {
        destination: Zone::Battlefield,
        enter_tapped: EtbTapState::Tapped,
    };
    if seqs::any(effects, searches_land()) {
        let i = choose|i: int| 0 <= i < effects.len() && searches_land()(#[trigger] effects[i]);
        assert(match effects[i].kind {
            EffectKind::SearchLibrary { filter } => filter.references_land,
            _ => false,
        });
    }
    if exists|i: int|
        0 <= i < effects.len() && (match (#[trigger] effects[i]).kind {
            EffectKind::SearchLibrary { filter } => filter.references_land,
            _ => false,
        }) {
        let i = choose|i: int|
            0 <= i < effects.len() && (match (#[trigger] effects[i]).kind {
                EffectKind::SearchLibrary { filter } => filter.references_land,
                _ => false,
            });
        assert(searches_land()(effects[i]));
    }
    if seqs::any(effects, puts_tapped()) {
        let i = choose|i: int| 0 <= i < effects.len() && puts_tapped()(#[trigger] effects[i]);
        assert(effects[i].kind == put);
    }
    if exists|i: int| 0 <= i < effects.len() && (#[trigger] effects[i]).kind == put {
        let i = choose|i: int| 0 <= i < effects.len() && (#[trigger] effects[i]).kind == put;
        assert(puts_tapped()(effects[i]));
    }
}

} // verus!
