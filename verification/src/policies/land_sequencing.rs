//! Which land is played first.

use vstd::prelude::*;

use crate::features::DeckFeatures;
use crate::model::{
    ControllerRef, CoreType, Effect, EffectKind, FilterShape, GameAction, GameObject, GameState,
    ObjectId, PlayerId, TargetFilter, TriggerDefinition, TriggerMode, TypeFilter, Zone,
};
use crate::seqs;

use super::activation;
use super::activation::always;
use super::context;
use super::context::{any_effect, collect_definition_effects, PolicyContext};
use super::registry;
use super::registry::{
    DecisionKind, PolicyId, PolicyReason, PolicyVerdict, Ruling, TacticalPolicy,
};

verus! {

/// Plays other lands before one that returns a land to its owner's hand.
#[derive(Debug)]
pub struct LandSequencingPolicy;

/// Whether a type condition is that of a land.
pub open spec fn names_land(tf: TypeFilter) -> bool
    decreases tf,
{
    match tf {
        TypeFilter::Land => true,
        TypeFilter::AnyOf(inner) => exists|i: int|
            0 <= i < inner@.len() && names_land(#[trigger] inner@[i]),
        _ => false,
    }
}

/// Whether a filter is for a land that its controller has.
pub open spec fn own_land(filter: TargetFilter) -> bool {
    match filter.shape {
        FilterShape::Typed { controller, type_filters } => controller == Some(ControllerRef::You)
            && seqs::any(type_filters@, |tf: TypeFilter| names_land(tf)),
        _ => false,
    }
}

/// Whether an effect returns a land of its controller.
pub open spec fn bounces_land() -> spec_fn(Effect) -> bool {
    |e: Effect|
        match e.kind {
            EffectKind::Bounce { target } => own_land(target),
            _ => false,
        }
}

/// Whether a trigger returns a land of its controller when its source enters
/// the battlefield.
pub open spec fn bounces_on_entering() -> spec_fn(TriggerDefinition) -> bool {
    |t: TriggerDefinition|
        t.mode == TriggerMode::ChangesZone && t.destination == Some(Zone::Battlefield)
            && (match t.valid_card {
            Some(filter) => filter.shape is SelfRef,
            None => false,
        }) && (match t.execute {
            Some(ability) => seqs::any(context::definition_effects(ability), bounces_land()),
            None => false,
        })
}

/// The lands that return a land when they enter.
pub open spec fn bounce_land(o: GameObject) -> bool {
    seqs::any(o.trigger_definitions@, bounces_on_entering())
}

/// The lands that could be played in place of `played`.
pub open spec fn alternative_to(state: GameState, played: ObjectId) -> spec_fn(ObjectId) -> bool {
    |id: ObjectId|
        id != played && (match state.obj(id) {
            Some(o) => o.has_type(CoreType::Land) && !bounce_land(o),
            None => false,
        })
}

/// What the policy says of a candidate.
pub open spec fn land_sequencing_ruling(ctx: PolicyContext<'_>) -> Ruling {
    match ctx.candidate.action {
        GameAction::PlayLand { object_id } => match ctx.state.obj(object_id) {
            Some(o) if bounce_land(o) => if seqs::any(
                ctx.state.seat(ctx.ai_player).hand@,
                alternative_to(*ctx.state, object_id),
            ) {
                registry::scores(
                    -1_500_000,
                    registry::because("land_sequencing_play_other_first"@),
                )
            } else {
                registry::neutrally(registry::because("land_sequencing_no_alternative"@))
            },
            _ => registry::neutrally(registry::because("land_sequencing_na"@)),
        },
        _ => registry::neutrally(registry::because("land_sequencing_na"@)),
    }
}

/// Whether a type condition is that of a land.
fn type_filter_is_land(tf: &TypeFilter) -> (r: bool)
    ensures
        r == names_land(*tf),
    decreases *tf,
{
    match tf {
        TypeFilter::Land => true,
        TypeFilter::AnyOf(inner) => {
            let mut i: usize = 0;
            while i < inner.len()
                invariant
                    *tf matches TypeFilter::AnyOf(c) && c == *inner,
                    i <= inner@.len(),
                    forall|j: int| 0 <= j < i ==> !names_land(#[trigger] inner@[j]),
                decreases inner@.len() - i,
            {
                if type_filter_is_land(&inner[i]) {
                    assert(names_land(inner@[i as int]));
                    return true;
                }
                i += 1;
            }
            false
        },
        _ => false,
    }
}

/// Whether a filter is for a land that its controller has.
fn target_is_own_land(filter: &TargetFilter) -> (r: bool)
    ensures
        r == own_land(*filter),
{
    match &filter.shape {
        FilterShape::Typed { controller, type_filters } => {
            let yours: bool = match controller {
                Some(c) => *c == ControllerRef::You,
                None => false,
            };
            let is_land = |tf: &TypeFilter| -> (b: bool)
                ensures
                    b == names_land(*tf),
                { type_filter_is_land(tf) };
            yours && seqs::any_of(type_filters, is_land, Ghost(|tf: TypeFilter| names_land(tf)))
        },
        _ => false,
    }
}

/// Whether a trigger returns a land when its source enters.
fn trigger_bounces(t: &TriggerDefinition) -> (r: bool)
    ensures
        r == bounces_on_entering()(*t),
{
    let enters: bool = match t.destination {
        Some(z) => z == Zone::Battlefield,
        None => false,
    };
    let itself: bool = match &t.valid_card {
        Some(filter) => matches!(filter.shape, FilterShape::SelfRef),
        None => false,
    };
    if t.mode != TriggerMode::ChangesZone || !enters || !itself {
        return false;
    }
    match &t.execute {
        Some(ability) => {
            let bounces = |e: &Effect| -> (b: bool)
                ensures
                    b == bounces_land()(*e),
                {
                    match &e.kind {
                        EffectKind::Bounce { target } => target_is_own_land(target),
                        _ => false,
                    }
                };
            any_effect(&collect_definition_effects(ability), bounces, Ghost(bounces_land()))
        },
        None => false,
    }
}

/// Whether an object returns a land when it enters.
fn is_self_bounce_land(obj: &GameObject) -> (r: bool)
    ensures
        r == bounce_land(*obj),
{
    let bounces = |t: &TriggerDefinition| -> (b: bool)
        ensures
            b == bounces_on_entering()(*t),
        { trigger_bounces(t) };
    seqs::any_of(&obj.trigger_definitions, bounces, Ghost(bounces_on_entering()))
}

impl TacticalPolicy for LandSequencingPolicy {
    open spec fn identity(&self) -> PolicyId {
        PolicyId::LandSequencing
    }

    open spec fn kinds(&self) -> Seq<DecisionKind> {
        seq![DecisionKind::PlayLand]
    }

    open spec fn weight(&self, features: DeckFeatures, state: GameState) -> Option<int> {
        activation::constant()
    }

    open spec fn ruling(&self, ctx: PolicyContext<'_>) -> Ruling {
        land_sequencing_ruling(ctx)
    }

    fn id(&self) -> PolicyId {
        PolicyId::LandSequencing
    }

    fn decision_kinds(&self) -> Vec<DecisionKind> {
        vec![DecisionKind::PlayLand]
    }

    fn activation(
        &self,
        _features: &DeckFeatures,
        _state: &GameState,
        _player: PlayerId,
    ) -> Option<i128> {
        always()
    }

    fn verdict(&self, ctx: &PolicyContext<'_>) -> PolicyVerdict {
        let object_id: ObjectId = match &ctx.candidate.action {
            GameAction::PlayLand { object_id } => *object_id,
            _ => return PolicyVerdict::neutral(PolicyReason::new("land_sequencing_na")),
        };
        let bounces: bool = match ctx.state.object(object_id) {
            Some(played) => is_self_bounce_land(played),
            None => false,
        };
        if !bounces {
            return PolicyVerdict::neutral(PolicyReason::new("land_sequencing_na"));
        }
        let is_alternative = |id: &ObjectId| -> (b: bool)
            ensures
                b == alternative_to(*ctx.state, object_id)(*id),
            {
                *id != object_id && (match ctx.state.object(*id) {
                    Some(o) => o.is_type(CoreType::Land) && !is_self_bounce_land(o),
                    None => false,
                })
            };
        let has_alternative: bool = seqs::any_of(
            &ctx.state.player(ctx.ai_player).hand,
            is_alternative,
            Ghost(alternative_to(*ctx.state, object_id)),
        );
        if has_alternative {
            PolicyVerdict::Score {
                delta: -1_500_000,
                reason: PolicyReason::new("land_sequencing_play_other_first"),
            }
        } else {
            PolicyVerdict::neutral(PolicyReason::new("land_sequencing_no_alternative"))
        }
    }
}

/// Playing a land that returns a land is discouraged exactly where the AI holds
/// another land that does not; everything else is left alone.
pub proof fn law_other_lands_come_first(ctx: PolicyContext<'_>)
    ensures
        ({
            let hand = ctx.state.players[ctx.ai_player.0 as int].hand@;
            let wasteful = match ctx.candidate.action {
                GameAction::PlayLand { object_id } => (match ctx.state.obj(object_id) {
                    Some(o) => bounce_land(o),
                    None => false,
                }) && exists|i: int|
                    0 <= i < hand.len() && #[trigger] hand[i] != object_id && (match ctx.state.obj(
                        hand[i],
                    ) {
                        Some(o) => o.core_types@.contains(CoreType::Land) && !bounce_land(o),
                        None => false,
                    }),
                _ => false,
            };
            let ruling = LandSequencingPolicy.ruling(ctx);
            &&& ruling.discourages() <==> wasteful
            &&& ruling.worth() == Some(0int) || ruling.worth() == Some(-1_500_000int)
        }),
{
    if let GameAction::PlayLand { object_id } = ctx.candidate.action {
        let hand = ctx.state.players[ctx.ai_player.0 as int].hand@;
        let q = alternative_to(*ctx.state, object_id);
        if seqs::any(hand, q) {
            let i = choose|i: int| 0 <= i < hand.len() && q(#[trigger] hand[i]);
            assert(hand[i] != object_id);
        }
        if exists|i: int|
            0 <= i < hand.len() && #[trigger] hand[i] != object_id && (match ctx.state.obj(
                hand[i],
            ) {
                Some(o) => o.core_types@.contains(CoreType::Land) && !bounce_land(o),
                None => false,
            }) {
            let i = choose|i: int|
                0 <= i < hand.len() && #[trigger] hand[i] != object_id && (match ctx.state.obj(
                    hand[i],
                ) {
                    Some(o) => o.core_types@.contains(CoreType::Land) && !bounce_land(o),
                    None => false,
                });
            assert(q(hand[i]));
        }
    }
}

/// An object returns a land where one of its triggers, when the object itself
/// enters the battlefield, returns a land that its controller has; a trigger
/// of any other kind does not make it one.
pub proof fn law_bounce_lands_return_an_own_land(o: GameObject, k: int)
    requires
        0 <= k < o.trigger_definitions@.len(),
    ensures
        ({
            let t = o.trigger_definitions@[k];
            let on_itself = t.mode is ChangesZone && t.destination == Some(Zone::Battlefield) && (
            match t.valid_card {
                Some(f) => f.shape is SelfRef,
                None => false,
            });
            &&& on_itself && (match t.execute {
                Some(a) => match a.effect.kind {
                    EffectKind::Bounce { target } => own_land(target),
                    _ => false,
                },
                None => false,
            }) ==> bounce_land(o)
            &&& bounces_on_entering()(t) ==> on_itself && t.execute is Some
        }),
        o.trigger_definitions@.len() == 0 ==> !bounce_land(o),
{
    let t = o.trigger_definitions@[k];
    if let Some(a) = t.execute {
        let effects = context::definition_effects(a);
        assert(effects[0] == a.effect);
        if bounces_land()(effects[0]) {
            assert(seqs::any(effects, bounces_land()));
        }
        if bounces_on_entering()(t) {
            assert(seqs::any(o.trigger_definitions@, bounces_on_entering()));
        }
    }
}

/// A filter is for an own land exactly where it is typed, for what its
/// controller has, and one of its type conditions is a land or an alternative
/// that has one.
pub proof fn law_own_land_filters(filter: TargetFilter, tf: TypeFilter)
    ensures
        match filter.shape {
            FilterShape::Typed { controller, type_filters } => {
                &&& own_land(filter) ==> controller == Some(ControllerRef::You)
                    && type_filters@.len() > 0
                &&& controller == Some(ControllerRef::You) && type_filters@.contains(tf)
                    && names_land(tf) ==> own_land(filter)
            },
            _ => !own_land(filter),
        },
        match tf {
            TypeFilter::Land => names_land(tf),
            TypeFilter::AnyOf(inner) => forall|i: int|
                0 <= i < inner@.len() && names_land(#[trigger] inner@[i]) ==> names_land(tf),
            _ => !names_land(tf),
        },
{
    if let FilterShape::Typed { controller, type_filters } = filter.shape {
        let q = |x: TypeFilter| names_land(x);
        if type_filters@.contains(tf) && names_land(tf) {
            let i = choose|i: int| 0 <= i < type_filters@.len() && type_filters@[i] == tf;
            assert(q(type_filters@[i]));
        }
    }
}

/// A trigger returns a land exactly where it happens when its own source enters
/// the battlefield and some effect of it returns a land that its controller
/// has.
pub proof fn law_bouncing_triggers_return_a_land(t: TriggerDefinition)
    ensures
        bounces_on_entering()(t) <==> t.mode is ChangesZone && t.destination == Some(
            Zone::Battlefield,
        ) && (match t.valid_card {
            Some(f) => f.shape is SelfRef,
            None => false,
        }) && (match t.execute {
            Some(a) => returns_own_land(context::definition_effects(a)),
            None => false,
        }),
{
    if let Some(a) = t.execute {
        let effects = context::definition_effects(a);
        if seqs::any(effects, bounces_land()) {
            let i = choose|i: int| 0 <= i < effects.len() && bounces_land()(#[trigger] effects[i]);
            assert(match effects[i].kind {
                EffectKind::Bounce { target } => own_land(target),
                _ => false,
            });
        }
        if returns_own_land(effects) {
            let i = choose|i: int|
                0 <= i < effects.len() && (match (#[trigger] effects[i]).kind {
                    EffectKind::Bounce { target } => own_land(target),
                    _ => false,
                });
            assert(bounces_land()(effects[i]));
        }
    }
}

/// Whether some effect returns a land that its controller has.
pub open spec fn returns_own_land(effects: Seq<Effect>) -> bool {
    exists|i: int|
        0 <= i < effects.len() && (match (#[trigger] effects[i]).kind {
            EffectKind::Bounce { target } => own_land(target),
            _ => false,
        })
}

/// A filter is for an own land only where some type condition of it is a land
/// or an alternative that has one.
pub proof fn law_own_land_filters_name_a_land(filter: TargetFilter)
    requires
        own_land(filter),
    ensures
        filter.shape matches FilterShape::Typed { type_filters, .. } && exists|i: int|
            0 <= i < type_filters@.len() && names_land(#[trigger] type_filters@[i]),
{
    if let FilterShape::Typed { controller, type_filters } = filter.shape {
        let q = |tf: TypeFilter| names_land(tf);
        let i = choose|i: int| 0 <= i < type_filters@.len() && q(#[trigger] type_filters@[i]);
        assert(names_land(type_filters@[i]));
    }
}

} // verus!
