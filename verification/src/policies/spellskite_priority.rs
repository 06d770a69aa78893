//! Redirecting a spell to a permanent of one's own.

use vstd::prelude::*;

use crate::features::DeckFeatures;
use crate::model::{
    contains_target, Effect, EffectKind, EffectPolarity, FilterShape, GameAction, GameState,
    ObjectId, PlayerId, ResolvedAbility, StackEntry, TargetRef,
};
use crate::seqs;

use super::activation;
use super::activation::always;
use super::context;
use super::context::{any_effect, collect_ability_effects, PolicyContext};
use super::registry;
use super::registry::{
    DecisionKind, PolicyId, PolicyReason, PolicyVerdict, Ruling, TacticalPolicy,
};

verus! {

/// Vetoes redirecting where there is nothing to redirect.
#[derive(Debug)]
pub struct SpellskitePriorityPolicy;

/// Whether an effect changes a target to its own source.
pub open spec fn redirects_to_self() -> spec_fn(Effect) -> bool {
    |e: Effect|
        match e.kind {
            EffectKind::ChangeTargets { forced_to } => match forced_to {
                Some(filter) => filter.shape is SelfRef,
                None => false,
            },
            _ => false,
        }
}

/// Whether an effect harms its target.
pub open spec fn harms() -> spec_fn(Effect) -> bool {
    |e: Effect| e.polarity == EffectPolarity::Harmful
}

/// Whether a target is the AI or a permanent of it.
pub open spec fn belongs_to(state: GameState, ai_player: PlayerId) -> spec_fn(TargetRef) -> bool {
    |t: TargetRef|
        match t {
            TargetRef::Player(p) => p == ai_player,
            TargetRef::Object(id) => match state.obj(id) {
                Some(o) => o.controller == ai_player,
                None => false,
            },
        }
}

/// Whether an ability harms the AI.
pub open spec fn harms_player(
    state: GameState,
    ai_player: PlayerId,
    ability: ResolvedAbility,
) -> bool {
    seqs::any(context::resolved_effects(ability), harms()) && seqs::any(
        ability.targets@,
        belongs_to(state, ai_player),
    )
}

/// The spells and abilities of others that harm the AI and could be, but are
/// not yet, pointed at the redirecting permanent.
pub open spec fn redirectable(
    state: GameState,
    ai_player: PlayerId,
    redirector: ObjectId,
) -> spec_fn(StackEntry) -> bool {
    |e: StackEntry|
        e.controller != ai_player && (match e.ability {
            Some(ability) => harms_player(state, ai_player, ability)
                && e.legal_new_targets@.contains(TargetRef::Object(redirector))
                && !ability.targets@.contains(TargetRef::Object(redirector)),
            None => false,
        })
}

/// What the policy says of a candidate.
pub open spec fn spellskite_ruling(ctx: PolicyContext<'_>) -> Ruling {
    match ctx.candidate.action {
        GameAction::ActivateAbility { source_id, .. } => if !seqs::any(
            context::effects_of(ctx),
            redirects_to_self(),
        ) {
            registry::neutrally(registry::because("spellskite_priority_na"@))
        } else if seqs::any(
            ctx.state.stack@,
            redirectable(*ctx.state, ctx.ai_player, source_id),
        ) {
            registry::neutrally(registry::because("spellskite_redirect_available"@))
        } else {
            registry::rejects(registry::because("spellskite_no_redirectable_threat"@))
        },
        _ => registry::neutrally(registry::because("spellskite_priority_na"@)),
    }
}

/// Nothing on the stack, nothing to redirect.
pub proof fn law_empty_stack_is_never_redirected(ctx: PolicyContext<'_>)
    requires
        ctx.candidate.action is ActivateAbility,
        seqs::any(context::effects_of(ctx), redirects_to_self()),
        ctx.state.stack@.len() == 0,
    ensures
        spellskite_ruling(ctx) is Reject,
{
}

/// Whether an effect changes a target to its own source.
fn is_forced_self_retarget(effect: &Effect) -> (r: bool)
    ensures
        r == redirects_to_self()(*effect),
{
    match &effect.kind {
        EffectKind::ChangeTargets { forced_to } => match forced_to {
            Some(filter) => matches!(filter.shape, FilterShape::SelfRef),
            None => false,
        },
        _ => false,
    }
}

/// Whether a target is the AI or a permanent of it.
fn target_belongs_to(state: &GameState, ai_player: PlayerId, target: TargetRef) -> (r: bool)
    ensures
        r == belongs_to(*state, ai_player)(target),
{
    match target {
        TargetRef::Player(p) => p == ai_player,
        TargetRef::Object(id) => match state.object(id) {
            Some(o) => o.controller == ai_player,
            None => false,
        },
    }
}

/// Whether an ability harms the AI.
fn ability_harms(state: &GameState, ai_player: PlayerId, ability: &ResolvedAbility) -> (r: bool)
    ensures
        r == harms_player(*state, ai_player, *ability),
{
    let harmful = |e: &Effect| -> (b: bool)
        ensures
            b == harms()(*e),
        { e.polarity == EffectPolarity::Harmful };
    let ours = |t: &TargetRef| -> (b: bool)
        ensures
            b == belongs_to(*state, ai_player)(*t),
        { target_belongs_to(state, ai_player, *t) };
    any_effect(&collect_ability_effects(ability), harmful, Ghost(harms())) && seqs::any_of(
        &ability.targets,
        ours,
        Ghost(belongs_to(*state, ai_player)),
    )
}

/// Whether something on the stack could be redirected.
fn stack_has_redirectable_threat(
    state: &GameState,
    ai_player: PlayerId,
    spellskite_id: ObjectId,
) -> (r: bool)
    ensures
        r == seqs::any(state.stack@, redirectable(*state, ai_player, spellskite_id)),
{
    let accepts = |e: &StackEntry| -> (b: bool)
        ensures
            b == redirectable(*state, ai_player, spellskite_id)(*e),
        {
            let here: TargetRef = TargetRef::Object(spellskite_id);
            e.controller != ai_player && (match &e.ability {
                Some(ability) => ability_harms(state, ai_player, ability) && contains_target(
                    &e.legal_new_targets,
                    here,
                ) && !contains_target(&ability.targets, here),
                None => false,
            })
        };
    seqs::any_of(&state.stack, accepts, Ghost(redirectable(*state, ai_player, spellskite_id)))
}

impl TacticalPolicy for SpellskitePriorityPolicy {
    open spec fn identity(&self) -> PolicyId {
        PolicyId::SpellskitePriority
    }

    open spec fn kinds(&self) -> Seq<DecisionKind> {
        seq![DecisionKind::ActivateAbility]
    }

    open spec fn weight(&self, features: DeckFeatures, state: GameState) -> Option<int> {
        activation::constant()
    }

    open spec fn ruling(&self, ctx: PolicyContext<'_>) -> Ruling {
        spellskite_ruling(ctx)
    }

    fn id(&self) -> PolicyId {
        PolicyId::SpellskitePriority
    }

    fn decision_kinds(&self) -> Vec<DecisionKind> {
        vec![DecisionKind::ActivateAbility]
    }

    fn activation(
        &self,
        _features: &DeckFeatures,
        _state: &GameState,
        _player: PlayerId,
    ) -> Option<i128> {
        always()
    }

    fn verdict(&self, ctx: &PolicyContext<'_>) -> PolicyVerdict {
        let source_id: ObjectId = match &ctx.candidate.action {
            GameAction::ActivateAbility { source_id, .. } => *source_id,
            _ => return PolicyVerdict::neutral(PolicyReason::new("spellskite_priority_na")),
        };
        let redirects = |e: &Effect| -> (b: bool)
            ensures
                b == redirects_to_self()(*e),
            { is_forced_self_retarget(e) };
        if !any_effect(&ctx.effects(), redirects, Ghost(redirects_to_self())) {
            return PolicyVerdict::neutral(PolicyReason::new("spellskite_priority_na"));
        }
        if stack_has_redirectable_threat(ctx.state, ctx.ai_player, source_id) {
            PolicyVerdict::neutral(PolicyReason::new("spellskite_redirect_available"))
        } else {
            PolicyVerdict::reject(PolicyReason::new("spellskite_no_redirectable_threat"))
        }
    }
}

/// Whether an entry of somebody else harms the AI or its permanents, may be
/// pointed at the redirector, and is not yet.
pub open spec fn worth_redirecting(
    state: GameState,
    ai_player: PlayerId,
    redirector: ObjectId,
    e: StackEntry,
) -> bool {
    &&& e.controller != ai_player
    &&& e.ability is Some
    &&& e.legal_new_targets@.contains(TargetRef::Object(redirector))
    &&& !e.ability->Some_0.targets@.contains(TargetRef::Object(redirector))
    &&& exists|i: int|
        0 <= i < context::resolved_effects(e.ability->Some_0).len() && (
        #[trigger] context::resolved_effects(e.ability->Some_0)[i]).polarity is Harmful
    &&& exists|i: int|
        0 <= i < e.ability->Some_0.targets@.len() && is_ours(
            state,
            ai_player,
            #[trigger] e.ability->Some_0.targets@[i],
        )
}

/// Whether a target is the AI or an object that the AI controls.
pub open spec fn is_ours(state: GameState, ai_player: PlayerId, t: TargetRef) -> bool {
    match t {
        TargetRef::Player(p) => p == ai_player,
        TargetRef::Object(id) => match state.obj(id) {
            Some(o) => o.controller == ai_player,
            None => false,
        },
    }
}

/// Activating an ability that redirects to its own source is vetoed exactly
/// where nothing on the stack is worth redirecting there; it is never scored.
pub proof fn law_redirecting_needs_a_threat(
    ctx: PolicyContext<'_>,
    source_id: ObjectId,
    index: usize,
)
    requires
        ctx.candidate.action == (GameAction::ActivateAbility { source_id, ability_index: index }),
    ensures
        ({
            let effects = context::effects_of(ctx);
            let redirects = exists|i: int|
                0 <= i < effects.len() && points_at_itself((#[trigger] effects[i]).kind);
            let threat = exists|i: int|
                0 <= i < ctx.state.stack@.len() && worth_redirecting(
                    *ctx.state,
                    ctx.ai_player,
                    source_id,
                    #[trigger] ctx.state.stack@[i],
                );
            let worth = SpellskitePriorityPolicy.ruling(ctx).worth();
            &&& worth is None <==> redirects && !threat
            &&& worth is Some ==> worth == Some(0int)
        }),
{
    let effects = context::effects_of(ctx);
    let stack = ctx.state.stack@;
    let q = redirectable(*ctx.state, ctx.ai_player, source_id);
    if seqs::any(effects, redirects_to_self()) {
        let i = choose|i: int| 0 <= i < effects.len() && redirects_to_self()(
            #[trigger] effects[i],
        );
        assert(points_at_itself(effects[i].kind));
    }
    if exists|i: int| 0 <= i < effects.len() && points_at_itself((#[trigger] effects[i]).kind) {
        let i = choose|i: int|
            0 <= i < effects.len() && points_at_itself((#[trigger] effects[i]).kind);
        assert(redirects_to_self()(effects[i]));
    }
    assert forall|i: int| 0 <= i < stack.len() implies q(#[trigger] stack[i]) == worth_redirecting(
        *ctx.state,
        ctx.ai_player,
        source_id,
        stack[i],
    ) by {
        lemma_worth_redirecting(*ctx.state, ctx.ai_player, source_id, stack[i]);
    }
    if seqs::any(stack, q) {
        let i = choose|i: int| 0 <= i < stack.len() && q(#[trigger] stack[i]);
        assert(worth_redirecting(*ctx.state, ctx.ai_player, source_id, stack[i]));
    }
    if exists|i: int|
        0 <= i < stack.len() && worth_redirecting(
            *ctx.state,
            ctx.ai_player,
            source_id,
            #[trigger] stack[i],
        ) {
        let i = choose|i: int|
            0 <= i < stack.len() && worth_redirecting(
                *ctx.state,
                ctx.ai_player,
                source_id,
                #[trigger] stack[i],
            );
        assert(q(stack[i]));
    }
}

/// What can be redirected is what is worth redirecting.
proof fn lemma_worth_redirecting(
    state: GameState,
    ai_player: PlayerId,
    redirector: ObjectId,
    e: StackEntry,
)
    ensures
        redirectable(state, ai_player, redirector)(e) == worth_redirecting(
            state,
            ai_player,
            redirector,
            e,
        ),
{
    if let Some(ability) = e.ability {
        let effects = context::resolved_effects(ability);
        let targets = ability.targets@;
        if seqs::any(effects, harms()) {
            let i = choose|i: int| 0 <= i < effects.len() && harms()(#[trigger] effects[i]);
            assert(effects[i].polarity is Harmful);
        }
        if exists|i: int| 0 <= i < effects.len() && (#[trigger] effects[i]).polarity is Harmful {
            let i = choose|i: int|
                0 <= i < effects.len() && (#[trigger] effects[i]).polarity is Harmful;
            assert(harms()(effects[i]));
        }
        if seqs::any(targets, belongs_to(state, ai_player)) {
            let i = choose|i: int| 0 <= i < targets.len() && belongs_to(state, ai_player)(
                #[trigger] targets[i],
            );
            assert(is_ours(state, ai_player, targets[i]));
        }
        if exists|i: int| 0 <= i < targets.len() && is_ours(
            state,
            ai_player,
            #[trigger] targets[i],
        ) {
            let i = choose|i: int|
                0 <= i < targets.len() && is_ours(state, ai_player, #[trigger] targets[i]);
            assert(belongs_to(state, ai_player)(targets[i]));
        }
    }
}

/// Whether an effect changes a target to its own source.
pub open spec fn points_at_itself(kind: EffectKind) -> bool {
    match kind {
        EffectKind::ChangeTargets { forced_to } => match forced_to {
            Some(filter) => filter.shape is SelfRef,
            None => false,
        },
        _ => false,
    }
}

/// Nothing but activating an ability is judged.
pub proof fn law_only_activations_are_judged(ctx: PolicyContext<'_>)
    ensures
        !(ctx.candidate.action is ActivateAbility) ==> SpellskitePriorityPolicy.ruling(ctx).worth()
            == Some(0int),
{
}

} // verus!
