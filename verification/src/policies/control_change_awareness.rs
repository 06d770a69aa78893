//! Abilities that would hand the AI's own permanents to somebody else.

use vstd::prelude::*;

use crate::config::ScoreBands;
use crate::features::DeckFeatures;
use crate::model::{
    Effect, EffectKind, GameAction, GameObject, GameState, ObjectId, PlayerId, TargetFilter,
    TargetRef, contains_target,
};
use crate::seqs;

use super::activation;
use super::activation::always;
use super::context;
use super::context::{collect_definition_effects, PolicyContext};
use super::registry;
use super::registry::{
    DecisionKind, PolicyId, PolicyReason, PolicyVerdict, Ruling, TacticalPolicy,
};

verus! {

/// Keeps the AI from giving away control of its own permanents. It is no
/// veto: there are permanents that one would rather be rid of.
#[derive(Debug)]
pub struct ControlChangeAwarenessPolicy;

/// Whether an effect changes who controls something.
pub open spec fn changes_control() -> spec_fn(Effect) -> bool {
    |e: Effect|
        match e.kind {
            EffectKind::GainControl => true,
            EffectKind::GainControlAll => true,
            EffectKind::ExchangeControl { .. } => true,
            EffectKind::GiveControl { .. } => true,
            _ => false,
        }
}

/// Whether an effect gives or exchanges control of something that one of its
/// filters, by `hits`, would take from the AI.
pub open spec fn gives_away(hits: spec_fn(TargetFilter) -> bool) -> spec_fn(Effect) -> bool {
    |e: Effect|
        match e.kind {
            EffectKind::ExchangeControl { target_a, target_b } => hits(target_a) || hits(target_b),
            EffectKind::GiveControl { target } => hits(target),
            _ => false,
        }
}

/// Whether a target is a permanent of the AI.
pub open spec fn own_target(ctx: PolicyContext<'_>) -> spec_fn(TargetRef) -> bool {
    |t: TargetRef|
        match t {
            TargetRef::Object(id) => match ctx.state.obj(id) {
                Some(o) => o.controller == ctx.ai_player,
                None => false,
            },
            TargetRef::Player(_) => false,
        }
}

/// The filters that could be pointed at a permanent of the AI.
pub open spec fn could_hit_own(ctx: PolicyContext<'_>) -> spec_fn(TargetFilter) -> bool {
    |f: TargetFilter| seqs::any(f.legal_targets@, own_target(ctx))
}

/// Whether a target is a permanent of the AI that a filter may be pointed at.
pub open spec fn own_target_of(
    ctx: PolicyContext<'_>,
    f: TargetFilter,
) -> spec_fn(TargetRef) -> bool {
    |t: TargetRef|
        own_target(ctx)(t) && context::source_of(ctx) is Some && f.legal_targets@.contains(t)
}

/// The filters that chosen targets point at a permanent of the AI.
pub open spec fn chosen_hit_own(
    ctx: PolicyContext<'_>,
    targets: Seq<TargetRef>,
) -> spec_fn(TargetFilter) -> bool {
    |f: TargetFilter| seqs::any(targets, own_target_of(ctx, f))
}

/// What the policy says of effects: nothing but where control is changed and a
/// permanent given away.
pub open spec fn control_ruling(
    effects: Seq<Effect>,
    hits: spec_fn(TargetFilter) -> bool,
    bands: ScoreBands,
) -> Ruling {
    if seqs::any(effects, changes_control()) && seqs::any(effects, gives_away(hits)) {
        registry::banded(
            -(bands.critical_max as int),
            bands.critical_max as int,
            registry::because("control_change_gives_away_permanent"@),
        )
    } else {
        registry::neutrally(registry::because("control_change_ok"@))
    }
}

/// What the policy says of chosen targets.
pub open spec fn chosen_ruling(ctx: PolicyContext<'_>, targets: Seq<TargetRef>) -> Ruling {
    if targets.len() == 0 {
        registry::neutrally(registry::because("control_change_na"@))
    } else {
        control_ruling(context::effects_of(ctx), chosen_hit_own(ctx, targets), ctx.config.bands)
    }
}

/// What the policy says of a candidate.
pub open spec fn control_change_ruling(ctx: PolicyContext<'_>) -> Ruling {
    let na = registry::neutrally(registry::because("control_change_na"@));
    match ctx.candidate.action {
        GameAction::ActivateAbility { source_id, ability_index } => match ctx.state.obj(
            source_id,
        ) {
            Some(o) => if ability_index < o.abilities@.len() {
                control_ruling(
                    context::definition_effects(o.abilities@[ability_index as int]),
                    could_hit_own(ctx),
                    ctx.config.bands,
                )
            } else {
                na
            },
            None => na,
        },
        GameAction::ChooseTarget { target } => match target {
            Some(t) => chosen_ruling(ctx, seq![t]),
            None => na,
        },
        GameAction::SelectTargets { targets } => chosen_ruling(ctx, targets@),
        _ => na,
    }
}

/// An effect that gives something away changes control.
proof fn lemma_giving_changes_control(
    effects: Seq<Effect>,
    hits: spec_fn(TargetFilter) -> bool,
)
    ensures
        seqs::any(effects, gives_away(hits)) ==> seqs::any(effects, changes_control()),
{
    if seqs::any(effects, gives_away(hits)) {
        let i = choose|i: int| 0 <= i < effects.len() && gives_away(hits)(#[trigger] effects[i]);
        assert(changes_control()(effects[i]));
    }
}

/// An ability that only takes control never draws the penalty.
pub proof fn law_taking_control_is_not_penalized(
    effects: Seq<Effect>,
    hits: spec_fn(TargetFilter) -> bool,
    bands: ScoreBands,
)
    requires
        forall|i: int|
            0 <= i < effects.len() ==> !((#[trigger] effects[i]).kind is ExchangeControl) && !(
            effects[i].kind is GiveControl),
    ensures
        control_ruling(effects, hits, bands) == registry::neutrally(
            registry::because("control_change_ok"@),
        ),
{
}

/// Giving something away is discouraged as strongly as a score can, never
/// vetoed.
pub proof fn law_giving_away_is_no_veto(ctx: PolicyContext<'_>)
    ensures
        control_change_ruling(ctx) matches Ruling::Score { delta, .. } && (delta == 0 || delta
            == -ctx.config.bands.critical_max),
{
}

/// Whether a target is a permanent of the AI.
fn is_own_target(ctx: &PolicyContext<'_>, target: TargetRef) -> (r: bool)
    ensures
        r == own_target(*ctx)(target),
{
    match target {
        TargetRef::Object(id) => match ctx.state.object(id) {
            Some(o) => o.controller == ctx.ai_player,
            None => false,
        },
        TargetRef::Player(_) => false,
    }
}

/// Whether a filter could be pointed at a permanent of the AI.
fn would_target_own_permanent(ctx: &PolicyContext<'_>, filter: &TargetFilter) -> (r: bool)
    ensures
        r == could_hit_own(*ctx)(*filter),
{
    let own = |t: &TargetRef| -> (b: bool)
        ensures
            b == own_target(*ctx)(*t),
        { is_own_target(ctx, *t) };
    seqs::any_of(&filter.legal_targets, own, Ghost(own_target(*ctx)))
}

/// Whether the chosen targets point a filter at a permanent of the AI.
fn selected_targets_include_own_permanent(
    ctx: &PolicyContext<'_>,
    targets: &Vec<TargetRef>,
    filter: &TargetFilter,
) -> (r: bool)
    ensures
        r == chosen_hit_own(*ctx, targets@)(*filter),
{
    let own = |t: &TargetRef| -> (b: bool)
        ensures
            b == own_target_of(*ctx, *filter)(*t),
        {
            is_own_target(ctx, *t) && ctx.source_object().is_some() && contains_target(
                &filter.legal_targets,
                *t,
            )
        };
    seqs::any_of(targets, own, Ghost(own_target_of(*ctx, *filter)))
}

/// The verdict on effects.
fn control_change_verdict<'b>(
    effects: &Vec<&'b Effect>,
    bands: &ScoreBands,
    hits_own: impl Fn(&TargetFilter) -> bool,
    Ghost(hits): Ghost<spec_fn(TargetFilter) -> bool>,
) -> (r: PolicyVerdict)
    requires
        forall|f: &TargetFilter| call_requires(hits_own, (f,)),
        forall|f: &TargetFilter, b: bool| call_ensures(hits_own, (f,), b) ==> b == hits(*f),
    ensures
        r@ == control_ruling(context::values(effects@), hits, *bands),
{
    proof {
        lemma_giving_changes_control(context::values(effects@), hits);
    }
    let mut i: usize = 0;
    while i < effects.len()
        invariant
            forall|f: &TargetFilter| call_requires(hits_own, (f,)),
            forall|f: &TargetFilter, b: bool| call_ensures(hits_own, (f,), b) ==> b == hits(*f),
            i <= effects@.len(),
            seqs::any(context::values(effects@), gives_away(hits)) ==> seqs::any(
                context::values(effects@),
                changes_control(),
            ),
            forall|j: int|
                0 <= j < i ==> !gives_away(hits)(#[trigger] context::values(effects@)[j]),
        decreases effects@.len() - i,
    {
        let ghost e = context::values(effects@)[i as int];
        let gives: bool = match &effects[i].kind {
            EffectKind::ExchangeControl { target_a, target_b } => hits_own(target_a) || hits_own(
                target_b,
            ),
            EffectKind::GiveControl { target } => hits_own(target),
            _ => false,
        };
        if gives {
            assert(gives_away(hits)(e));
            return PolicyVerdict::critical(
                -(bands.critical_max as i128),
                bands,
                PolicyReason::new("control_change_gives_away_permanent"),
            );
        }
        i += 1;
    }
    PolicyVerdict::neutral(PolicyReason::new("control_change_ok"))
}

/// The verdict on activating an ability.
fn score_activation(
    ctx: &PolicyContext<'_>,
    source_id: ObjectId,
    ability_index: usize,
) -> (r: PolicyVerdict)
    requires
        ctx.candidate.action == (GameAction::ActivateAbility { source_id, ability_index }),
    ensures
        r@ == control_change_ruling(*ctx),
{
    if let Some(obj) = ctx.state.object(source_id) {
        if ability_index < obj.abilities.len() {
            let effects = collect_definition_effects(&obj.abilities[ability_index]);
            let hits = |f: &TargetFilter| -> (b: bool)
                ensures
                    b == could_hit_own(*ctx)(*f),
                { would_target_own_permanent(ctx, f) };
            return control_change_verdict(
                &effects,
                &ctx.config.bands,
                hits,
                Ghost(could_hit_own(*ctx)),
            );
        }
    }
    PolicyVerdict::neutral(PolicyReason::new("control_change_na"))
}

/// The verdict on chosen targets.
fn score_selected_targets(ctx: &PolicyContext<'_>, targets: &Vec<TargetRef>) -> (r: PolicyVerdict)
    ensures
        r@ == chosen_ruling(*ctx, targets@),
{
    if targets.len() == 0 {
        return PolicyVerdict::neutral(PolicyReason::new("control_change_na"));
    }
    let effects = ctx.effects();
    let hits = |f: &TargetFilter| -> (b: bool)
        ensures
            b == chosen_hit_own(*ctx, targets@)(*f),
        { selected_targets_include_own_permanent(ctx, targets, f) };
    control_change_verdict(
        &effects,
        &ctx.config.bands,
        hits,
        Ghost(chosen_hit_own(*ctx, targets@)),
    )
}

impl TacticalPolicy for ControlChangeAwarenessPolicy {
    open spec fn identity(&self) -> PolicyId {
        PolicyId::ControlChangeAwareness
    }

    open spec fn kinds(&self) -> Seq<DecisionKind> {
        seq![DecisionKind::ActivateAbility, DecisionKind::SelectTarget]
    }

    open spec fn weight(&self, features: DeckFeatures, state: GameState) -> Option<int> {
        activation::constant()
    }

    open spec fn ruling(&self, ctx: PolicyContext<'_>) -> Ruling {
        control_change_ruling(ctx)
    }

    fn id(&self) -> PolicyId {
        PolicyId::ControlChangeAwareness
    }

    fn decision_kinds(&self) -> Vec<DecisionKind> {
        vec![DecisionKind::ActivateAbility, DecisionKind::SelectTarget]
    }

    fn activation(
        &self,
        _features: &DeckFeatures,
        _state: &GameState,
        _player: PlayerId,
    ) -> Option<i128> {
        always()
    }

    fn verdict(&self, ctx: &PolicyContext<'_>) -> PolicyVerdict {
        match &ctx.candidate.action {
            GameAction::ActivateAbility { source_id, ability_index } => score_activation(
                ctx,
                *source_id,
                *ability_index,
            ),
            GameAction::ChooseTarget { target } => match target {
                Some(t) => {
                    let targets = vec![*t];
                    assert(targets@ =~= seq![*t]);
                    score_selected_targets(ctx, &targets)
                },
                None => PolicyVerdict::neutral(PolicyReason::new("control_change_na")),
            },
            GameAction::SelectTargets { targets } => score_selected_targets(ctx, targets),
            _ => PolicyVerdict::neutral(PolicyReason::new("control_change_na")),
        }
    }
}

/// Whether some effect exchanges control through a filter that `hits`, or
/// gives it through one.
pub open spec fn hands_over(effects: Seq<Effect>, hits: spec_fn(TargetFilter) -> bool) -> bool {
    exists|i: int|
        0 <= i < effects.len() && (match (#[trigger] effects[i]).kind {
            EffectKind::ExchangeControl { target_a, target_b } => hits(target_a) || hits(target_b),
            EffectKind::GiveControl { target } => hits(target),
            _ => false,
        })
}

/// Effects draw the full penalty exactly where one of them exchanges or gives
/// away what the filters take from the AI.
pub proof fn law_penalty_exactly_for_giving_away(
    effects: Seq<Effect>,
    hits: spec_fn(TargetFilter) -> bool,
    bands: ScoreBands,
)
    ensures
        hands_over(effects, hits) ==> control_ruling(effects, hits, bands).worth() == Some(
            -(bands.critical_max as int),
        ),
        !hands_over(effects, hits) ==> control_ruling(effects, hits, bands).worth() == Some(0int),
{
    lemma_giving_changes_control(effects, hits);
    if seqs::any(effects, gives_away(hits)) {
        let i = choose|i: int| 0 <= i < effects.len() && gives_away(hits)(#[trigger] effects[i]);
        assert(match effects[i].kind {
            EffectKind::ExchangeControl { target_a, target_b } => hits(target_a) || hits(target_b),
            EffectKind::GiveControl { target } => hits(target),
            _ => false,
        });
    }
    if hands_over(effects, hits) {
        let i = choose|i: int|
            0 <= i < effects.len() && (match (#[trigger] effects[i]).kind {
                EffectKind::ExchangeControl { target_a, target_b } => hits(target_a) || hits(
                    target_b,
                ),
                EffectKind::GiveControl { target } => hits(target),
                _ => false,
            });
        assert(gives_away(hits)(effects[i]));
    }
}

/// A target is the AI's own exactly where it is an object that the AI
/// controls.
pub proof fn law_own_targets_are_own_objects(ctx: PolicyContext<'_>, t: TargetRef)
    ensures
        own_target(ctx)(t) <==> (match t {
            TargetRef::Object(id) => match ctx.state.obj(id) {
                Some(o) => o.controller == ctx.ai_player,
                None => false,
            },
            TargetRef::Player(_) => false,
        }),
{
}

/// Activating an ability that gives away, or exchanges, what a filter may be
/// pointed at is penalized where a permanent of the AI is a legal target of
/// that filter.
pub proof fn law_activation_may_give_away(
    ctx: PolicyContext<'_>,
    source_id: ObjectId,
    ability_index: usize,
    o: GameObject,
    t: TargetRef,
)
    requires
        ctx.candidate.action == (GameAction::ActivateAbility { source_id, ability_index }),
        ctx.state.obj(source_id) == Some(o),
        ability_index < o.abilities@.len(),
    ensures
        ({
            let effect = o.abilities@[ability_index as int].effect;
            let own = match t {
                TargetRef::Object(id) => match ctx.state.obj(id) {
                    Some(p) => p.controller == ctx.ai_player,
                    None => false,
                },
                TargetRef::Player(_) => false,
            };
            let worth = ControlChangeAwarenessPolicy.ruling(ctx).worth();
            let penalty = Some(-(ctx.config.bands.critical_max as int));
            match effect.kind {
                EffectKind::GiveControl { target } => own && target.legal_targets@.contains(t)
                    ==> worth == penalty,
                EffectKind::ExchangeControl { target_a, target_b } => own && (
                target_a.legal_targets@.contains(t) || target_b.legal_targets@.contains(t))
                    ==> worth == penalty,
                _ => true,
            }
        }),
{
    let ability = o.abilities@[ability_index as int];
    let effects = context::definition_effects(ability);
    let hits = could_hit_own(ctx);
    law_penalty_exactly_for_giving_away(effects, hits, ctx.config.bands);
    assert(effects[0] == ability.effect);
    match ability.effect.kind {
        EffectKind::GiveControl { target } => {
            lemma_hits(ctx, target, t);
            if hits(target) {
                assert(gives_away(hits)(effects[0]));
            }
        },
        EffectKind::ExchangeControl { target_a, target_b } => {
            lemma_hits(ctx, target_a, t);
            lemma_hits(ctx, target_b, t);
            if hits(target_a) || hits(target_b) {
                assert(gives_away(hits)(effects[0]));
            }
        },
        _ => {},
    }
}

/// A filter with a legal target of the AI's own could hit one.
proof fn lemma_hits(ctx: PolicyContext<'_>, f: TargetFilter, t: TargetRef)
    ensures
        own_target(ctx)(t) && f.legal_targets@.contains(t) ==> could_hit_own(ctx)(f),
{
    if own_target(ctx)(t) && f.legal_targets@.contains(t) {
        let i = choose|i: int| 0 <= i < f.legal_targets@.len() && f.legal_targets@[i] == t;
        assert(own_target(ctx)(f.legal_targets@[i]));
    }
}

/// Choosing targets is penalized exactly where some effect gives away, or
/// exchanges, through a filter that a chosen permanent of the AI is a legal
/// target of.
pub proof fn law_chosen_targets_may_give_away(
    ctx: PolicyContext<'_>,
    targets: Seq<TargetRef>,
    filter: TargetFilter,
)
    requires
        context::source_of(ctx) is Some,
    ensures
        chosen_hit_own(ctx, targets)(filter) <==> exists|i: int|
            0 <= i < targets.len() && own_target(ctx)(#[trigger] targets[i])
                && filter.legal_targets@.contains(targets[i]),
        targets.len() > 0 && hands_over(context::effects_of(ctx), chosen_hit_own(ctx, targets))
            ==> chosen_ruling(ctx, targets).worth() == Some(
            -(ctx.config.bands.critical_max as int),
        ),
        targets.len() == 0 || !hands_over(
            context::effects_of(ctx),
            chosen_hit_own(ctx, targets),
        ) ==> chosen_ruling(ctx, targets).worth() == Some(0int),
{
    law_penalty_exactly_for_giving_away(
        context::effects_of(ctx),
        chosen_hit_own(ctx, targets),
        ctx.config.bands,
    );
    let q = own_target_of(ctx, filter);
    if chosen_hit_own(ctx, targets)(filter) {
        let i = choose|i: int| 0 <= i < targets.len() && q(#[trigger] targets[i]);
        assert(own_target(ctx)(targets[i]));
    }
    if exists|i: int|
        0 <= i < targets.len() && own_target(ctx)(#[trigger] targets[i])
            && filter.legal_targets@.contains(targets[i]) {
        let i = choose|i: int|
            0 <= i < targets.len() && own_target(ctx)(#[trigger] targets[i])
                && filter.legal_targets@.contains(targets[i]);
        assert(q(targets[i]));
    }
}

/// The targets that are judged are those that the action chooses.
pub proof fn law_judged_targets_are_the_chosen(ctx: PolicyContext<'_>)
    ensures
        match ctx.candidate.action {
            GameAction::ChooseTarget { target } => match target {
                Some(t) => ControlChangeAwarenessPolicy.ruling(ctx) == chosen_ruling(
                    ctx,
                    seq![t],
                ),
                None => ControlChangeAwarenessPolicy.ruling(ctx).worth() == Some(0int),
            },
            GameAction::SelectTargets { targets } => ControlChangeAwarenessPolicy.ruling(ctx)
                == chosen_ruling(ctx, targets@),
            GameAction::ActivateAbility { .. } => true,
            _ => ControlChangeAwarenessPolicy.ruling(ctx).worth() == Some(0int),
        },
{
}

/// Activating an ability is penalized exactly where one of its effects gives
/// away, or exchanges, through a filter with a legal target that the AI
/// controls; an ability that is not there is left alone.
pub proof fn law_activation_is_judged_by_its_effects(
    ctx: PolicyContext<'_>,
    source_id: ObjectId,
    ability_index: usize,
)
    requires
        ctx.candidate.action == (GameAction::ActivateAbility { source_id, ability_index }),
    ensures
        ({
            let worth = ControlChangeAwarenessPolicy.ruling(ctx).worth();
            match ctx.state.obj(source_id) {
                Some(o) => if (ability_index as int) < o.abilities@.len() {
                    let gives = hands_over(
                        context::definition_effects(o.abilities@[ability_index as int]),
                        |f: TargetFilter|
                            exists|i: int|
                                0 <= i < f.legal_targets@.len() && own_target(ctx)(
                                    #[trigger] f.legal_targets@[i],
                                ),
                    );
                    worth == (if gives {
                        Some(-(ctx.config.bands.critical_max as int))
                    } else {
                        Some(0int)
                    })
                } else {
                    worth == Some(0int)
                },
                None => worth == Some(0int),
            }
        }),
{
    if let Some(o) = ctx.state.obj(source_id) {
        if (ability_index as int) < o.abilities@.len() {
            let effects = context::definition_effects(o.abilities@[ability_index as int]);
            law_penalty_exactly_for_giving_away(effects, could_hit_own(ctx), ctx.config.bands);
            let hits = |f: TargetFilter|
                exists|i: int|
                    0 <= i < f.legal_targets@.len() && own_target(ctx)(
                        #[trigger] f.legal_targets@[i],
                    );
            assert(could_hit_own(ctx) =~= hits);
        }
    }
}

} // verus!
