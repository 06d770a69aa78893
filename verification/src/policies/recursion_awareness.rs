//! Removal against creatures that come back or leave something behind.

use vstd::prelude::*;

use crate::features::DeckFeatures;
use crate::model::{
    CoreType, Effect, EffectKind, EffectPolarity, GameAction, GameObject, GameState, ObjectId,
    PlayerId, TargetRef, TriggerDefinition, TriggerMode, Zone,
};
use crate::seqs;

use super::activation;
use super::activation::turn_only;
use super::context;
use super::context::{any_effect, PolicyContext};
use super::registry;
use super::registry::{
    DecisionKind, PolicyId, PolicyReason, PolicyVerdict, Ruling, TacticalPolicy,
};

verus! {

/// Exiles what would come back, and does not waste destruction on it.
#[derive(Debug)]
pub struct RecursionAwarenessPolicy;

/// Whether an effect harms its target.
pub open spec fn harms() -> spec_fn(Effect) -> bool {
    |e: Effect| e.polarity == EffectPolarity::Harmful
}

/// Whether an effect puts its target into the graveyard.
pub open spec fn kills() -> spec_fn(Effect) -> bool {
    |e: Effect|
        match e.kind {
            EffectKind::Destroy => true,
            EffectKind::DealDamage => true,
            EffectKind::Sacrifice { .. } => true,
            _ => false,
        }
}

/// Whether an effect exiles its target.
pub open spec fn exiles() -> spec_fn(Effect) -> bool {
    |e: Effect|
        match e.kind {
            EffectKind::ChangeZone { destination, .. } => destination == Zone::Exile,
            _ => false,
        }
}

/// Whether a trigger happens when its source dies. A trigger on leaving the
/// battlefield for wherever does.
pub open spec fn on_death() -> spec_fn(TriggerDefinition) -> bool {
    |t: TriggerDefinition|
        t.mode == TriggerMode::ChangesZone && t.origin == Some(Zone::Battlefield) && (
        t.destination == Some(Zone::Graveyard) || t.destination is None)
}

/// What it means to use effects on a creature: one that comes back had better
/// be exiled than killed, one that leaves something behind had better not be
/// killed.
pub open spec fn recursion_value(
    ctx: PolicyContext<'_>,
    effects: Seq<Effect>,
    target: GameObject,
) -> int {
    let penalties = ctx.config.policy_penalties;
    let buried = seqs::any(effects, kills());
    if !seqs::any(effects, harms()) || !target.has_type(CoreType::Creature) {
        0
    } else if target.has_recursion_keyword {
        (if buried {
            penalties.recursion_destroy_penalty as int
        } else {
            0
        }) + (if seqs::any(effects, exiles()) {
            penalties.recursion_exile_bonus as int
        } else {
            0
        })
    } else if seqs::any(target.trigger_definitions@, on_death()) && buried {
        penalties.death_trigger_destroy_penalty as int
    } else {
        0
    }
}

/// What the policy adds to a candidate.
pub open spec fn recursion_score(ctx: PolicyContext<'_>) -> int {
    match ctx.candidate.action {
        GameAction::ChooseTarget { target } => match target {
            Some(TargetRef::Object(id)) => match ctx.state.obj(id) {
                Some(o) => recursion_value(ctx, context::effects_of(ctx), o),
                None => 0,
            },
            _ => 0,
        },
        _ => 0,
    }
}

/// Whether an object has a trigger on its death.
fn has_death_trigger(obj: &GameObject) -> (r: bool)
    ensures
        r == seqs::any(obj.trigger_definitions@, on_death()),
{
    let dies = |t: &TriggerDefinition| -> (b: bool)
        ensures
            b == on_death()(*t),
        {
            let leaves: bool = match t.origin {
                Some(z) => z == Zone::Battlefield,
                None => false,
            };
            let to_graveyard: bool = match t.destination {
                Some(z) => z == Zone::Graveyard,
                None => true,
            };
            t.mode == TriggerMode::ChangesZone && leaves && to_graveyard
        };
    seqs::any_of(&obj.trigger_definitions, dies, Ghost(on_death()))
}

impl RecursionAwarenessPolicy {
    /// What the policy adds to a candidate.
    pub fn score(&self, ctx: &PolicyContext<'_>) -> (r: i128)
        ensures
            r == recursion_score(*ctx),
    {
        let target_id: ObjectId = match &ctx.candidate.action {
            GameAction::ChooseTarget { target } => match target {
                Some(t) => match t {
                    TargetRef::Object(id) => *id,
                    TargetRef::Player(_) => return 0,
                },
                None => return 0,
            },
            _ => return 0,
        };
        let effects = ctx.effects();
        let harmful = |e: &Effect| -> (b: bool)
            ensures
                b == harms()(*e),
            { e.polarity == EffectPolarity::Harmful };
        let target = match ctx.state.object(target_id) {
            Some(o) => o,
            None => return 0,
        };
        if !any_effect(&effects, harmful, Ghost(harms())) || !target.is_type(CoreType::Creature) {
            return 0;
        }
        let killing = |e: &Effect| -> (b: bool)
            ensures
                b == kills()(*e),
            {
                matches!(
                    e.kind,
                    EffectKind::Destroy | EffectKind::DealDamage | EffectKind::Sacrifice { .. }
                )
            };
        let exiling = |e: &Effect| -> (b: bool)
            ensures
                b == exiles()(*e),
            {
                match &e.kind {
                    EffectKind::ChangeZone { destination, .. } => *destination == Zone::Exile,
                    _ => false,
                }
            };
        let sends_to_graveyard: bool = any_effect(&effects, killing, Ghost(kills()));
        let mut score: i128 = 0;
        if target.has_recursion_keyword {
            if sends_to_graveyard {
                score += ctx.penalties().recursion_destroy_penalty as i128;
            }
            if any_effect(&effects, exiling, Ghost(exiles())) {
                score += ctx.penalties().recursion_exile_bonus as i128;
            }
        } else if has_death_trigger(target) && sends_to_graveyard {
            score += ctx.penalties().death_trigger_destroy_penalty as i128;
        }
        score
    }
}

impl TacticalPolicy for RecursionAwarenessPolicy {
    open spec fn identity(&self) -> PolicyId {
        PolicyId::RecursionAwareness
    }

    open spec fn kinds(&self) -> Seq<DecisionKind> {
        seq![DecisionKind::SelectTarget]
    }

    open spec fn weight(&self, features: DeckFeatures, state: GameState) -> Option<int> {
        activation::by_turn(features)
    }

    open spec fn ruling(&self, ctx: PolicyContext<'_>) -> Ruling {
        registry::scores(
            recursion_score(ctx),
            registry::because("recursion_awareness_score"@),
        )
    }

    fn id(&self) -> PolicyId {
        PolicyId::RecursionAwareness
    }

    fn decision_kinds(&self) -> Vec<DecisionKind> {
        vec![DecisionKind::SelectTarget]
    }

    fn activation(
        &self,
        features: &DeckFeatures,
        _state: &GameState,
        _player: PlayerId,
    ) -> Option<i128> {
        turn_only(features)
    }

    fn verdict(&self, ctx: &PolicyContext<'_>) -> PolicyVerdict {
        PolicyVerdict::Score {
            delta: self.score(ctx),
            reason: PolicyReason::new("recursion_awareness_score"),
        }
    }
}

/// Harming a creature that comes back draws the penalty where it is killed and
/// the bonus where it is exiled, both where both happen; one that leaves
/// something behind draws the other penalty where it is killed; nothing else
/// is judged.
pub proof fn law_exile_what_comes_back(
    ctx: PolicyContext<'_>,
    id: ObjectId,
    o: GameObject,
)
    requires
        ctx.candidate.action == (GameAction::ChooseTarget { target: Some(TargetRef::Object(id)) }),
        ctx.state.obj(id) == Some(o),
    ensures
        ({
            let effects = context::effects_of(ctx);
            let p = ctx.config.policy_penalties;
            let harmful = exists|i: int|
                0 <= i < effects.len() && (#[trigger] effects[i]).polarity is Harmful;
            let killed = exists|i: int|
                0 <= i < effects.len() && buries((#[trigger] effects[i]).kind);
            let exiled = exists|i: int|
                0 <= i < effects.len() && removes_for_good((#[trigger] effects[i]).kind);
            let creature = o.core_types@.contains(CoreType::Creature);
            let back = o.has_recursion_keyword;
            let behind = exists|i: int|
                0 <= i < o.trigger_definitions@.len() && happens_on_death(
                    #[trigger] o.trigger_definitions@[i],
                );
            let worth = RecursionAwarenessPolicy.ruling(ctx).worth();
            &&& !harmful || !creature ==> worth == Some(0int)
            &&& harmful && creature && back ==> worth == Some(
                (if killed {
                    p.recursion_destroy_penalty as int
                } else {
                    0
                }) + (if exiled {
                    p.recursion_exile_bonus as int
                } else {
                    0
                }),
            )
            &&& harmful && creature && !back && behind && killed ==> worth == Some(
                p.death_trigger_destroy_penalty as int,
            )
            &&& harmful && creature && !back && (!behind || !killed) ==> worth == Some(0int)
        }),
{
    let effects = context::effects_of(ctx);
    lemma_some_effect(effects, harms(), |e: Effect| e.polarity is Harmful);
    lemma_some_effect(effects, kills(), |e: Effect| buries(e.kind));
    lemma_some_effect(effects, exiles(), |e: Effect| removes_for_good(e.kind));
    let h = |e: Effect| e.polarity is Harmful;
    let b = |e: Effect| buries(e.kind);
    let g = |e: Effect| removes_for_good(e.kind);
    assert(seqs::any(effects, h) == exists|i: int|
        0 <= i < effects.len() && (#[trigger] effects[i]).polarity is Harmful) by {
        if seqs::any(effects, h) {
            let i = choose|i: int| 0 <= i < effects.len() && h(#[trigger] effects[i]);
            assert(effects[i].polarity is Harmful);
        }
        if exists|i: int| 0 <= i < effects.len() && (#[trigger] effects[i]).polarity is Harmful {
            let i = choose|i: int|
                0 <= i < effects.len() && (#[trigger] effects[i]).polarity is Harmful;
            assert(h(effects[i]));
        }
    }
    assert(seqs::any(effects, b) == exists|i: int|
        0 <= i < effects.len() && buries((#[trigger] effects[i]).kind)) by {
        if seqs::any(effects, b) {
            let i = choose|i: int| 0 <= i < effects.len() && b(#[trigger] effects[i]);
            assert(buries(effects[i].kind));
        }
        if exists|i: int| 0 <= i < effects.len() && buries((#[trigger] effects[i]).kind) {
            let i = choose|i: int| 0 <= i < effects.len() && buries((#[trigger] effects[i]).kind);
            assert(b(effects[i]));
        }
    }
    assert(seqs::any(effects, g) == exists|i: int|
        0 <= i < effects.len() && removes_for_good((#[trigger] effects[i]).kind)) by {
        if seqs::any(effects, g) {
            let i = choose|i: int| 0 <= i < effects.len() && g(#[trigger] effects[i]);
            assert(removes_for_good(effects[i].kind));
        }
        if exists|i: int| 0 <= i < effects.len() && removes_for_good((#[trigger] effects[i]).kind) {
            let i = choose|i: int|
                0 <= i < effects.len() && removes_for_good((#[trigger] effects[i]).kind);
            assert(g(effects[i]));
        }
    }
    let t = o.trigger_definitions@;
    if seqs::any(t, on_death()) {
        let i = choose|i: int| 0 <= i < t.len() && on_death()(#[trigger] t[i]);
        assert(happens_on_death(t[i]));
    }
    if exists|i: int| 0 <= i < t.len() && happens_on_death(#[trigger] t[i]) {
        let i = choose|i: int| 0 <= i < t.len() && happens_on_death(#[trigger] t[i]);
        assert(on_death()(t[i]));
    }
}

/// Predicates that agree are met by the same effects.
proof fn lemma_some_effect(
    effects: Seq<Effect>,
    p: spec_fn(Effect) -> bool,
    q: spec_fn(Effect) -> bool,
)
    requires
        forall|e: Effect| #[trigger] p(e) == q(e),
    ensures
        seqs::any(effects, p) == seqs::any(effects, q),
{
    if seqs::any(effects, p) {
        let i = choose|i: int| 0 <= i < effects.len() && p(#[trigger] effects[i]);
        assert(q(effects[i]));
    }
    if seqs::any(effects, q) {
        let i = choose|i: int| 0 <= i < effects.len() && q(#[trigger] effects[i]);
        assert(p(effects[i]) == q(effects[i]));
    }
}

/// Whether an effect destroys, damages or sacrifices.
pub open spec fn buries(kind: EffectKind) -> bool {
    kind is Destroy || kind is DealDamage || kind is Sacrifice
}

/// Whether an effect moves something into exile.
pub open spec fn removes_for_good(kind: EffectKind) -> bool {
    match kind {
        EffectKind::ChangeZone { destination, .. } => destination is Exile,
        _ => false,
    }
}

/// Whether a trigger happens when its source goes from the battlefield to the
/// graveyard, or to wherever.
pub open spec fn happens_on_death(t: TriggerDefinition) -> bool {
    t.mode is ChangesZone && t.origin == Some(Zone::Battlefield) && (match t.destination {
        Some(z) => z is Graveyard,
        None => true,
    })
}

/// Only the choice of an object as a target is judged.
pub proof fn law_only_chosen_objects_are_judged(ctx: PolicyContext<'_>)
    ensures
        !(ctx.candidate.action is ChooseTarget) ==> RecursionAwarenessPolicy.ruling(ctx).worth()
            == Some(0int),
        ctx.candidate.action == (GameAction::ChooseTarget { target: None })
            ==> RecursionAwarenessPolicy.ruling(ctx).worth() == Some(0int),
{
}

/// Players and what is no object are not judged as targets.
pub proof fn law_players_are_not_judged(ctx: PolicyContext<'_>, p: PlayerId, id: ObjectId)
    ensures
        ctx.candidate.action == (GameAction::ChooseTarget { target: Some(TargetRef::Player(p)) })
            ==> RecursionAwarenessPolicy.ruling(ctx).worth() == Some(0int),
        ctx.candidate.action == (GameAction::ChooseTarget { target: Some(TargetRef::Object(id)) })
            && ctx.state.obj(id) is None ==> RecursionAwarenessPolicy.ruling(ctx).worth() == Some(
            0int,
        ),
{
}

} // verus!
