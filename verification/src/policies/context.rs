//! What a policy is told about the candidate it judges.

use vstd::prelude::*;

use crate::combo::ComboReachability;
use crate::config::{AiConfig, PolicyPenalties};
use crate::eval;
use crate::eval::{strategic_intent, StrategicIntent};
use crate::features::AiSession;
use crate::model;
use crate::model::{
    AbilityDefinition, CoreType, Effect, GameAction, GameObject, GameState, ObjectId, PlayerId,
    ResolvedAbility, TargetFilter, TargetRef, WaitingFor,
};
use crate::projection::Projection;
use crate::seqs;

verus! {

/// Where a position stands in the search: it is the one that an action will be
/// committed in, or a hypothetical one.
#[derive(Debug, Clone, Copy, PartialEq, Eq, Structural)]
pub enum SearchDepth {
    Root,
    Lookahead,
}

/// The time that is left for a decision.
#[derive(Debug, Clone, Copy, PartialEq, Eq, Structural)]
pub struct Deadline {
    pub expired: bool,
    /// `None` where there is no limit.
    pub remaining_ms: Option<u128>,
}

/// What the AI carries from decision to decision.
#[derive(Debug)]
pub struct AiContext {
    pub deadline: Deadline,
    pub session: AiSession,
    /// How near each combo line of the AI's deck is to being played.
    pub combo_lines: Vec<ComboReachability>,
}

/// What the effects of an action come to.
#[derive(Debug, Clone, Copy, PartialEq, Eq, Structural)]
pub struct EffectProfile {
    pub has_search_library: bool,
    pub has_draw: bool,
    pub has_direct_removal_text: bool,
    pub has_reveal_hand_or_discard: bool,
}

/// What is known of a spell that is being cast.
#[derive(Debug)]
pub struct CastFacts {
    pub object: GameObject,
    pub mana_value: u32,
    /// The abilities of the spell itself.
    pub primary_effects: Vec<AbilityDefinition>,
    /// Everything that happens at once, triggers on entering among it.
    pub immediate_effects: Vec<Effect>,
    /// How many of its triggers happen on entering.
    pub immediate_etb_triggers: usize,
    /// How many of its replacement effects apply on entering.
    pub immediate_replacements: usize,
    pub profile: EffectProfile,
}

/// An action that may be taken, with what is known of it.
#[derive(Debug)]
pub struct CandidateAction {
    pub action: GameAction,
    /// Present for a spell.
    pub cast_facts: Option<CastFacts>,
    /// Present for a spell or an activated ability.
    pub effect_profile: Option<EffectProfile>,
    /// The activated ability that the action stands for, granted ones among
    /// them.
    pub effective_ability: Option<AbilityDefinition>,
    /// What choosing the object as a target does to it, in millionths of its
    /// worth: negative where it is harmed.
    pub target_impact: Option<i64>,
    /// A simulation of the next turn of the target's controller, made for this
    /// candidate.
    pub projection: Option<Projection>,
}

/// A decision: what is asked, and what may be answered.
#[derive(Debug)]
pub struct AiDecisionContext {
    pub waiting_for: WaitingFor,
    pub candidates: Vec<CandidateAction>,
}

/// What a policy is told.
#[derive(Debug)]
pub struct PolicyContext<'a> {
    pub state: &'a GameState,
    pub decision: &'a AiDecisionContext,
    pub candidate: &'a CandidateAction,
    pub ai_player: PlayerId,
    pub config: &'a AiConfig,
    pub context: &'a AiContext,
    pub cast_facts: Option<&'a CastFacts>,
    pub search_depth: SearchDepth,
}

/// What stays the same for all candidates of a decision.
#[derive(Debug)]
pub struct PriorsEnv<'a> {
    pub state: &'a GameState,
    pub decision: &'a AiDecisionContext,
    pub ai_player: PlayerId,
    pub config: &'a AiConfig,
    pub context: &'a AiContext,
    pub search_depth: SearchDepth,
}

impl<'a> PriorsEnv<'a> {
    /// What a policy is told about one candidate of the decision.
    pub fn for_candidate(&self, candidate: &'a CandidateAction) -> (r: PolicyContext<'a>)
        ensures
            r.state == self.state,
            r.decision == self.decision,
            r.candidate == candidate,
            r.ai_player == self.ai_player,
            r.config == self.config,
            r.context == self.context,
            r.cast_facts is None,
            r.search_depth == self.search_depth,
    {
        PolicyContext {
            state: self.state,
            decision: self.decision,
            candidate,
            ai_player: self.ai_player,
            config: self.config,
            context: self.context,
            cast_facts: None,
            search_depth: self.search_depth,
        }
    }
}

/// The values behind references.
pub open spec fn values<A>(refs: Seq<&A>) -> Seq<A> {
    refs.map_values(|r: &A| *r)
}

/// The effects of an ability, in the order in which they resolve.
pub open spec fn definition_effects(ability: AbilityDefinition) -> Seq<Effect>
    decreases ability,
{
    match ability.sub_ability {
        Some(sub) => seq![ability.effect] + definition_effects(*sub),
        None => seq![ability.effect],
    }
}

/// The effects of an ability on its way to resolution, in order.
pub open spec fn resolved_effects(ability: ResolvedAbility) -> Seq<Effect>
    decreases ability,
{
    match ability.sub_ability {
        Some(sub) => seq![ability.effect] + resolved_effects(*sub),
        None => seq![ability.effect],
    }
}

/// The effects of several abilities, one after the other.
pub open spec fn all_definition_effects(abilities: Seq<AbilityDefinition>) -> Seq<Effect>
    decreases abilities.len(),
{
    if abilities.len() == 0 {
        Seq::empty()
    } else {
        all_definition_effects(abilities.drop_last()) + definition_effects(abilities.last())
    }
}

/// Adds the effects of an ability to `effects`.
fn push_definition_effects<'b>(ability: &'b AbilityDefinition, effects: &mut Vec<&'b Effect>)
    ensures
        values(final(effects)@) == values(old(effects)@) + definition_effects(*ability),
    decreases *ability,
{
    effects.push(&ability.effect);
    assert(values(effects@) =~= values(old(effects)@) + seq![ability.effect]);
    if let Some(sub) = &ability.sub_ability {
        push_definition_effects(sub, effects);
        assert(values(effects@) =~= values(old(effects)@) + (seq![ability.effect]
            + definition_effects(**sub)));
    }
}

/// The effects of an ability, in the order in which they resolve.
pub fn collect_definition_effects<'b>(ability: &'b AbilityDefinition) -> (r: Vec<&'b Effect>)
    ensures
        values(r@) == definition_effects(*ability),
{
    let mut effects: Vec<&'b Effect> = Vec::new();
    push_definition_effects(ability, &mut effects);
    assert(values(effects@) =~= definition_effects(*ability));
    effects
}

/// Adds the effects of an ability on its way to resolution to `effects`.
fn push_resolved_effects<'b>(ability: &'b ResolvedAbility, effects: &mut Vec<&'b Effect>)
    ensures
        values(final(effects)@) == values(old(effects)@) + resolved_effects(*ability),
    decreases *ability,
{
    effects.push(&ability.effect);
    assert(values(effects@) =~= values(old(effects)@) + seq![ability.effect]);
    if let Some(sub) = &ability.sub_ability {
        push_resolved_effects(sub, effects);
        assert(values(effects@) =~= values(old(effects)@) + (seq![ability.effect]
            + resolved_effects(**sub)));
    }
}

/// The effects of an ability on its way to resolution, in order.
pub fn collect_ability_effects<'b>(ability: &'b ResolvedAbility) -> (r: Vec<&'b Effect>)
    ensures
        values(r@) == resolved_effects(*ability),
{
    let mut effects: Vec<&'b Effect> = Vec::new();
    push_resolved_effects(ability, &mut effects);
    assert(values(effects@) =~= resolved_effects(*ability));
    effects
}

/// Whether one of the collected effects is accepted by `p`. The predicate `q`
/// is what `p` decides.
pub(crate) fn any_effect<'b>(
    effects: &Vec<&'b Effect>,
    p: impl Fn(&Effect) -> bool,
    Ghost(q): Ghost<spec_fn(Effect) -> bool>,
) -> (r: bool)
    requires
        forall|e: &Effect| call_requires(p, (e,)),
        forall|e: &Effect, b: bool| call_ensures(p, (e,), b) ==> b == q(*e),
    ensures
        r == seqs::any(values(effects@), q),
{
    let mut i: usize = 0;
    while i < effects.len()
        invariant
            forall|e: &Effect| call_requires(p, (e,)),
            forall|e: &Effect, b: bool| call_ensures(p, (e,), b) ==> b == q(*e),
            i <= effects@.len(),
            forall|j: int| 0 <= j < i ==> !q(#[trigger] values(effects@)[j]),
        decreases effects@.len() - i,
    {
        let ghost e = values(effects@)[i as int];
        if p(effects[i]) {
            assert(q(e));
            return true;
        }
        i += 1;
    }
    false
}

/// The source of a candidate: the card being cast, the object whose ability is
/// activated, or, while targets are chosen, the object that asks for them.
pub open spec fn source_of(ctx: PolicyContext<'_>) -> Option<GameObject> {
    match ctx.candidate.action {
        GameAction::CastSpell { card_id, .. } => model::find_card(ctx.state.objects@, card_id),
        GameAction::ActivateAbility { source_id, .. } => ctx.state.obj(source_id),
        GameAction::ChooseTarget { .. } => target_source_of(ctx),
        GameAction::SelectTargets { .. } => target_source_of(ctx),
        _ => None,
    }
}

/// The object that asks for targets.
pub open spec fn target_source_of(ctx: PolicyContext<'_>) -> Option<GameObject> {
    match ctx.decision.waiting_for {
        WaitingFor::TargetSelection { object_id, .. } => ctx.state.obj(object_id),
        WaitingFor::MultiTargetSelection { pending_ability } => ctx.state.obj(
            pending_ability.source_id,
        ),
        WaitingFor::TriggerTargetSelection { source_id } => match source_id {
            Some(id) => ctx.state.obj(id),
            None => None,
        },
        _ => None,
    }
}

/// The effects of a candidate: those of the card being cast, of the ability
/// being activated, or, for any other action, of what is asking for targets.
pub open spec fn effects_of(ctx: PolicyContext<'_>) -> Seq<Effect> {
    match ctx.candidate.action {
        GameAction::CastSpell { .. } => match source_of(ctx) {
            Some(o) => all_definition_effects(o.abilities@),
            None => Seq::empty(),
        },
        GameAction::ActivateAbility { source_id, ability_index } => match ctx.state.obj(
            source_id,
        ) {
            Some(o) => if ability_index < o.abilities@.len() {
                definition_effects(o.abilities@[ability_index as int])
            } else {
                Seq::empty()
            },
            None => Seq::empty(),
        },
        _ => match ctx.decision.waiting_for {
            WaitingFor::TargetSelection { ability, .. } => resolved_effects(ability),
            WaitingFor::MultiTargetSelection { pending_ability } => resolved_effects(
                pending_ability,
            ),
            WaitingFor::TriggerTargetSelection { .. } => match ctx.state.pending_trigger {
                Some(ability) => resolved_effects(ability),
                None => Seq::empty(),
            },
            _ => Seq::empty(),
        },
    }
}

/// What is known of the spell that an action casts, `None` for any other
/// action.
pub open spec fn spell_facts(candidate: CandidateAction) -> Option<CastFacts> {
    match candidate.action {
        GameAction::CastSpell { .. } => candidate.cast_facts,
        _ => None,
    }
}

/// What is known of the spell that an action casts.
pub fn cast_facts_for_action<'b>(candidate: &'b CandidateAction) -> (r: Option<&'b CastFacts>)
    ensures
        model::deref_opt(r) == spell_facts(*candidate),
{
    match &candidate.action {
        GameAction::CastSpell { .. } => match &candidate.cast_facts {
            Some(f) => Some(f),
            None => None,
        },
        _ => None,
    }
}

/// What is known of the spell that a candidate casts.
pub open spec fn facts_of(ctx: PolicyContext<'_>) -> Option<CastFacts> {
    match ctx.cast_facts {
        Some(f) => Some(*f),
        None => spell_facts(*ctx.candidate),
    }
}

/// What the effects of a candidate come to.
pub open spec fn profile_of(ctx: PolicyContext<'_>) -> Option<EffectProfile> {
    match ctx.cast_facts {
        Some(f) => Some(f.profile),
        None => ctx.candidate.effect_profile,
    }
}

/// Whether an object is a creature of somebody else that satisfies `relevant`.
pub open spec fn opposing_creature(
    ctx: PolicyContext<'_>,
    relevant: spec_fn(ObjectId) -> bool,
) -> spec_fn(TargetRef) -> bool {
    |t: TargetRef|
        match t {
            TargetRef::Object(id) => match ctx.state.obj(id) {
                Some(o) => o.controller != ctx.ai_player && o.has_type(CoreType::Creature)
                    && relevant(id),
                None => false,
            },
            TargetRef::Player(_) => false,
        }
}

impl<'a> PolicyContext<'a> {
    /// A valid position in which the AI has a seat.
    pub open spec fn valid(self) -> bool {
        self.state.valid() && self.state.seated(self.ai_player)
    }

    /// What the board asks of the AI.
    pub fn strategic_intent(&self) -> (r: StrategicIntent)
        requires
            self.valid(),
        ensures
            r == eval::intent(*self.state, self.ai_player),
    {
        strategic_intent(self.state, self.ai_player)
    }

    /// The penalties in force.
    pub fn penalties(&self) -> (r: &PolicyPenalties)
        ensures
            *r == self.config.policy_penalties,
    {
        &self.config.policy_penalties
    }

    /// Whether the time for the decision is up.
    pub fn deadline_expired(&self) -> (r: bool)
        ensures
            r == self.context.deadline.expired,
    {
        self.context.deadline.expired
    }

    /// Whether there is time for a projection: the deadline has not passed,
    /// and at least the configured minimum is left.
    pub open spec fn affords_projection(self) -> bool {
        let floor = self.config.search.projection_min_budget_ms;
        !self.context.deadline.expired && (floor == 0 || (
        self.context.deadline.remaining_ms matches Some(ms) ==> ms >= floor))
    }

    /// Whether there is time for a projection.
    pub fn can_afford_projection(&self) -> (r: bool)
        ensures
            r == self.affords_projection(),
    {
        if self.context.deadline.expired {
            return false;
        }
        let floor: u128 = self.config.search.projection_min_budget_ms;
        if floor == 0 {
            return true;
        }
        match self.context.deadline.remaining_ms {
            Some(ms) => ms >= floor,
            None => true,
        }
    }

    /// Whether an action will be committed in this position.
    pub fn at_root(&self) -> (r: bool)
        ensures
            r == (self.search_depth == SearchDepth::Root),
    {
        self.search_depth == SearchDepth::Root
    }

    /// The source of the candidate.
    pub fn source_object(&self) -> (r: Option<&'a GameObject>)
        ensures
            model::deref_opt(r) == source_of(*self),
    {
        match &self.candidate.action {
            GameAction::CastSpell { card_id, .. } => self.state.object_of_card(*card_id),
            GameAction::ActivateAbility { source_id, .. } => self.state.object(*source_id),
            GameAction::ChooseTarget { .. } => self.target_source(),
            GameAction::SelectTargets { .. } => self.target_source(),
            _ => None,
        }
    }

    /// The object that asks for targets.
    fn target_source(&self) -> (r: Option<&'a GameObject>)
        ensures
            model::deref_opt(r) == target_source_of(*self),
    {
        match &self.decision.waiting_for {
            WaitingFor::TargetSelection { object_id, .. } => self.state.object(*object_id),
            WaitingFor::MultiTargetSelection { pending_ability } => self.state.object(
                pending_ability.source_id,
            ),
            WaitingFor::TriggerTargetSelection { source_id } => match source_id {
                Some(id) => self.state.object(*id),
                None => None,
            },
            _ => None,
        }
    }

    /// The effects of the candidate.
    pub fn effects(&self) -> (r: Vec<&'a Effect>)
        ensures
            values(r@) == effects_of(*self),
    {
        let none: Vec<&'a Effect> = Vec::new();
        assert(values(none@) =~= Seq::<Effect>::empty());
        match &self.candidate.action {
            GameAction::CastSpell { .. } => {
                return match self.source_object() {
                    Some(object) => object_effects(object),
                    None => none,
                };
            },
            GameAction::ActivateAbility { source_id, ability_index } => {
                return match self.state.object(*source_id) {
                    Some(object) => {
                        if *ability_index < object.abilities.len() {
                            collect_definition_effects(&object.abilities[*ability_index])
                        } else {
                            none
                        }
                    },
                    None => none,
                };
            },
            _ => {},
        }
        match &self.decision.waiting_for {
            WaitingFor::TargetSelection { ability, .. } => collect_ability_effects(ability),
            WaitingFor::MultiTargetSelection { pending_ability } => collect_ability_effects(
                pending_ability,
            ),
            WaitingFor::TriggerTargetSelection { .. } => match &self.state.pending_trigger {
                Some(ability) => collect_ability_effects(ability),
                None => none,
            },
            _ => none,
        }
    }

    /// What is known of the spell that the candidate casts.
    pub fn cast_facts(&self) -> (r: Option<&'a CastFacts>)
        ensures
            model::deref_opt(r) == facts_of(*self),
    {
        match self.cast_facts {
            Some(f) => Some(f),
            None => cast_facts_for_action(self.candidate),
        }
    }

    /// The activated ability that the candidate stands for.
    pub fn effective_activated_ability(&self) -> (r: Option<&'a AbilityDefinition>)
        ensures
            model::deref_opt(r) == self.candidate.effective_ability,
    {
        match &self.candidate.effective_ability {
            Some(a) => Some(a),
            None => None,
        }
    }

    /// What the effects of the candidate come to.
    pub fn effect_profile(&self) -> (r: Option<EffectProfile>)
        ensures
            r == profile_of(*self),
    {
        match self.cast_facts {
            Some(f) => Some(f.profile),
            None => self.candidate.effect_profile,
        }
    }

    /// Whether a filter can legally be pointed at a creature of somebody else
    /// that `is_relevant` accepts.
    pub fn has_legal_opponent_creature_target(
        &self,
        filter: &TargetFilter,
        is_relevant: impl Fn(ObjectId) -> bool,
    ) -> (r: bool)
        requires
            forall|id: ObjectId| call_requires(is_relevant, (id,)),
        ensures
            forall|relevant: spec_fn(ObjectId) -> bool|
                (forall|id: ObjectId, b: bool|
                    call_ensures(is_relevant, (id,), b) ==> b == relevant(id)) ==> r
                    == seqs::any(
                    filter.legal_targets@,
                    #[trigger] opposing_creature(*self, relevant),
                ),
    {
        let mut i: usize = 0;
        while i < filter.legal_targets.len()
            invariant
                forall|id: ObjectId| call_requires(is_relevant, (id,)),
                i <= filter.legal_targets@.len(),
                forall|relevant: spec_fn(ObjectId) -> bool|
                    (forall|id: ObjectId, b: bool|
                        call_ensures(is_relevant, (id,), b) ==> b == relevant(id)) ==> forall|
                        j: int,
                    |
                        0 <= j < i ==> !(#[trigger] opposing_creature(*self, relevant))(
                            #[trigger] filter.legal_targets@[j],
                        ),
            decreases filter.legal_targets@.len() - i,
        {
            let ghost t = filter.legal_targets@[i as int];
            if let TargetRef::Object(id) = filter.legal_targets[i] {
                if let Some(o) = self.state.object(id) {
                    if o.controller != self.ai_player && o.is_type(CoreType::Creature) {
                        let relevant: bool = is_relevant(id);
                        if relevant {
                            return true;
                        }
                    }
                }
            }
            i += 1;
        }
        false
    }
}

/// The effects of all abilities of an object.
fn object_effects<'b>(object: &'b GameObject) -> (r: Vec<&'b Effect>)
    ensures
        values(r@) == all_definition_effects(object.abilities@),
{
    let mut effects: Vec<&'b Effect> = Vec::new();
    let ghost abilities = object.abilities@;
    let mut i: usize = 0;
    assert(values(effects@) =~= all_definition_effects(abilities.take(0)));
    while i < object.abilities.len()
        invariant
            abilities == object.abilities@,
            i <= abilities.len(),
            values(effects@) == all_definition_effects(abilities.take(i as int)),
        decreases abilities.len() - i,
    {
        assert(abilities.take(i + 1).drop_last() =~= abilities.take(i as int));
        push_definition_effects(&object.abilities[i], &mut effects);
        i += 1;
    }
    assert(abilities.take(abilities.len() as int) =~= abilities);
    effects
}

/// The effects of an ability start with its own and go on with those of the
/// ability that follows it, if there is one.
pub proof fn law_effects_follow_the_chain(a: AbilityDefinition, r: ResolvedAbility)
    ensures
        definition_effects(a)[0] == a.effect,
        a.sub_ability is None ==> definition_effects(a).len() == 1,
        a.sub_ability matches Some(sub) ==> definition_effects(a).drop_first()
            == definition_effects(*sub),
        resolved_effects(r)[0] == r.effect,
        r.sub_ability is None ==> resolved_effects(r).len() == 1,
        r.sub_ability matches Some(sub) ==> resolved_effects(r).drop_first() == resolved_effects(
            *sub,
        ),
{
    if let Some(sub) = a.sub_ability {
        assert(definition_effects(a).drop_first() =~= definition_effects(*sub));
    }
    if let Some(sub) = r.sub_ability {
        assert(resolved_effects(r).drop_first() =~= resolved_effects(*sub));
    }
}

/// The effects of several abilities are those of each, in their order.
pub proof fn law_effects_of_several_abilities(
    abilities: Seq<AbilityDefinition>,
    a: AbilityDefinition,
)
    ensures
        all_definition_effects(abilities.push(a)) == all_definition_effects(abilities)
            + definition_effects(a),
        all_definition_effects(Seq::<AbilityDefinition>::empty()).len() == 0,
{
    assert(abilities.push(a).drop_last() =~= abilities);
}

/// A candidate acts by the effects of the card it casts, of the ability it
/// activates, or of what is asking for targets.
pub proof fn law_candidate_acts_by_its_source(ctx: PolicyContext<'_>)
    ensures
        match ctx.candidate.action {
            GameAction::CastSpell { card_id, .. } => match model::find_card(
                ctx.state.objects@,
                card_id,
            ) {
                Some(o) => source_of(ctx) == Some(o) && effects_of(ctx) == all_definition_effects(
                    o.abilities@,
                ),
                None => source_of(ctx) is None && effects_of(ctx).len() == 0,
            },
            GameAction::ActivateAbility { source_id, ability_index } => {
                &&& source_of(ctx) == ctx.state.obj(source_id)
                &&& ctx.state.obj(source_id) matches Some(o) ==> (if (ability_index as int)
                    < o.abilities@.len() {
                    effects_of(ctx) == definition_effects(o.abilities@[ability_index as int])
                } else {
                    effects_of(ctx).len() == 0
                })
                &&& ctx.state.obj(source_id) is None ==> effects_of(ctx).len() == 0
            },
            _ => match ctx.decision.waiting_for {
                WaitingFor::TargetSelection { object_id, ability } => effects_of(ctx)
                    == resolved_effects(ability) && (ctx.candidate.action is ChooseTarget
                    || ctx.candidate.action is SelectTargets ==> source_of(ctx) == ctx.state.obj(
                    object_id,
                )),
                WaitingFor::MultiTargetSelection { pending_ability } => effects_of(ctx)
                    == resolved_effects(pending_ability) && (ctx.candidate.action is ChooseTarget
                    || ctx.candidate.action is SelectTargets ==> source_of(ctx) == ctx.state.obj(
                    pending_ability.source_id,
                )),
                WaitingFor::TriggerTargetSelection { source_id } => (
                ctx.state.pending_trigger matches Some(a) ==> effects_of(ctx) == resolved_effects(
                    a,
                )) && (ctx.state.pending_trigger is None ==> effects_of(ctx).len() == 0) && (
                source_id is None ==> source_of(ctx) is None) && (ctx.candidate.action
                    is ChooseTarget || ctx.candidate.action is SelectTargets ==> (
                source_id matches Some(id) ==> source_of(ctx) == ctx.state.obj(id))),
                _ => effects_of(ctx).len() == 0 && source_of(ctx) is None,
            },
        },
{
}

/// Facts that a context brings along come before those of the candidate, and
/// only a spell has any of its own.
pub proof fn law_facts_of_a_spell(ctx: PolicyContext<'_>)
    ensures
        ctx.cast_facts matches Some(f) ==> facts_of(ctx) == Some(*f) && profile_of(ctx) == Some(
            f.profile,
        ),
        ctx.cast_facts is None && ctx.candidate.action is CastSpell ==> facts_of(ctx)
            == ctx.candidate.cast_facts,
        ctx.cast_facts is None && !(ctx.candidate.action is CastSpell) ==> facts_of(ctx) is None,
        ctx.cast_facts is None ==> profile_of(ctx) == ctx.candidate.effect_profile,
{
}

/// A projection is affordable only before the deadline, and then where nothing
/// must be left, where there is no limit, or where enough is left of it.
pub proof fn law_projection_needs_time(ctx: PolicyContext<'_>)
    ensures
        ctx.context.deadline.expired ==> !ctx.affords_projection(),
        !ctx.context.deadline.expired && ctx.config.search.projection_min_budget_ms == 0
            ==> ctx.affords_projection(),
        !ctx.context.deadline.expired && ctx.context.deadline.remaining_ms is None
            ==> ctx.affords_projection(),
        !ctx.context.deadline.expired && ctx.config.search.projection_min_budget_ms > 0 ==> (
        ctx.context.deadline.remaining_ms matches Some(ms) ==> (ctx.affords_projection() <==> ms
            >= ctx.config.search.projection_min_budget_ms)),
{
}

/// A target is an opposing creature exactly where it is an object that is a
/// creature, somebody else controls it, and it is relevant.
pub proof fn law_opposing_creature_targets(
    ctx: PolicyContext<'_>,
    relevant: spec_fn(ObjectId) -> bool,
    t: TargetRef,
)
    ensures
        opposing_creature(ctx, relevant)(t) <==> (match t {
            TargetRef::Object(id) => relevant(id) && (match ctx.state.obj(id) {
                Some(o) => o.controller != ctx.ai_player && o.core_types@.contains(
                    CoreType::Creature,
                ),
                None => false,
            }),
            TargetRef::Player(_) => false,
        }),
{
}

/// What the readings of a context return.
pub proof fn law_context_readings_return_their_values<'a>(
    ctx: &PolicyContext<'a>,
    effects: Vec<&'a Effect>,
    source: Option<&'a GameObject>,
    facts: Option<&'a CastFacts>,
    profile: Option<EffectProfile>,
    ability: Option<&'a AbilityDefinition>,
    affords: bool,
    root: bool,
    expired: bool,
    intent: StrategicIntent,
)
    requires
        call_ensures(PolicyContext::<'a>::effects, (ctx,), effects),
        call_ensures(PolicyContext::<'a>::source_object, (ctx,), source),
        call_ensures(PolicyContext::<'a>::cast_facts, (ctx,), facts),
        call_ensures(PolicyContext::<'a>::effect_profile, (ctx,), profile),
        call_ensures(PolicyContext::<'a>::effective_activated_ability, (ctx,), ability),
        call_ensures(PolicyContext::<'a>::can_afford_projection, (ctx,), affords),
        call_ensures(PolicyContext::<'a>::at_root, (ctx,), root),
        call_ensures(PolicyContext::<'a>::deadline_expired, (ctx,), expired),
        call_ensures(PolicyContext::<'a>::strategic_intent, (ctx,), intent),
    ensures
        values(effects@) == effects_of(*ctx),
        source is None <==> source_of(*ctx) is None,
        source matches Some(o) ==> source_of(*ctx) == Some(*o),
        facts is None <==> facts_of(*ctx) is None,
        facts matches Some(f) ==> facts_of(*ctx) == Some(*f),
        profile == profile_of(*ctx),
        ability is None <==> ctx.candidate.effective_ability is None,
        ability matches Some(a) ==> ctx.candidate.effective_ability == Some(*a),
        affords <==> ctx.affords_projection(),
        root <==> ctx.search_depth is Root,
        expired <==> ctx.context.deadline.expired,
        intent == eval::intent(*ctx.state, ctx.ai_player),
{
}

/// What is collected of an ability are its effects, its own first; and a
/// context made for a candidate is about that candidate and nothing else.
pub proof fn law_collected_effects_are_all<'a>(
    a: &'a AbilityDefinition,
    r: &'a ResolvedAbility,
    defined: Vec<&'a Effect>,
    resolved: Vec<&'a Effect>,
    env: &PriorsEnv<'a>,
    candidate: &'a CandidateAction,
    ctx: PolicyContext<'a>,
)
    requires
        call_ensures(collect_definition_effects, (a,), defined),
        call_ensures(collect_ability_effects, (r,), resolved),
        call_ensures(PriorsEnv::<'a>::for_candidate, (env, candidate), ctx),
    ensures
        defined@.len() > 0 && *defined@[0] == a.effect,
        resolved@.len() > 0 && *resolved@[0] == r.effect,
        values(defined@) == definition_effects(*a),
        values(resolved@) == resolved_effects(*r),
        a.sub_ability is None ==> defined@.len() == 1,
        r.sub_ability is None ==> resolved@.len() == 1,
        ctx.candidate == candidate,
        ctx.state == env.state && ctx.decision == env.decision && ctx.ai_player == env.ai_player,
        ctx.config == env.config && ctx.context == env.context && ctx.search_depth
            == env.search_depth,
        ctx.cast_facts is None,
{
    law_effects_follow_the_chain(*a, *r);
    assert(values(defined@)[0] == *defined@[0]);
    assert(values(resolved@)[0] == *resolved@[0]);
}

/// What `has_legal_opponent_creature_target` returns is whether some legal
/// target is a creature of somebody else that is relevant.
pub proof fn law_legal_creature_targets_are_found<'a, F: Fn(ObjectId) -> bool>(
    ctx: &PolicyContext<'a>,
    filter: &TargetFilter,
    is_relevant: F,
    relevant: spec_fn(ObjectId) -> bool,
    r: bool,
)
    requires
        call_ensures(
            PolicyContext::<'a>::has_legal_opponent_creature_target,
            (ctx, filter, is_relevant),
            r,
        ),
        forall|id: ObjectId, b: bool| call_ensures(is_relevant, (id,), b) ==> b == relevant(id),
    ensures
        r <==> exists|i: int|
            0 <= i < filter.legal_targets@.len() && (match #[trigger] filter.legal_targets@[i] {
                TargetRef::Object(id) => relevant(id) && (match ctx.state.obj(id) {
                    Some(o) => o.controller != ctx.ai_player && o.core_types@.contains(
                        CoreType::Creature,
                    ),
                    None => false,
                }),
                TargetRef::Player(_) => false,
            }),
{
    let q = opposing_creature(*ctx, relevant);
    let targets = filter.legal_targets@;
    if seqs::any(targets, q) {
        let i = choose|i: int| 0 <= i < targets.len() && q(#[trigger] targets[i]);
        law_opposing_creature_targets(*ctx, relevant, targets[i]);
        assert(targets[i] is Object);
    }
    if exists|i: int|
        0 <= i < targets.len() && (match #[trigger] targets[i] {
            TargetRef::Object(id) => relevant(id) && (match ctx.state.obj(id) {
                Some(o) => o.controller != ctx.ai_player && o.core_types@.contains(
                    CoreType::Creature,
                ),
                None => false,
            }),
            TargetRef::Player(_) => false,
        }) {
        let i = choose|i: int|
            0 <= i < targets.len() && (match #[trigger] targets[i] {
                TargetRef::Object(id) => relevant(id) && (match ctx.state.obj(id) {
                    Some(o) => o.controller != ctx.ai_player && o.core_types@.contains(
                        CoreType::Creature,
                    ),
                    None => false,
                }),
                TargetRef::Player(_) => false,
            });
        assert(q(targets[i]));
    }
}

} // verus!
