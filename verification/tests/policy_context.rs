//! What policies are told, and what they share.
#![allow(dead_code)]

use phase_ai::config::{AiConfig, PolicyPenalties, ScoreBands, SearchConfig};
use phase_ai::features::{
    AggroPressureFeature, AiSession, CommanderBracketTier, ControlFeature, DeckArchetype,
    DeckFeatures, ManaRampFeature, PlusOneCountersFeature, SeatFeatures, TokensWideFeature,
};
use phase_ai::policies::context::{
    AiContext, AiDecisionContext, CandidateAction, Deadline, PolicyContext, SearchDepth,
};
use phase_ai::policies::registry::{PolicyVerdict, TacticalPolicy};
use phase_ai::model::{
    AbilityDefinition, AbilityKind, BlockPair, CardId, CoreType, Effect, EffectKind,
    EffectPolarity, FilterShape, GameAction, GameObject, GameState, Keyword, ObjectId, Phase,
    Player, PlayerId, QuantityExpr, ResolvedAbility, StackEntry, TargetFilter, TargetRef,
    TriggerDefinition, TriggerMode, WaitingFor, WardCost, Zone,
};
use phase_ai::policies::context::{CastFacts, EffectProfile, PriorsEnv};
use phase_ai::policies::strategy_helpers::{
    available_mana_after_spell, battlefield_pressure_delta, best_proactive_cast_score,
    board_presence_score, can_pay_ward_cost, count_counterspells_in_hand, count_own_lands,
    is_own_main_phase, legal_blocker_count, opponent_lethal_damage, sacrifice_cost,
    targetable_threat_value, untapped_opponent_blocker_value, visible_opponent_creature_value,
};

const AI: PlayerId = PlayerId(0);
const OPP: PlayerId = PlayerId(1);

fn new_player(id: u8, players: u8) -> Player {
    Player {
        id: PlayerId(id),
        life: 20,
        hand: Vec::new(),
        energy: 0,
        is_eliminated: false,
        mana_pool_total: 0,
        available_mana: 0,
        opponents: (0..players).filter(|p| *p != id).map(PlayerId).collect(),
    }
}

fn new_table(players: u8) -> GameState {
    GameState {
        players: (0..players).map(|id| new_player(id, players)).collect(),
        objects: Vec::new(),
        battlefield: Vec::new(),
        stack: Vec::new(),
        revealed_cards: Vec::new(),
        turn_number: 0,
        phase: Phase::PreCombatMain,
        active_player: PlayerId(0),
        turn_decision_maker: PlayerId(0),
        in_combat: false,
        waiting_for: WaitingFor::Priority { player: PlayerId(0) },
        pending_cast_demand: None,
        pending_trigger: None,
        optional_effect: None,
        starting_life: 20,
        commander_damage_threshold: None,
        commander_headroom: Vec::new(),
        legal_blocks: Vec::new(),
    }
}

fn add_object(state: &mut GameState, owner: PlayerId, name: &str, zone: Zone) -> ObjectId {
    let n = state.objects.len() as u64 + 1;
    let id = ObjectId(n);
    state.objects.push(GameObject {
        id,
        card_id: CardId(n),
        name: name.to_string(),
        owner,
        controller: owner,
        zone,
        core_types: Vec::new(),
        subtypes: Vec::new(),
        power: None,
        toughness: None,
        loyalty: None,
        keywords: Vec::new(),
        mana_value: 0,
        tapped: false,
        summoning_sick: false,
        is_token: false,
        is_emblem: false,
        is_commander: false,
        abilities: Vec::new(),
        trigger_definitions: Vec::new(),
        replacement_definitions: Vec::new(),
        counters: Vec::new(),
        is_anthem: false,
        is_mana_dork: false,
        is_land_fetch_spell: false,
        is_ritual: false,
        has_recursion_keyword: false,
    });
    match zone {
        Zone::Battlefield => state.battlefield.push(id),
        Zone::Hand => state.players[owner.0 as usize].hand.push(id),
        _ => {}
    }
    id
}

fn object_mut(state: &mut GameState, id: ObjectId) -> &mut GameObject {
    state.objects.iter_mut().find(|o| o.id == id).unwrap()
}

fn add_creature(
    state: &mut GameState,
    owner: PlayerId,
    power: i32,
    toughness: i32,
    keywords: Vec<Keyword>,
) -> ObjectId {
    let id = add_object(state, owner, "Creature", Zone::Battlefield);
    let obj = object_mut(state, id);
    obj.core_types.push(CoreType::Creature);
    obj.power = Some(power);
    obj.toughness = Some(toughness);
    obj.keywords = keywords;
    id
}

fn filter(shape: FilterShape) -> TargetFilter {
    TargetFilter {
        shape,
        legal_targets: Vec::new(),
        matching_objects: Vec::new(),
        matching_players: Vec::new(),
        references_land: false,
    }
}

/// A filter for anything, which may be pointed at everything on the
/// battlefield.
fn anything(state: &GameState) -> TargetFilter {
    TargetFilter {
        legal_targets: state.battlefield.iter().map(|id| TargetRef::Object(*id)).collect(),
        matching_objects: state.battlefield.clone(),
        ..filter(FilterShape::Any)
    }
}

fn effect(kind: EffectKind) -> Effect {
    Effect { kind, polarity: EffectPolarity::Contextual, creature_target: None }
}

fn harmful(kind: EffectKind) -> Effect {
    Effect { kind, polarity: EffectPolarity::Harmful, creature_target: None }
}

fn draw(value: i32) -> Effect {
    effect(EffectKind::Draw {
        count: QuantityExpr::Fixed { value },
        target: filter(FilterShape::Controller),
    })
}

fn ability(kind: AbilityKind, effect: Effect) -> AbilityDefinition {
    AbilityDefinition {
        kind,
        effect,
        sub_ability: None,
        cost: None,
        ability_tag: None,
        is_mana_ability: false,
        proliferates: false,
        places_plus_one_counter: false,
        condition_currently_met: None,
        land_sacrifice_protection: None,
    }
}

fn resolved(
    effect: Effect,
    targets: Vec<TargetRef>,
    source_id: ObjectId,
    controller: PlayerId,
) -> ResolvedAbility {
    ResolvedAbility {
        effect,
        targets,
        source_id,
        controller,
        sub_ability: None,
        has_else_ability: false,
        has_repeat_for: false,
        has_player_scope: false,
    }
}

fn deck() -> DeckFeatures {
    DeckFeatures {
        tokens_wide: TokensWideFeature { commitment: 0 },
        plus_one_counters: PlusOneCountersFeature {
            commitment: 0,
            commitment_floor: 300_000,
            committed_value_floor: 500_000,
            payoff_names: Vec::new(),
        },
        mana_ramp: ManaRampFeature { commitment: 0 },
        aggro_pressure: AggroPressureFeature { commitment: 0 },
        control: ControlFeature {
            commitment: 0,
            reactive_tempo: 0,
            reactive_tempo_floor: 300_000,
        },
        bracket_tier: CommanderBracketTier::Core,
        archetype: DeckArchetype::Midrange,
        turn_multiplier: 1_000_000,
    }
}

fn settings() -> AiConfig {
    AiConfig {
        policy_penalties: PolicyPenalties {
            sacrifice_land_penalty: 5_000_000,
            sacrifice_token_cost: 500_000,
            evasion_removal_bonus_mult: 500_000,
            protect_spell_bonus_mult: 250_000,
            lethality_tapout_penalty: -3_000_000,
            low_life_defensive_bonus: 300_000,
            low_life_aggro_penalty: -400_000,
            recursion_destroy_penalty: -1_500_000,
            recursion_exile_bonus: 800_000,
            death_trigger_destroy_penalty: -700_000,
            cycling_needed_land_penalty: -2_500_000,
            cycling_patience_penalty: -1_000_000,
            combo_progress_this_turn_bonus: 10_000_000,
            combo_progress_next_turn_bonus: 5_000_000,
            loop_shortcut_winning_declare_bonus: 8_000_000,
        },
        search: SearchConfig { enabled: true, projection_min_budget_ms: 500 },
        bands: ScoreBands {
            nudge_max: 500_000,
            preference_max: 2_000_000,
            strong_max: 6_000_000,
            critical_max: 15_000_000,
        },
        interaction_patience: 1_000_000,
    }
}

fn memory() -> AiContext {
    AiContext {
        deadline: Deadline { expired: false, remaining_ms: None },
        session: AiSession { features: Vec::new(), plan: Vec::new(), projections: Vec::new() },
        combo_lines: Vec::new(),
    }
}

fn memory_of(features: DeckFeatures) -> AiContext {
    let mut context = memory();
    context.session.features.push(SeatFeatures { player: AI, features });
    context
}

fn action(action: GameAction) -> CandidateAction {
    CandidateAction {
        action,
        cast_facts: None,
        effect_profile: None,
        effective_ability: None,
        target_impact: None,
        projection: None,
    }
}

fn cast(object_id: ObjectId) -> CandidateAction {
    action(GameAction::CastSpell { object_id, card_id: CardId(object_id.0) })
}

fn activate(source_id: ObjectId, ability_index: usize) -> CandidateAction {
    action(GameAction::ActivateAbility { source_id, ability_index })
}

fn point_at(target: TargetRef) -> CandidateAction {
    action(GameAction::ChooseTarget { target: Some(target) })
}

fn priority() -> WaitingFor {
    WaitingFor::Priority { player: AI }
}

/// The question for the targets of a spell with the given ability.
fn targets_of(ability: ResolvedAbility) -> WaitingFor {
    WaitingFor::TargetSelection { object_id: ability.source_id, ability }
}

/// Tells `f` what a policy is told.
fn told<R>(
    state: &GameState,
    waiting_for: WaitingFor,
    candidate: &CandidateAction,
    config: &AiConfig,
    context: &AiContext,
    f: impl FnOnce(&PolicyContext<'_>) -> R,
) -> R {
    let decision = AiDecisionContext { waiting_for, candidates: Vec::new() };
    f(&PolicyContext {
        state,
        decision: &decision,
        candidate,
        ai_player: AI,
        config,
        context,
        cast_facts: None,
        search_depth: SearchDepth::Root,
    })
}

/// What a policy says where nothing but the position and the candidate matters.
fn judged<P: TacticalPolicy>(
    policy: P,
    state: &GameState,
    candidate: &CandidateAction,
) -> PolicyVerdict {
    told(state, priority(), candidate, &settings(), &memory(), |ctx| policy.verdict(ctx))
}

fn scored(verdict: PolicyVerdict) -> (i128, &'static str) {
    match verdict {
        PolicyVerdict::Score { delta, reason } => (delta, reason.kind),
        PolicyVerdict::Reject { reason } => panic!("unexpected veto: {}", reason.kind),
    }
}

fn vetoed(verdict: PolicyVerdict) -> &'static str {
    match verdict {
        PolicyVerdict::Reject { reason } => reason.kind,
        PolicyVerdict::Score { delta, .. } => panic!("unexpected score: {delta}"),
    }
}

fn pump() -> Effect {
    effect(EffectKind::Pump)
}

#[test]
fn effects_returns_pending_cast_during_target_selection() {
    let state = new_table(2);
    let spell = resolved(pump(), vec![], ObjectId(1), AI);
    told(
        &state,
        targets_of(spell),
        &point_at(TargetRef::Object(ObjectId(2))),
        &settings(),
        &memory(),
        |ctx| {
            let effects = ctx.effects();
            assert_eq!(effects.len(), 1);
            assert!(matches!(effects[0].kind, EffectKind::Pump));
        },
    );
}

#[test]
fn effects_walks_sub_ability_chain() {
    let state = new_table(2);
    let mut spell = resolved(pump(), vec![], ObjectId(1), AI);
    spell.sub_ability = Some(Box::new(resolved(draw(1), vec![], ObjectId(1), AI)));
    let none = action(GameAction::ChooseTarget { target: None });
    told(&state, targets_of(spell), &none, &settings(), &memory(), |ctx| {
        let effects = ctx.effects();
        assert_eq!(effects.len(), 2);
        assert!(matches!(effects[0].kind, EffectKind::Pump));
        assert!(matches!(effects[1].kind, EffectKind::Draw { .. }));
    });
}

#[test]
fn cast_spell_effects_walk_sub_ability_chain() {
    let mut state = new_table(2);
    let spell = add_object(&mut state, AI, "Test Spell", Zone::Hand);
    let mut chain = ability(AbilityKind::Spell, pump());
    chain.sub_ability = Some(Box::new(ability(AbilityKind::Spell, draw(1))));
    object_mut(&mut state, spell).abilities.push(chain);
    told(&state, priority(), &cast(spell), &settings(), &memory(), |ctx| {
        let effects = ctx.effects();
        assert_eq!(effects.len(), 2);
        assert!(matches!(effects[0].kind, EffectKind::Pump));
        assert!(matches!(effects[1].kind, EffectKind::Draw { .. }));
    });
}

fn no_profile() -> EffectProfile {
    EffectProfile {
        has_search_library: false,
        has_draw: false,
        has_direct_removal_text: false,
        has_reveal_hand_or_discard: false,
    }
}

fn facts(shape: impl Fn(&mut GameObject)) -> CastFacts {
    let mut scratch = new_table(1);
    let id = add_object(&mut scratch, AI, "Spell", Zone::Hand);
    shape(object_mut(&mut scratch, id));
    CastFacts {
        object: scratch.objects.pop().unwrap(),
        mana_value: 2,
        primary_effects: Vec::new(),
        immediate_effects: Vec::new(),
        immediate_etb_triggers: 0,
        immediate_replacements: 0,
        profile: no_profile(),
    }
}

fn body(power: i32, toughness: i32) -> impl Fn(&mut GameObject) {
    move |o: &mut GameObject| {
        o.core_types.push(CoreType::Creature);
        o.power = Some(power);
        o.toughness = Some(toughness);
    }
}

#[test]
fn cast_facts_returns_spell_cast_facts_without_changing_effects() {
    let mut state = new_table(2);
    let creature = add_object(&mut state, AI, "Test Creature", Zone::Hand);
    let obj = object_mut(&mut state, creature);
    obj.core_types.push(CoreType::Creature);
    obj.abilities.push(ability(AbilityKind::Spell, draw(1)));
    obj.trigger_definitions.push(TriggerDefinition {
        mode: TriggerMode::ChangesZone,
        origin: None,
        destination: Some(Zone::Battlefield),
        valid_card: Some(filter(FilterShape::SelfRef)),
        execute: Some(ability(AbilityKind::Spell, harmful(EffectKind::Destroy))),
    });
    let known = CastFacts {
        immediate_etb_triggers: 1,
        profile: EffectProfile { has_direct_removal_text: true, ..no_profile() },
        ..facts(|_| {})
    };
    let candidate = CandidateAction { cast_facts: Some(known), ..cast(creature) };
    told(&state, priority(), &candidate, &settings(), &memory(), |ctx| {
        assert_eq!(ctx.effects().len(), 1);
        let facts = ctx.cast_facts().expect("cast facts");
        assert_eq!(facts.immediate_etb_triggers, 1);
        assert!(facts.profile.has_direct_removal_text);
    });
}

#[test]
fn only_spells_have_cast_facts() {
    let state = new_table(2);
    let candidate = CandidateAction {
        cast_facts: Some(facts(|_| {})),
        ..activate(ObjectId(1), 0)
    };
    told(&state, priority(), &candidate, &settings(), &memory(), |ctx| {
        assert!(ctx.cast_facts().is_none());
        assert!(ctx.effect_profile().is_none());
    });
}

fn projection_allowed(deadline: Deadline, floor: u128) -> (bool, bool) {
    let state = new_table(2);
    let mut config = settings();
    config.search.projection_min_budget_ms = floor;
    let mut context = memory();
    context.deadline = deadline;
    let none = action(GameAction::ChooseTarget { target: None });
    let spell = resolved(pump(), vec![], ObjectId(1), AI);
    told(&state, targets_of(spell), &none, &config, &context, |ctx| {
        (ctx.deadline_expired(), ctx.can_afford_projection())
    })
}

#[test]
fn deadline_expired_gates_projection() {
    let deadline = Deadline { expired: true, remaining_ms: Some(0) };
    assert_eq!(projection_allowed(deadline, 500), (true, false));
}

#[test]
fn fresh_deadline_allows_projection() {
    let deadline = Deadline { expired: false, remaining_ms: Some(5_000) };
    assert_eq!(projection_allowed(deadline, 500), (false, true));
}

#[test]
fn zero_projection_floor_always_allows() {
    let deadline = Deadline { expired: false, remaining_ms: Some(1) };
    assert_eq!(projection_allowed(deadline, 0), (false, true));
    assert_eq!(projection_allowed(deadline, 500), (false, false));
    let unlimited = Deadline { expired: false, remaining_ms: None };
    assert_eq!(projection_allowed(unlimited, 500), (false, true));
}

#[test]
fn source_is_the_card_or_what_asks_for_targets() {
    let mut state = new_table(2);
    let spell = add_object(&mut state, AI, "Spell", Zone::Hand);
    let source = |waiting_for: WaitingFor, candidate: &CandidateAction| {
        told(&state, waiting_for, candidate, &settings(), &memory(), |ctx| {
            ctx.source_object().map(|o| o.id)
        })
    };
    assert_eq!(source(priority(), &cast(spell)), Some(spell));
    assert_eq!(source(priority(), &activate(spell, 0)), Some(spell));
    let pending = || resolved(pump(), vec![], spell, AI);
    let target = point_at(TargetRef::Player(OPP));
    assert_eq!(source(targets_of(pending()), &target), Some(spell));
    let several = WaitingFor::MultiTargetSelection { pending_ability: pending() };
    assert_eq!(source(several, &target), Some(spell));
    let trigger = WaitingFor::TriggerTargetSelection { source_id: None };
    assert_eq!(source(trigger, &target), None);
    assert_eq!(source(targets_of(pending()), &action(GameAction::PassPriority)), None);
}

#[test]
fn environment_tells_each_candidate_the_same() {
    let state = new_table(2);
    let (config, context) = (settings(), memory());
    let decision = AiDecisionContext { waiting_for: priority(), candidates: Vec::new() };
    let env = PriorsEnv {
        state: &state,
        decision: &decision,
        ai_player: OPP,
        config: &config,
        context: &context,
        search_depth: SearchDepth::Lookahead,
    };
    let pass = action(GameAction::PassPriority);
    let ctx = env.for_candidate(&pass);
    assert_eq!(ctx.ai_player, OPP);
    assert!(!ctx.at_root());
    assert!(ctx.cast_facts.is_none());
    assert!(matches!(ctx.candidate.action, GameAction::PassPriority));
    assert_eq!(ctx.penalties().cycling_patience_penalty, -1_000_000);
}

#[test]
fn opposing_creature_targets_must_be_relevant() {
    let mut state = new_table(2);
    let own = add_creature(&mut state, AI, 1, 1, vec![]);
    let theirs = add_creature(&mut state, OPP, 1, 1, vec![]);
    let everything = anything(&state);
    let own_only = TargetFilter {
        legal_targets: vec![TargetRef::Object(own), TargetRef::Player(OPP)],
        ..filter(FilterShape::Any)
    };
    told(&state, priority(), &activate(own, 0), &settings(), &memory(), |ctx| {
        assert!(ctx.has_legal_opponent_creature_target(&everything, |_| true));
        assert!(ctx.has_legal_opponent_creature_target(&everything, |id| id == theirs));
        assert!(!ctx.has_legal_opponent_creature_target(&everything, |id| id == own));
        assert!(!ctx.has_legal_opponent_creature_target(&own_only, |_| true));
    });
}

// ---------------------------------------------------------------------------
// Shared judgements
// ---------------------------------------------------------------------------

fn main_phase(state: &GameState) -> bool {
    told(state, priority(), &cast(ObjectId(1)), &settings(), &memory(), |ctx| {
        is_own_main_phase(ctx)
    })
}

#[test]
fn own_main_phase_needs_an_empty_stack() {
    let mut state = new_table(2);
    assert!(main_phase(&state));
    state.phase = Phase::DeclareAttackers;
    assert!(!main_phase(&state));
    state.phase = Phase::PostCombatMain;
    assert!(main_phase(&state));
    state.stack.push(StackEntry {
        id: ObjectId(9),
        source_id: ObjectId(9),
        controller: OPP,
        ability: None,
        legal_new_targets: Vec::new(),
        impact: 0,
    });
    assert!(!main_phase(&state));
}

#[test]
fn presence_is_capped() {
    let presence = |shape: fn(&mut GameObject)| board_presence_score(&facts(shape).object);
    let creature: fn(&mut GameObject) = |o| {
        o.core_types.push(CoreType::Creature);
        o.power = Some(1);
        o.toughness = Some(2);
        o.keywords = vec![Keyword::Flying, Keyword::Hexproof];
    };
    assert_eq!(presence(creature), 415_000);
    let giant: fn(&mut GameObject) = |o| {
        o.core_types.push(CoreType::Creature);
        o.power = Some(9);
        o.toughness = Some(9);
        o.keywords =
            vec![Keyword::Flying, Keyword::Haste, Keyword::Trample, Keyword::Lifelink];
    };
    assert_eq!(presence(giant), 570_000);
    let walker: fn(&mut GameObject) = |o| {
        o.core_types.push(CoreType::Planeswalker);
        o.loyalty = Some(20);
    };
    assert_eq!(presence(walker), 650_000);
    assert_eq!(presence(|o| o.core_types.push(CoreType::Enchantment)), 160_000);
    assert_eq!(presence(|o| o.core_types.push(CoreType::Sorcery)), 0);
}

#[test]
fn best_proactive_spell_counts_what_it_does_at_once() {
    let state = new_table(2);
    let spell = |known: CastFacts| CandidateAction {
        cast_facts: Some(known),
        ..cast(ObjectId(1))
    };
    let tutor = CastFacts {
        immediate_etb_triggers: 1,
        profile: EffectProfile { has_search_library: true, has_draw: true, ..no_profile() },
        ..facts(body(1, 1))
    };
    let decision = AiDecisionContext {
        waiting_for: priority(),
        candidates: vec![
            action(GameAction::PassPriority),
            spell(facts(body(1, 1))),
            spell(tutor),
            spell(facts(|_| {})),
        ],
    };
    let (config, context) = (settings(), memory());
    let ctx = PolicyContext {
        state: &state,
        decision: &decision,
        candidate: &decision.candidates[0],
        ai_player: AI,
        config: &config,
        context: &context,
        cast_facts: None,
        search_depth: SearchDepth::Root,
    };
    assert_eq!(best_proactive_cast_score(&ctx), 750_000);
}

#[test]
fn threats_are_those_of_opponents() {
    let mut state = new_table(2);
    add_creature(&mut state, AI, 9, 9, vec![]);
    assert_eq!(visible_opponent_creature_value(&state, AI), 0);
    let small = add_creature(&mut state, OPP, 1, 1, vec![]);
    let small_value = visible_opponent_creature_value(&state, AI);
    assert!(small_value > 0);
    let large = add_creature(&mut state, OPP, 5, 5, vec![]);
    let large_value = visible_opponent_creature_value(&state, AI);
    assert!(large_value > small_value);

    object_mut(&mut state, large).tapped = true;
    assert!(untapped_opponent_blocker_value(&state, AI) < large_value);

    let narrow = TargetFilter { matching_objects: vec![small], ..filter(FilterShape::Other) };
    let wide = TargetFilter { matching_objects: vec![small, large], ..filter(FilterShape::Other) };
    let narrow_value = targetable_threat_value(&state, AI, &narrow);
    assert!(narrow_value <= targetable_threat_value(&state, AI, &wide));
    assert!(narrow_value > 0);
    assert_eq!(targetable_threat_value(&state, AI, &filter(FilterShape::Any)), 0);
}

#[test]
fn pressure_is_own_less_all_others() {
    let mut state = new_table(3);
    add_creature(&mut state, AI, 3, 3, vec![]);
    add_creature(&mut state, PlayerId(1), 1, 1, vec![]);
    add_creature(&mut state, PlayerId(2), 1, 1, vec![]);
    assert_eq!(battlefield_pressure_delta(&state, AI), 7_500_000 - 2 * 2_500_000);
}

#[test]
fn blockable_damage_counts_half() {
    let mut state = new_table(2);
    let attacker = add_creature(&mut state, OPP, 5, 5, vec![]);
    let flyer = add_creature(&mut state, OPP, 3, 3, vec![Keyword::Flying]);
    let blocker = add_creature(&mut state, AI, 2, 2, vec![]);
    assert_eq!(opponent_lethal_damage(&state, AI), 8);
    state.legal_blocks.push(BlockPair { blocker, attacker });
    assert_eq!(opponent_lethal_damage(&state, AI), 5);
    assert_eq!(legal_blocker_count(&state, AI, attacker), 1);
    assert_eq!(legal_blocker_count(&state, AI, flyer), 0);
    object_mut(&mut state, blocker).tapped = true;
    assert_eq!(opponent_lethal_damage(&state, AI), 8);
    object_mut(&mut state, attacker).tapped = true;
    assert_eq!(opponent_lethal_damage(&state, AI), 3);
}

#[test]
fn sacrifices_are_priced() {
    let mut state = new_table(2);
    let land = add_object(&mut state, AI, "Land", Zone::Battlefield);
    object_mut(&mut state, land).core_types.push(CoreType::Land);
    let creature_token = add_creature(&mut state, AI, 0, 0, vec![]);
    object_mut(&mut state, creature_token).is_token = true;
    let relic = add_object(&mut state, AI, "Relic", Zone::Battlefield);
    object_mut(&mut state, relic).core_types.push(CoreType::Artifact);
    object_mut(&mut state, relic).mana_value = 7;
    let penalties = settings().policy_penalties;
    assert_eq!(sacrifice_cost(&state, land, &penalties), 5_000_000);
    assert_eq!(sacrifice_cost(&state, creature_token, &penalties), 500_000);
    assert_eq!(sacrifice_cost(&state, relic, &penalties), 4_000_000);
    assert_eq!(sacrifice_cost(&state, ObjectId(77), &penalties), 0);
    assert_eq!(count_own_lands(&state, AI), 1);
    assert_eq!(count_own_lands(&state, OPP), 0);
}

#[test]
fn counterspells_in_hand_are_counted() {
    let mut state = new_table(2);
    let negate = add_object(&mut state, AI, "Negate", Zone::Hand);
    let counter = ability(AbilityKind::Spell, effect(EffectKind::Counter));
    object_mut(&mut state, negate).abilities.push(counter);
    add_object(&mut state, AI, "Other", Zone::Hand);
    assert_eq!(count_counterspells_in_hand(&state, AI), 1);
    assert_eq!(count_counterspells_in_hand(&state, OPP), 0);
}

#[test]
fn ward_is_paid_from_what_the_spell_leaves() {
    let mut state = new_table(2);
    for _ in 0..3 {
        let land = add_object(&mut state, AI, "Land", Zone::Battlefield);
        object_mut(&mut state, land).core_types.push(CoreType::Land);
    }
    state.players[0].mana_pool_total = 1;
    let bolt = add_object(&mut state, AI, "Bolt", Zone::Hand);
    object_mut(&mut state, bolt).mana_value = 2;
    let warded = add_creature(&mut state, OPP, 19, 2, vec![]);
    let fodder = add_creature(&mut state, AI, 1, 1, vec![]);
    let pays = |state: &GameState, ward: &WardCost| {
        told(state, priority(), &cast(bolt), &settings(), &memory(), |ctx| {
            can_pay_ward_cost(ctx, ward, state.object(warded).unwrap())
        })
    };
    let left = told(&state, priority(), &cast(bolt), &settings(), &memory(), |ctx| {
        available_mana_after_spell(ctx)
    });
    assert_eq!(left, 2);
    assert!(pays(&state, &WardCost::Mana { mana_value: 2 }));
    assert!(!pays(&state, &WardCost::Mana { mana_value: 3 }));
    assert!(pays(&state, &WardCost::Waterbend { mana_value: 2 }));
    assert!(pays(&state, &WardCost::PayLife { amount: 19 }));
    assert!(!pays(&state, &WardCost::PayLife { amount: 20 }));
    assert!(pays(&state, &WardCost::PayLifeEqualToPower));
    assert!(!pays(&state, &WardCost::DiscardCard));
    let sacrifice = |count: u32| WardCost::Sacrifice {
        count,
        filter: TargetFilter {
            matching_objects: vec![fodder, warded],
            ..filter(FilterShape::Other)
        },
    };
    assert!(pays(&state, &sacrifice(1)));
    assert!(!pays(&state, &sacrifice(2)));
    assert!(pays(
        &state,
        &WardCost::Compound { costs: vec![WardCost::PayLife { amount: 2 }, sacrifice(1)] }
    ));
    assert!(!pays(
        &state,
        &WardCost::Compound { costs: vec![WardCost::PayLife { amount: 2 }, sacrifice(2)] }
    ));
    object_mut(&mut state, warded).power = Some(20);
    assert!(!pays(&state, &WardCost::PayLifeEqualToPower));
    add_object(&mut state, AI, "Card", Zone::Hand);
    assert!(pays(&state, &WardCost::DiscardCard));
}
