//! Policies on lands, mana and the order of plays.
#![allow(dead_code)]

use phase_ai::config::{AiConfig, PolicyPenalties, ScoreBands, SearchConfig};
use phase_ai::features::{
    AggroPressureFeature, AiSession, CommanderBracketTier, ControlFeature, DeckArchetype,
    DeckFeatures, ManaRampFeature, PlusOneCountersFeature, SeatFeatures, TokensWideFeature,
};
use phase_ai::policies::context::{
    AiContext, AiDecisionContext, CandidateAction, Deadline, PolicyContext, SearchDepth,
};
use phase_ai::policies::registry::{PolicyVerdict, TacticalPolicy};
use phase_ai::combo::ComboReachability;
use phase_ai::features::{PlanSnapshot, SeatPlan};
use phase_ai::model::{
    AbilityCost, AbilityDefinition, AbilityKind, AbilityTag, CardId, ControllerRef, CoreType,
    Effect, EffectKind, EffectPolarity, EtbTapState, FilterShape, GameAction, GameObject,
    GameState, IterationCount, Keyword, ManaProduction, ObjectId, Phase, Player, PlayerId,
    QuantityExpr, ResolvedAbility, StackEntry, TargetFilter, TargetRef, TriggerDefinition,
    TriggerMode, TypeFilter, WaitingFor, Zone,
};
use phase_ai::policies::anthem_priority::AnthemPriorityPolicy;
use phase_ai::policies::combo_line::ComboLinePolicy;
use phase_ai::policies::condition_gated_activation::ConditionGatedActivationPolicy;
use phase_ai::policies::cycling_discipline::{next_planned_land_target, CyclingDisciplinePolicy};
use phase_ai::policies::fetch_land_patience::FetchLandPatiencePolicy;
use phase_ai::policies::hold_mana_up::HoldManaUpForInteractionPolicy;
use phase_ai::policies::land_sequencing::LandSequencingPolicy;
use phase_ai::policies::loop_shortcut::LoopShortcutPolicy;
use phase_ai::policies::ramp_timing::RampTimingPolicy;
use phase_ai::policies::registry::{DecisionKind, PolicyId, PolicyRegistry};

const AI: PlayerId = PlayerId(0);
const OPP: PlayerId = PlayerId(1);

fn new_player(id: u8, players: u8) -> Player {
    Player {
        id: PlayerId(id),
        life: 20,
        hand: Vec::new(),
        energy: 0,
        is_eliminated: false,
        mana_pool_total: 0,
        available_mana: 0,
        opponents: (0..players).filter(|p| *p != id).map(PlayerId).collect(),
    }
}

fn new_table(players: u8) -> GameState {
    GameState {
        players: (0..players).map(|id| new_player(id, players)).collect(),
        objects: Vec::new(),
        battlefield: Vec::new(),
        stack: Vec::new(),
        revealed_cards: Vec::new(),
        turn_number: 0,
        phase: Phase::PreCombatMain,
        active_player: PlayerId(0),
        turn_decision_maker: PlayerId(0),
        in_combat: false,
        waiting_for: WaitingFor::Priority { player: PlayerId(0) },
        pending_cast_demand: None,
        pending_trigger: None,
        optional_effect: None,
        starting_life: 20,
        commander_damage_threshold: None,
        commander_headroom: Vec::new(),
        legal_blocks: Vec::new(),
    }
}

fn add_object(state: &mut GameState, owner: PlayerId, name: &str, zone: Zone) -> ObjectId {
    let n = state.objects.len() as u64 + 1;
    let id = ObjectId(n);
    state.objects.push(GameObject {
        id,
        card_id: CardId(n),
        name: name.to_string(),
        owner,
        controller: owner,
        zone,
        core_types: Vec::new(),
        subtypes: Vec::new(),
        power: None,
        toughness: None,
        loyalty: None,
        keywords: Vec::new(),
        mana_value: 0,
        tapped: false,
        summoning_sick: false,
        is_token: false,
        is_emblem: false,
        is_commander: false,
        abilities: Vec::new(),
        trigger_definitions: Vec::new(),
        replacement_definitions: Vec::new(),
        counters: Vec::new(),
        is_anthem: false,
        is_mana_dork: false,
        is_land_fetch_spell: false,
        is_ritual: false,
        has_recursion_keyword: false,
    });
    match zone {
        Zone::Battlefield => state.battlefield.push(id),
        Zone::Hand => state.players[owner.0 as usize].hand.push(id),
        _ => {}
    }
    id
}

fn object_mut(state: &mut GameState, id: ObjectId) -> &mut GameObject {
    state.objects.iter_mut().find(|o| o.id == id).unwrap()
}

fn add_creature(
    state: &mut GameState,
    owner: PlayerId,
    power: i32,
    toughness: i32,
    keywords: Vec<Keyword>,
) -> ObjectId {
    let id = add_object(state, owner, "Creature", Zone::Battlefield);
    let obj = object_mut(state, id);
    obj.core_types.push(CoreType::Creature);
    obj.power = Some(power);
    obj.toughness = Some(toughness);
    obj.keywords = keywords;
    id
}

fn filter(shape: FilterShape) -> TargetFilter {
    TargetFilter {
        shape,
        legal_targets: Vec::new(),
        matching_objects: Vec::new(),
        matching_players: Vec::new(),
        references_land: false,
    }
}

/// A filter for anything, which may be pointed at everything on the
/// battlefield.
fn anything(state: &GameState) -> TargetFilter {
    TargetFilter {
        legal_targets: state.battlefield.iter().map(|id| TargetRef::Object(*id)).collect(),
        matching_objects: state.battlefield.clone(),
        ..filter(FilterShape::Any)
    }
}

fn effect(kind: EffectKind) -> Effect {
    Effect { kind, polarity: EffectPolarity::Contextual, creature_target: None }
}

fn harmful(kind: EffectKind) -> Effect {
    Effect { kind, polarity: EffectPolarity::Harmful, creature_target: None }
}

fn draw(value: i32) -> Effect {
    effect(EffectKind::Draw {
        count: QuantityExpr::Fixed { value },
        target: filter(FilterShape::Controller),
    })
}

fn ability(kind: AbilityKind, effect: Effect) -> AbilityDefinition {
    AbilityDefinition {
        kind,
        effect,
        sub_ability: None,
        cost: None,
        ability_tag: None,
        is_mana_ability: false,
        proliferates: false,
        places_plus_one_counter: false,
        condition_currently_met: None,
        land_sacrifice_protection: None,
    }
}

fn resolved(
    effect: Effect,
    targets: Vec<TargetRef>,
    source_id: ObjectId,
    controller: PlayerId,
) -> ResolvedAbility {
    ResolvedAbility {
        effect,
        targets,
        source_id,
        controller,
        sub_ability: None,
        has_else_ability: false,
        has_repeat_for: false,
        has_player_scope: false,
    }
}

fn deck() -> DeckFeatures {
    DeckFeatures {
        tokens_wide: TokensWideFeature { commitment: 0 },
        plus_one_counters: PlusOneCountersFeature {
            commitment: 0,
            commitment_floor: 300_000,
            committed_value_floor: 500_000,
            payoff_names: Vec::new(),
        },
        mana_ramp: ManaRampFeature { commitment: 0 },
        aggro_pressure: AggroPressureFeature { commitment: 0 },
        control: ControlFeature {
            commitment: 0,
            reactive_tempo: 0,
            reactive_tempo_floor: 300_000,
        },
        bracket_tier: CommanderBracketTier::Core,
        archetype: DeckArchetype::Midrange,
        turn_multiplier: 1_000_000,
    }
}

fn settings() -> AiConfig {
    AiConfig {
        policy_penalties: PolicyPenalties {
            sacrifice_land_penalty: 5_000_000,
            sacrifice_token_cost: 500_000,
            evasion_removal_bonus_mult: 500_000,
            protect_spell_bonus_mult: 250_000,
            lethality_tapout_penalty: -3_000_000,
            low_life_defensive_bonus: 300_000,
            low_life_aggro_penalty: -400_000,
            recursion_destroy_penalty: -1_500_000,
            recursion_exile_bonus: 800_000,
            death_trigger_destroy_penalty: -700_000,
            cycling_needed_land_penalty: -2_500_000,
            cycling_patience_penalty: -1_000_000,
            combo_progress_this_turn_bonus: 10_000_000,
            combo_progress_next_turn_bonus: 5_000_000,
            loop_shortcut_winning_declare_bonus: 8_000_000,
        },
        search: SearchConfig { enabled: true, projection_min_budget_ms: 500 },
        bands: ScoreBands {
            nudge_max: 500_000,
            preference_max: 2_000_000,
            strong_max: 6_000_000,
            critical_max: 15_000_000,
        },
        interaction_patience: 1_000_000,
    }
}

fn memory() -> AiContext {
    AiContext {
        deadline: Deadline { expired: false, remaining_ms: None },
        session: AiSession { features: Vec::new(), plan: Vec::new(), projections: Vec::new() },
        combo_lines: Vec::new(),
    }
}

fn memory_of(features: DeckFeatures) -> AiContext {
    let mut context = memory();
    context.session.features.push(SeatFeatures { player: AI, features });
    context
}

fn action(action: GameAction) -> CandidateAction {
    CandidateAction {
        action,
        cast_facts: None,
        effect_profile: None,
        effective_ability: None,
        target_impact: None,
        projection: None,
    }
}

fn cast(object_id: ObjectId) -> CandidateAction {
    action(GameAction::CastSpell { object_id, card_id: CardId(object_id.0) })
}

fn activate(source_id: ObjectId, ability_index: usize) -> CandidateAction {
    action(GameAction::ActivateAbility { source_id, ability_index })
}

fn point_at(target: TargetRef) -> CandidateAction {
    action(GameAction::ChooseTarget { target: Some(target) })
}

fn priority() -> WaitingFor {
    WaitingFor::Priority { player: AI }
}

/// The question for the targets of a spell with the given ability.
fn targets_of(ability: ResolvedAbility) -> WaitingFor {
    WaitingFor::TargetSelection { object_id: ability.source_id, ability }
}

/// Tells `f` what a policy is told.
fn told<R>(
    state: &GameState,
    waiting_for: WaitingFor,
    candidate: &CandidateAction,
    config: &AiConfig,
    context: &AiContext,
    f: impl FnOnce(&PolicyContext<'_>) -> R,
) -> R {
    let decision = AiDecisionContext { waiting_for, candidates: Vec::new() };
    f(&PolicyContext {
        state,
        decision: &decision,
        candidate,
        ai_player: AI,
        config,
        context,
        cast_facts: None,
        search_depth: SearchDepth::Root,
    })
}

/// What a policy says where nothing but the position and the candidate matters.
fn judged<P: TacticalPolicy>(
    policy: P,
    state: &GameState,
    candidate: &CandidateAction,
) -> PolicyVerdict {
    told(state, priority(), candidate, &settings(), &memory(), |ctx| policy.verdict(ctx))
}

fn scored(verdict: PolicyVerdict) -> (i128, &'static str) {
    match verdict {
        PolicyVerdict::Score { delta, reason } => (delta, reason.kind),
        PolicyVerdict::Reject { reason } => panic!("unexpected veto: {}", reason.kind),
    }
}

fn vetoed(verdict: PolicyVerdict) -> &'static str {
    match verdict {
        PolicyVerdict::Reject { reason } => reason.kind,
        PolicyVerdict::Score { delta, .. } => panic!("unexpected score: {delta}"),
    }
}

fn add_card(state: &mut GameState, name: &str, core_type: CoreType, mana_value: u32) -> ObjectId {
    let id = add_object(state, AI, name, Zone::Hand);
    let obj = object_mut(state, id);
    obj.core_types.push(core_type);
    obj.mana_value = mana_value;
    id
}

fn add_land(state: &mut GameState, zone: Zone) -> ObjectId {
    let id = add_object(state, AI, "Land", zone);
    object_mut(state, id).core_types.push(CoreType::Land);
    id
}

// ---------------------------------------------------------------------------
// Anthems
// ---------------------------------------------------------------------------

fn wide_deck(commitment: i64) -> DeckFeatures {
    DeckFeatures { tokens_wide: TokensWideFeature { commitment }, ..deck() }
}

fn add_anthem(state: &mut GameState) -> ObjectId {
    let id = add_card(state, "Glorious Anthem", CoreType::Enchantment, 3);
    object_mut(state, id).is_anthem = true;
    id
}

fn anthem_verdict(state: &GameState, spell: ObjectId) -> PolicyVerdict {
    told(state, priority(), &cast(spell), &settings(), &memory_of(wide_deck(600_000)), |ctx| {
        AnthemPriorityPolicy.verdict(ctx)
    })
}

#[test]
fn timely_at_three_creatures() {
    let mut state = new_table(2);
    for _ in 0..3 {
        add_creature(&mut state, AI, 1, 1, vec![]);
    }
    let anthem = add_anthem(&mut state);
    assert_eq!(scored(anthem_verdict(&state, anthem)), (2_000_000, "anthem_timely"));
}

#[test]
fn premature_below_floor() {
    let mut state = new_table(2);
    add_creature(&mut state, AI, 1, 1, vec![]);
    let anthem = add_anthem(&mut state);
    assert_eq!(scored(anthem_verdict(&state, anthem)), (-500_000, "anthem_premature"));
}

#[test]
fn non_anthem_neutral() {
    let mut state = new_table(2);
    let bear = add_card(&mut state, "Bear", CoreType::Creature, 2);
    assert_eq!(scored(anthem_verdict(&state, bear)), (0, "anthem_priority_na"));
}

#[test]
fn anthem_priority_opts_out_below_commitment_floor() {
    let state = new_table(2);
    assert!(AnthemPriorityPolicy.activation(&wide_deck(100_000), &state, AI).is_none());
    assert_eq!(
        AnthemPriorityPolicy.activation(&wide_deck(300_000), &state, AI),
        Some(300_000)
    );
}

// ---------------------------------------------------------------------------
// Combo lines
// ---------------------------------------------------------------------------

#[test]
fn activation_returns_none_when_not_cedh() {
    let features = DeckFeatures { bracket_tier: CommanderBracketTier::Core, ..deck() };
    assert!(ComboLinePolicy::new().activation(&features, &new_table(2), AI).is_none());
}

#[test]
fn activation_returns_some_when_is_cedh() {
    let features = DeckFeatures { bracket_tier: CommanderBracketTier::Cedh, ..deck() };
    assert_eq!(
        ComboLinePolicy::new().activation(&features, &new_table(2), AI),
        Some(1_000_000)
    );
}

fn combo_verdict(
    state: &GameState,
    lines: Vec<ComboReachability>,
    candidate: &CandidateAction,
) -> PolicyVerdict {
    let mut context = memory();
    context.combo_lines = lines;
    told(state, priority(), candidate, &settings(), &context, |ctx| {
        ComboLinePolicy::new().verdict(ctx)
    })
}

#[test]
fn verdict_returns_zero_score_with_no_reachable_combo() {
    let state = new_table(2);
    let pass = action(GameAction::PassPriority);
    let verdict = combo_verdict(&state, vec![ComboReachability::Unreachable], &pass);
    assert_eq!(scored(verdict).0, 0);
}

/// Two Plains, Heliod and Walking Ballista, and the line they make.
fn heliod_ballista() -> (GameState, ObjectId, ObjectId, ComboReachability) {
    let mut state = new_table(2);
    for _ in 0..2 {
        add_land(&mut state, Zone::Battlefield);
    }
    let heliod = add_object(&mut state, AI, "Heliod, Sun-Crowned", Zone::Battlefield);
    let ballista = add_object(&mut state, AI, "Walking Ballista", Zone::Battlefield);
    let line = ComboReachability::ReachableThisTurn {
        missing_mana: 0,
        required_actions: vec![
            GameAction::ActivateAbility { source_id: heliod, ability_index: 0 },
            GameAction::ActivateAbility { source_id: ballista, ability_index: 1 },
        ],
    };
    (state, heliod, ballista, line)
}

#[test]
fn verdict_boosts_heliod_activation_when_reachable_this_turn() {
    let (state, heliod, _, line) = heliod_ballista();
    assert_eq!(
        scored(combo_verdict(&state, vec![line], &activate(heliod, 0))),
        (
            settings().policy_penalties.combo_progress_this_turn_bonus as i128,
            "combo_line_this_turn"
        )
    );
}

#[test]
fn verdict_boosts_ballista_activation_when_reachable_this_turn() {
    let (state, _, ballista, line) = heliod_ballista();
    assert_eq!(
        scored(combo_verdict(&state, vec![line], &activate(ballista, 1))).0,
        settings().policy_penalties.combo_progress_this_turn_bonus as i128
    );
}

#[test]
fn verdict_ignores_unrelated_activation_even_with_combo_on_board() {
    let (state, heliod, _, line) = heliod_ballista();
    let pass = action(GameAction::PassPriority);
    assert_eq!(
        scored(combo_verdict(&state, vec![line], &pass)),
        (0, "combo_line_no_match")
    );
    let (_, _, _, line) = heliod_ballista();
    assert_eq!(
        scored(combo_verdict(&state, vec![line], &activate(heliod, 1))),
        (0, "combo_line_no_match")
    );
}

#[test]
fn combo_line_waits_for_mana_and_for_the_next_turn() {
    let (state, heliod, _, _) = heliod_ballista();
    let short = ComboReachability::ReachableThisTurn {
        missing_mana: 1,
        required_actions: vec![GameAction::ActivateAbility {
            source_id: heliod,
            ability_index: 0,
        }],
    };
    assert_eq!(
        scored(combo_verdict(
            &state,
            vec![short, ComboReachability::ReachableNextTurn],
            &activate(heliod, 0)
        )),
        (5_000_000, "combo_line_next_turn")
    );
}

// ---------------------------------------------------------------------------
// Abilities with a condition
// ---------------------------------------------------------------------------

/// A land with an activated ability for one mana, whose condition holds or not.
fn add_hideaway(state: &mut GameState, met: Option<bool>, with_cost: bool) -> ObjectId {
    let id = add_land(state, Zone::Battlefield);
    let mut payoff = ability(AbilityKind::Activated, effect(EffectKind::Proliferate));
    if with_cost {
        payoff.cost = Some(AbilityCost::Mana { mana_value: 1 });
    }
    payoff.condition_currently_met = met;
    object_mut(state, id).abilities.push(payoff);
    id
}

#[test]
fn gated_activation_penalized_when_condition_unmet() {
    let mut state = new_table(2);
    add_creature(&mut state, AI, 3, 3, vec![]);
    add_creature(&mut state, AI, 3, 3, vec![]);
    let source = add_hideaway(&mut state, Some(false), true);
    assert_eq!(
        scored(judged(ConditionGatedActivationPolicy, &state, &activate(source, 0))),
        (-2_500_000, "condition_gated_payoff_unmet")
    );
}

#[test]
fn gated_activation_ok_when_condition_met() {
    let mut state = new_table(2);
    add_creature(&mut state, AI, 6, 6, vec![]);
    add_creature(&mut state, AI, 6, 6, vec![]);
    let source = add_hideaway(&mut state, Some(true), true);
    assert_eq!(
        scored(judged(ConditionGatedActivationPolicy, &state, &activate(source, 0))),
        (0, "condition_gated_ok")
    );
}

#[test]
fn unconditional_activation_na() {
    let mut state = new_table(2);
    let source = add_hideaway(&mut state, None, true);
    assert_eq!(
        scored(judged(ConditionGatedActivationPolicy, &state, &activate(source, 0))),
        (0, "condition_gated_ok")
    );
}

#[test]
fn free_gated_activation_not_penalized() {
    let mut state = new_table(2);
    add_creature(&mut state, AI, 3, 3, vec![]);
    let source = add_hideaway(&mut state, Some(false), false);
    assert_eq!(
        scored(judged(ConditionGatedActivationPolicy, &state, &activate(source, 0))),
        (0, "condition_gated_ok")
    );
}

#[test]
fn non_activate_decision_na() {
    let state = new_table(2);
    let pass = action(GameAction::PassPriority);
    assert_eq!(
        scored(judged(ConditionGatedActivationPolicy, &state, &pass)),
        (0, "condition_gated_na")
    );
}

// ---------------------------------------------------------------------------
// Cycling
// ---------------------------------------------------------------------------

fn baseline_plan() -> PlanSnapshot {
    PlanSnapshot { expected_lands: [1, 2, 3, 4, 5, 6, 6, 6, 6, 6, 6, 6, 6, 6, 6] }
}

fn ramp_plan() -> PlanSnapshot {
    PlanSnapshot { expected_lands: [1, 2, 4, 5, 6, 7, 7, 7, 7, 7, 7, 7, 7, 7, 7] }
}

fn cycling_ability() -> AbilityDefinition {
    let mut cycling = ability(AbilityKind::Activated, draw(1));
    cycling.cost = Some(AbilityCost::Mana { mana_value: 2 });
    cycling.ability_tag = Some(AbilityTag::Cycling);
    cycling
}

fn cycle(source_id: ObjectId) -> CandidateAction {
    CandidateAction { effective_ability: Some(cycling_ability()), ..activate(source_id, 0) }
}

fn cycling_verdict(
    state: &GameState,
    source: ObjectId,
    plan: Option<PlanSnapshot>,
    config: &AiConfig,
) -> PolicyVerdict {
    let mut context = memory();
    if let Some(plan) = plan {
        context.session.plan.push(SeatPlan { player: AI, plan });
    }
    told(state, priority(), &cycle(source), config, &context, |ctx| {
        CyclingDisciplinePolicy.verdict(ctx)
    })
}

#[test]
fn ordinary_cycling_gets_finite_patience() {
    let mut state = new_table(2);
    let cycler = add_card(&mut state, "Cycler", CoreType::Creature, 3);
    assert_eq!(
        scored(cycling_verdict(&state, cycler, None, &settings())),
        (
            settings().policy_penalties.cycling_patience_penalty as i128,
            "cycling_discipline_patience"
        )
    );
}

#[test]
fn cycling_patience_uses_configured_penalty() {
    let mut state = new_table(2);
    let cycler = add_card(&mut state, "Cycler", CoreType::Creature, 3);
    let mut config = settings();
    config.policy_penalties.cycling_patience_penalty = -1_250_000;
    assert_eq!(
        scored(cycling_verdict(&state, cycler, None, &config)),
        (-1_250_000, "cycling_discipline_patience")
    );
}

#[test]
fn sole_planned_land_gets_stronger_finite_patience() {
    let mut state = new_table(2);
    for _ in 0..5 {
        add_land(&mut state, Zone::Battlefield);
    }
    let cycler = add_card(&mut state, "Cycling Land", CoreType::Land, 0);
    assert_eq!(
        scored(cycling_verdict(&state, cycler, Some(baseline_plan()), &settings())),
        (
            settings().policy_penalties.cycling_needed_land_penalty as i128,
            "cycling_discipline_needed_land"
        )
    );

    add_land(&mut state, Zone::Hand);
    assert_eq!(
        scored(cycling_verdict(&state, cycler, Some(baseline_plan()), &settings())),
        (
            settings().policy_penalties.cycling_patience_penalty as i128,
            "cycling_discipline_patience"
        )
    );
}

#[test]
fn completed_land_plan_uses_ordinary_patience() {
    let mut state = new_table(2);
    for _ in 0..6 {
        add_land(&mut state, Zone::Battlefield);
    }
    let cycler = add_card(&mut state, "Cycling Land", CoreType::Land, 0);
    assert_eq!(
        scored(cycling_verdict(&state, cycler, Some(baseline_plan()), &settings())),
        (
            settings().policy_penalties.cycling_patience_penalty as i128,
            "cycling_discipline_patience"
        )
    );
}

#[test]
fn planned_land_targets_follow_baseline_and_ramp_caps() {
    assert_eq!(next_planned_land_target(&baseline_plan(), 5), Some(6));
    assert_eq!(next_planned_land_target(&baseline_plan(), 6), None);
    assert_eq!(next_planned_land_target(&ramp_plan(), 6), Some(7));
    assert_eq!(next_planned_land_target(&ramp_plan(), 7), None);
}

#[test]
fn runtime_granted_typecycling_uses_the_effective_action_index() {
    let mut state = new_table(2);
    let sliver = add_card(&mut state, "Striking Sliver", CoreType::Creature, 1);
    let printed = ability(AbilityKind::Activated, effect(EffectKind::Other));
    object_mut(&mut state, sliver).abilities.push(printed);

    let granted = CandidateAction {
        effective_ability: Some(cycling_ability()),
        ..activate(sliver, 1)
    };
    let (tag, verdict) = told(&state, priority(), &granted, &settings(), &memory(), |ctx| {
        (
            ctx.effective_activated_ability().unwrap().ability_tag,
            CyclingDisciplinePolicy.verdict(ctx),
        )
    });
    assert_eq!(tag, Some(AbilityTag::Cycling));
    assert_eq!(scored(verdict), (-1_000_000, "cycling_discipline_patience"));

    let printed = CandidateAction {
        effective_ability: Some(ability(AbilityKind::Activated, effect(EffectKind::Other))),
        ..activate(sliver, 0)
    };
    assert_eq!(
        scored(judged(CyclingDisciplinePolicy, &state, &printed)),
        (0, "cycling_discipline_na")
    );
}

#[test]
fn untagged_activation_is_not_cycling() {
    let mut state = new_table(2);
    let source = add_object(&mut state, AI, "Draw Ability", Zone::Battlefield);
    let candidate = CandidateAction {
        effective_ability: Some(ability(AbilityKind::Activated, effect(EffectKind::Other))),
        ..activate(source, 0)
    };
    assert_eq!(
        scored(judged(CyclingDisciplinePolicy, &state, &candidate)),
        (0, "cycling_discipline_na")
    );
}

#[test]
fn policy_is_registered() {
    assert!(PolicyRegistry::default().has_policy(PolicyId::CyclingDiscipline));
}

#[test]
fn cycling_penalty_stays_in_its_band() {
    let mut state = new_table(2);
    let cycler = add_card(&mut state, "Cycler", CoreType::Creature, 3);
    let mut config = settings();
    config.policy_penalties.cycling_patience_penalty = -9_000_000;
    assert_eq!(
        scored(cycling_verdict(&state, cycler, None, &config)),
        (-2_000_000, "cycling_discipline_patience")
    );
}

#[test]
fn planned_land_target_is_the_next_one() {
    let plan = PlanSnapshot { expected_lands: [9, 4, 7, 2, 2, 2, 2, 2, 2, 2, 2, 2, 2, 2, 3] };
    assert_eq!(next_planned_land_target(&plan, 0), Some(2));
    assert_eq!(next_planned_land_target(&plan, 2), Some(3));
    assert_eq!(next_planned_land_target(&plan, 4), Some(7));
    assert_eq!(next_planned_land_target(&plan, 9), None);
}

// ---------------------------------------------------------------------------
// Fetch lands
// ---------------------------------------------------------------------------

/// `{T}, Sacrifice this: search for a land`, which enters as told.
fn fetch_land_ability(enter_tapped: EtbTapState) -> AbilityDefinition {
    let land = TargetFilter { references_land: true, ..filter(FilterShape::Other) };
    let mut search = ability(
        AbilityKind::Activated,
        effect(EffectKind::SearchLibrary { filter: land }),
    );
    search.cost = Some(AbilityCost::Composite {
        costs: vec![
            AbilityCost::Tap,
            AbilityCost::Sacrifice { target: filter(FilterShape::SelfRef) },
        ],
    });
    search.sub_ability = Some(Box::new(ability(
        AbilityKind::Spell,
        effect(EffectKind::ChangeZone { destination: Zone::Battlefield, enter_tapped }),
    )));
    search
}

fn fetch_verdict(phase: Phase, enter_tapped: EtbTapState) -> PolicyVerdict {
    let mut state = new_table(2);
    state.active_player = AI;
    state.phase = phase;
    let wilds = add_land(&mut state, Zone::Battlefield);
    object_mut(&mut state, wilds).abilities.push(fetch_land_ability(enter_tapped));
    judged(FetchLandPatiencePolicy, &state, &activate(wilds, 0))
}

#[test]
fn evolving_wilds_main_phase_rejected() {
    assert_eq!(
        vetoed(fetch_verdict(Phase::PreCombatMain, EtbTapState::Tapped)),
        "fetch_patience_hold"
    );
}

#[test]
fn evolving_wilds_own_end_step_nudged() {
    assert_eq!(
        scored(fetch_verdict(Phase::End, EtbTapState::Tapped)),
        (300_000, "fetch_patience_end_step")
    );
}

#[test]
fn untapped_fetchland_unaffected() {
    assert_eq!(
        scored(fetch_verdict(Phase::PreCombatMain, EtbTapState::Untapped)),
        (0, "fetch_patience_na")
    );
}

#[test]
fn fetch_land_waits_through_the_end_step_of_others() {
    let mut state = new_table(2);
    state.active_player = OPP;
    state.phase = Phase::End;
    let wilds = add_land(&mut state, Zone::Battlefield);
    object_mut(&mut state, wilds).abilities.push(fetch_land_ability(EtbTapState::Tapped));
    assert_eq!(
        vetoed(judged(FetchLandPatiencePolicy, &state, &activate(wilds, 0))),
        "fetch_patience_hold"
    );
}

// ---------------------------------------------------------------------------
// Holding mana up
// ---------------------------------------------------------------------------

fn control_deck(reactive_tempo: i64) -> DeckFeatures {
    DeckFeatures {
        control: ControlFeature {
            commitment: 800_000,
            reactive_tempo,
            reactive_tempo_floor: 300_000,
        },
        ..deck()
    }
}

fn hold_verdict(state: &GameState, candidate: &CandidateAction) -> PolicyVerdict {
    told(state, priority(), candidate, &settings(), &memory_of(control_deck(600_000)), |ctx| {
        HoldManaUpForInteractionPolicy.verdict(ctx)
    })
}

#[test]
fn activation_opts_out_below_reactive_tempo_floor() {
    let state = new_table(2);
    assert!(HoldManaUpForInteractionPolicy
        .activation(&control_deck(100_000), &state, AI)
        .is_none());
}

#[test]
fn activation_active_above_floor() {
    let state = new_table(2);
    assert!(HoldManaUpForInteractionPolicy
        .activation(&control_deck(500_000), &state, AI)
        .is_some());
}

#[test]
fn tap_out_penalty_fires_when_instant_left_unplayable() {
    let mut state = new_table(2);
    add_land(&mut state, Zone::Battlefield);
    add_land(&mut state, Zone::Battlefield);
    add_card(&mut state, "Instant", CoreType::Instant, 2);
    let sorcery = add_card(&mut state, "Sorcery", CoreType::Sorcery, 2);
    match hold_verdict(&state, &cast(sorcery)) {
        PolicyVerdict::Score { delta, reason } => {
            assert_eq!(reason.kind, "hold_mana_up_tap_out");
            assert_eq!(delta, -400_000);
            assert_eq!(reason.facts, vec![("min_instant_cmc", 2), ("mana_after_cast", 0)]);
        }
        PolicyVerdict::Reject { .. } => panic!("unexpected veto"),
    }
}

#[test]
fn no_penalty_when_enough_mana_remains() {
    let mut state = new_table(2);
    for _ in 0..4 {
        add_land(&mut state, Zone::Battlefield);
    }
    add_card(&mut state, "Instant", CoreType::Instant, 2);
    let sorcery = add_card(&mut state, "Sorcery", CoreType::Sorcery, 1);
    assert_eq!(scored(hold_verdict(&state, &cast(sorcery))), (0, "hold_mana_up_ok"));
}

#[test]
fn no_penalty_when_no_instants_in_hand() {
    let mut state = new_table(2);
    add_land(&mut state, Zone::Battlefield);
    add_land(&mut state, Zone::Battlefield);
    let sorcery = add_card(&mut state, "Sorcery", CoreType::Sorcery, 2);
    assert_eq!(scored(hold_verdict(&state, &cast(sorcery))), (0, "hold_mana_up_ok"));
}

#[test]
fn mana_is_held_up_in_the_own_main_phase_only() {
    let mut state = new_table(2);
    add_card(&mut state, "Instant", CoreType::Instant, 2);
    let sorcery = add_card(&mut state, "Sorcery", CoreType::Sorcery, 2);
    state.phase = Phase::Upkeep;
    assert_eq!(scored(hold_verdict(&state, &cast(sorcery))), (0, "hold_mana_up_na"));
    state.phase = Phase::PostCombatMain;
    assert_eq!(
        scored(hold_verdict(&state, &cast(sorcery))),
        (-400_000, "hold_mana_up_tap_out")
    );
    state.turn_decision_maker = OPP;
    assert_eq!(scored(hold_verdict(&state, &cast(sorcery))), (0, "hold_mana_up_na"));
}

#[test]
fn tapped_lands_are_no_mana() {
    let mut state = new_table(2);
    for _ in 0..4 {
        add_land(&mut state, Zone::Battlefield);
    }
    for land in &mut state.objects {
        land.tapped = true;
    }
    let dork = add_creature(&mut state, AI, 1, 1, vec![]);
    object_mut(&mut state, dork).is_mana_dork = true;
    add_card(&mut state, "Instant", CoreType::Instant, 2);
    let sorcery = add_card(&mut state, "Sorcery", CoreType::Sorcery, 0);
    match hold_verdict(&state, &cast(sorcery)) {
        PolicyVerdict::Score { reason, .. } => {
            assert_eq!(reason.facts, vec![("min_instant_cmc", 2), ("mana_after_cast", 1)]);
        }
        PolicyVerdict::Reject { .. } => panic!("unexpected veto"),
    }
}

// ---------------------------------------------------------------------------
// Which land first
// ---------------------------------------------------------------------------

/// A land in hand that does something when it enters.
fn add_entering_land(state: &mut GameState, what: Effect) -> ObjectId {
    let id = add_land(state, Zone::Hand);
    object_mut(state, id).trigger_definitions.push(TriggerDefinition {
        mode: TriggerMode::ChangesZone,
        origin: None,
        destination: Some(Zone::Battlefield),
        valid_card: Some(filter(FilterShape::SelfRef)),
        execute: Some(ability(AbilityKind::Spell, what)),
    });
    id
}

fn own_land_bounce(controller: Option<ControllerRef>) -> Effect {
    effect(EffectKind::Bounce {
        target: filter(FilterShape::Typed { controller, type_filters: vec![TypeFilter::Land] }),
    })
}

fn play_land(state: &GameState, object_id: ObjectId) -> PolicyVerdict {
    judged(LandSequencingPolicy, state, &action(GameAction::PlayLand { object_id }))
}

#[test]
fn bounce_land_deprioritized_when_alternative() {
    let mut state = new_table(2);
    let karoo = add_entering_land(&mut state, own_land_bounce(Some(ControllerRef::You)));
    add_land(&mut state, Zone::Hand);
    assert_eq!(
        scored(play_land(&state, karoo)),
        (-1_500_000, "land_sequencing_play_other_first")
    );
}

#[test]
fn bounce_land_alone_not_penalized() {
    let mut state = new_table(2);
    let karoo = add_entering_land(&mut state, own_land_bounce(Some(ControllerRef::You)));
    assert_eq!(scored(play_land(&state, karoo)), (0, "land_sequencing_no_alternative"));
}

#[test]
fn non_bounce_land_na() {
    let mut state = new_table(2);
    add_entering_land(&mut state, own_land_bounce(Some(ControllerRef::You)));
    let basic = add_land(&mut state, Zone::Hand);
    assert_eq!(scored(play_land(&state, basic)), (0, "land_sequencing_na"));
}

#[test]
fn non_karoo_etb_land_na() {
    let mut state = new_table(2);
    let temple = add_entering_land(&mut state, effect(EffectKind::Proliferate));
    add_land(&mut state, Zone::Hand);
    assert_eq!(scored(play_land(&state, temple)), (0, "land_sequencing_na"));
}

#[test]
fn another_bounce_land_is_no_alternative() {
    let mut state = new_table(2);
    let karoo = add_entering_land(&mut state, own_land_bounce(Some(ControllerRef::You)));
    add_entering_land(&mut state, own_land_bounce(Some(ControllerRef::You)));
    assert_eq!(scored(play_land(&state, karoo)), (0, "land_sequencing_no_alternative"));
    let raider = add_entering_land(&mut state, own_land_bounce(Some(ControllerRef::Opponent)));
    assert_eq!(scored(play_land(&state, raider)), (0, "land_sequencing_na"));
}

// ---------------------------------------------------------------------------
// Loop shortcuts
// ---------------------------------------------------------------------------

fn offer(predicted_winner: Option<PlayerId>) -> GameState {
    let mut state = new_table(2);
    state.waiting_for = WaitingFor::LoopShortcut { proposer: AI, predicted_winner };
    state
}

fn declare(count: IterationCount) -> CandidateAction {
    action(GameAction::DeclareShortcut { count })
}

#[test]
fn activation_is_an_unconditional_backstop() {
    assert_eq!(
        LoopShortcutPolicy.activation(&deck(), &offer(Some(OPP)), AI),
        Some(1_000_000)
    );
}

#[test]
fn decline_shortcut_is_never_rejected() {
    let decline = action(GameAction::DeclineShortcut);
    assert_eq!(
        scored(judged(LoopShortcutPolicy, &offer(Some(OPP)), &decline)),
        (0, "loop_shortcut_na")
    );
}

#[test]
fn declare_outside_loop_shortcut_returns_zero() {
    let state = new_table(2);
    assert_eq!(
        scored(judged(LoopShortcutPolicy, &state, &declare(IterationCount::UntilLethal))),
        (0, "loop_shortcut_na")
    );
}

#[test]
fn declare_until_lethal_when_opponent_wins_is_rejected() {
    match judged(LoopShortcutPolicy, &offer(Some(OPP)), &declare(IterationCount::UntilLethal)) {
        PolicyVerdict::Reject { reason } => {
            assert_eq!(reason.kind, "loop_shortcut_declare_hands_opponent_the_win");
            assert_eq!(reason.facts, vec![("proposer", 0), ("predicted_winner", 1)]);
        }
        PolicyVerdict::Score { .. } => panic!("must be vetoed"),
    }
}

#[test]
fn declare_until_lethal_when_self_wins_is_critical() {
    let (delta, kind) =
        scored(judged(LoopShortcutPolicy, &offer(Some(AI)), &declare(IterationCount::UntilLethal)));
    assert!(delta > settings().bands.strong_max as i128);
    assert_eq!(kind, "loop_shortcut_declare_wins");
}

#[test]
fn declare_until_lethal_with_no_predicted_winner_is_rejected() {
    assert_eq!(
        vetoed(judged(LoopShortcutPolicy, &offer(None), &declare(IterationCount::UntilLethal))),
        "loop_shortcut_untillethal_cannot_crown"
    );
}

#[test]
fn declare_fixed_is_never_rejected() {
    for predicted_winner in [None, Some(AI), Some(OPP)] {
        assert_eq!(
            scored(judged(
                LoopShortcutPolicy,
                &offer(predicted_winner),
                &declare(IterationCount::Fixed(3))
            )),
            (0, "loop_shortcut_na")
        );
    }
}

// ---------------------------------------------------------------------------
// Ramp
// ---------------------------------------------------------------------------

fn ramp_deck(commitment: i64) -> DeckFeatures {
    DeckFeatures { mana_ramp: ManaRampFeature { commitment }, ..deck() }
}

fn add_ramp_spell(state: &mut GameState) -> ObjectId {
    let id = add_card(state, "Rampant Growth", CoreType::Sorcery, 2);
    object_mut(state, id).is_land_fetch_spell = true;
    id
}

fn ramp_verdict(state: &GameState, candidate: &CandidateAction) -> PolicyVerdict {
    told(state, priority(), candidate, &settings(), &memory_of(ramp_deck(500_000)), |ctx| {
        RampTimingPolicy.verdict(ctx)
    })
}

#[test]
fn activation_opts_out_below_floor() {
    let state = new_table(2);
    assert!(RampTimingPolicy.activation(&ramp_deck(0), &state, AI).is_none());
}

#[test]
fn activation_opts_out_past_turn_four() {
    let mut state = new_table(2);
    state.turn_number = 4;
    assert!(RampTimingPolicy.activation(&ramp_deck(800_000), &state, AI).is_some());
    state.turn_number = 5;
    assert!(RampTimingPolicy.activation(&ramp_deck(800_000), &state, AI).is_none());
}

#[test]
fn ramp_on_curve_bonus_for_turn_two_fetch() {
    let mut state = new_table(2);
    state.turn_number = 2;
    let spell = add_ramp_spell(&mut state);
    assert_eq!(scored(ramp_verdict(&state, &cast(spell))), (2_500_000, "ramp_on_curve"));
}

#[test]
fn penalty_for_non_ramp_cast_with_ramp_in_hand() {
    let mut state = new_table(2);
    state.turn_number = 2;
    add_ramp_spell(&mut state);
    let bear = add_card(&mut state, "Bear", CoreType::Creature, 2);
    assert_eq!(scored(ramp_verdict(&state, &cast(bear))), (-1_000_000, "defer_to_ramp"));
}

#[test]
fn no_penalty_for_irrelevant_spell_with_no_ramp_in_hand() {
    let mut state = new_table(2);
    state.turn_number = 2;
    let filler = add_card(&mut state, "Filler", CoreType::Creature, 2);
    assert_eq!(scored(ramp_verdict(&state, &cast(filler))), (0, "ramp_timing_na"));
}

#[test]
fn mana_ability_activation_yields_ramp_on_curve() {
    let mut state = new_table(2);
    state.turn_number = 2;
    let elves = add_creature(&mut state, AI, 1, 1, vec![]);
    let mut mana = ability(
        AbilityKind::Activated,
        effect(EffectKind::Mana { produced: ManaProduction::Fixed { colors: vec![] } }),
    );
    mana.cost = Some(AbilityCost::Tap);
    object_mut(&mut state, elves).abilities.push(mana);
    assert_eq!(scored(ramp_verdict(&state, &activate(elves, 0))), (2_500_000, "ramp_on_curve"));
}

#[test]
fn late_ramp_needs_a_threat_to_enable() {
    let mut state = new_table(2);
    state.turn_number = 4;
    for _ in 0..3 {
        add_land(&mut state, Zone::Battlefield);
    }
    let spell = add_ramp_spell(&mut state);
    let candidate = cast(spell);
    assert_eq!(scored(ramp_verdict(&state, &candidate)), (0, "ramp_timing_na"));
    add_card(&mut state, "Giant", CoreType::Creature, 4);
    assert_eq!(scored(ramp_verdict(&state, &candidate)), (0, "ramp_timing_na"));
    add_card(&mut state, "Colossus", CoreType::Creature, 5);
    assert_eq!(scored(ramp_verdict(&state, &candidate)), (1_000_000, "ramp_enables_threat"));
}

// ---------------------------------------------------------------------------
// The registry
// ---------------------------------------------------------------------------

#[test]
fn every_policy_is_registered_once() {
    let policies = PolicyRegistry::default().policies;
    assert_eq!(policies.len(), 23);
    for (i, id) in policies.iter().enumerate() {
        assert!(!policies[..i].contains(id));
    }
    assert!(!PolicyRegistry { policies: Vec::new() }.has_policy(PolicyId::LoopShortcut));
}

#[test]
fn policies_know_their_decisions() {
    assert_eq!(RampTimingPolicy.id(), PolicyId::RampTiming);
    assert_eq!(LandSequencingPolicy.decision_kinds(), vec![DecisionKind::PlayLand]);
    assert_eq!(AnthemPriorityPolicy.decision_kinds(), vec![DecisionKind::CastSpell]);
}
