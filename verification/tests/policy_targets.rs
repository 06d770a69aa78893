//! Policies on what to point at, what to give up and what to protect.
#![allow(dead_code)]

use phase_ai::config::{AiConfig, PolicyPenalties, ScoreBands, SearchConfig};
use phase_ai::features::{
    AggroPressureFeature, AiSession, CommanderBracketTier, ControlFeature, DeckArchetype,
    DeckFeatures, ManaRampFeature, PlusOneCountersFeature, SeatFeatures, TokensWideFeature,
};
use phase_ai::policies::context::{
    AiContext, AiDecisionContext, CandidateAction, Deadline, PolicyContext, SearchDepth,
};
use phase_ai::policies::registry::{PolicyVerdict, TacticalPolicy};
use phase_ai::eval::threat_level;
use phase_ai::model::{
    AbilityCost, AbilityDefinition, AbilityKind, BlockPair, CardId, ControllerRef, CoreType,
    CostResume, Effect, EffectKind, EffectPolarity, EtbTapState, FilterShape, GameAction,
    GameObject, GameState, Keyword, ObjectId, PayCostKind, Phase, Player, PlayerId,
    ProtectionPayoff, QuantityExpr, ResolvedAbility, StackEntry, TargetFilter, TargetRef,
    TriggerDefinition, TriggerMode, TypeFilter, WaitingFor, Zone,
};
use phase_ai::policies::blight_value::BlightValuePolicy;
use phase_ai::policies::context::{CastFacts, EffectProfile};
use phase_ai::policies::control_change_awareness::ControlChangeAwarenessPolicy;
use phase_ai::policies::evasion_removal_priority::{
    needs_projection, EvasionRemovalPriorityPolicy,
};
use phase_ai::policies::hand_disruption::{
    disruption_window_score, reveal_hand_matches_chosen_player_target, DisruptionWindow,
    HandDisruptionPolicy,
};
use phase_ai::policies::recursion_awareness::RecursionAwarenessPolicy;
use phase_ai::policies::sacrifice_land_protection::SacrificeLandProtectionPolicy;
use phase_ai::policies::sacrifice_value::SacrificeValuePolicy;
use phase_ai::policies::spellskite_priority::SpellskitePriorityPolicy;
use phase_ai::projection::{Projection, VelocityEntry, VelocitySample};

const AI: PlayerId = PlayerId(0);
const OPP: PlayerId = PlayerId(1);

fn new_player(id: u8, players: u8) -> Player {
    Player {
        id: PlayerId(id),
        life: 20,
        hand: Vec::new(),
        energy: 0,
        is_eliminated: false,
        mana_pool_total: 0,
        available_mana: 0,
        opponents: (0..players).filter(|p| *p != id).map(PlayerId).collect(),
    }
}

fn new_table(players: u8) -> GameState {
    GameState {
        players: (0..players).map(|id| new_player(id, players)).collect(),
        objects: Vec::new(),
        battlefield: Vec::new(),
        stack: Vec::new(),
        revealed_cards: Vec::new(),
        turn_number: 0,
        phase: Phase::PreCombatMain,
        active_player: PlayerId(0),
        turn_decision_maker: PlayerId(0),
        in_combat: false,
        waiting_for: WaitingFor::Priority { player: PlayerId(0) },
        pending_cast_demand: None,
        pending_trigger: None,
        optional_effect: None,
        starting_life: 20,
        commander_damage_threshold: None,
        commander_headroom: Vec::new(),
        legal_blocks: Vec::new(),
    }
}

fn add_object(state: &mut GameState, owner: PlayerId, name: &str, zone: Zone) -> ObjectId {
    let n = state.objects.len() as u64 + 1;
    let id = ObjectId(n);
    state.objects.push(GameObject {
        id,
        card_id: CardId(n),
        name: name.to_string(),
        owner,
        controller: owner,
        zone,
        core_types: Vec::new(),
        subtypes: Vec::new(),
        power: None,
        toughness: None,
        loyalty: None,
        keywords: Vec::new(),
        mana_value: 0,
        tapped: false,
        summoning_sick: false,
        is_token: false,
        is_emblem: false,
        is_commander: false,
        abilities: Vec::new(),
        trigger_definitions: Vec::new(),
        replacement_definitions: Vec::new(),
        counters: Vec::new(),
        is_anthem: false,
        is_mana_dork: false,
        is_land_fetch_spell: false,
        is_ritual: false,
        has_recursion_keyword: false,
    });
    match zone {
        Zone::Battlefield => state.battlefield.push(id),
        Zone::Hand => state.players[owner.0 as usize].hand.push(id),
        _ => {}
    }
    id
}

fn object_mut(state: &mut GameState, id: ObjectId) -> &mut GameObject {
    state.objects.iter_mut().find(|o| o.id == id).unwrap()
}

fn add_creature(
    state: &mut GameState,
    owner: PlayerId,
    power: i32,
    toughness: i32,
    keywords: Vec<Keyword>,
) -> ObjectId {
    let id = add_object(state, owner, "Creature", Zone::Battlefield);
    let obj = object_mut(state, id);
    obj.core_types.push(CoreType::Creature);
    obj.power = Some(power);
    obj.toughness = Some(toughness);
    obj.keywords = keywords;
    id
}

fn filter(shape: FilterShape) -> TargetFilter {
    TargetFilter {
        shape,
        legal_targets: Vec::new(),
        matching_objects: Vec::new(),
        matching_players: Vec::new(),
        references_land: false,
    }
}

/// A filter for anything, which may be pointed at everything on the
/// battlefield.
fn anything(state: &GameState) -> TargetFilter {
    TargetFilter {
        legal_targets: state.battlefield.iter().map(|id| TargetRef::Object(*id)).collect(),
        matching_objects: state.battlefield.clone(),
        ..filter(FilterShape::Any)
    }
}

fn effect(kind: EffectKind) -> Effect {
    Effect { kind, polarity: EffectPolarity::Contextual, creature_target: None }
}

fn harmful(kind: EffectKind) -> Effect {
    Effect { kind, polarity: EffectPolarity::Harmful, creature_target: None }
}

fn draw(value: i32) -> Effect {
    effect(EffectKind::Draw {
        count: QuantityExpr::Fixed { value },
        target: filter(FilterShape::Controller),
    })
}

fn ability(kind: AbilityKind, effect: Effect) -> AbilityDefinition {
    AbilityDefinition {
        kind,
        effect,
        sub_ability: None,
        cost: None,
        ability_tag: None,
        is_mana_ability: false,
        proliferates: false,
        places_plus_one_counter: false,
        condition_currently_met: None,
        land_sacrifice_protection: None,
    }
}

fn resolved(
    effect: Effect,
    targets: Vec<TargetRef>,
    source_id: ObjectId,
    controller: PlayerId,
) -> ResolvedAbility {
    ResolvedAbility {
        effect,
        targets,
        source_id,
        controller,
        sub_ability: None,
        has_else_ability: false,
        has_repeat_for: false,
        has_player_scope: false,
    }
}

fn deck() -> DeckFeatures {
    DeckFeatures {
        tokens_wide: TokensWideFeature { commitment: 0 },
        plus_one_counters: PlusOneCountersFeature {
            commitment: 0,
            commitment_floor: 300_000,
            committed_value_floor: 500_000,
            payoff_names: Vec::new(),
        },
        mana_ramp: ManaRampFeature { commitment: 0 },
        aggro_pressure: AggroPressureFeature { commitment: 0 },
        control: ControlFeature {
            commitment: 0,
            reactive_tempo: 0,
            reactive_tempo_floor: 300_000,
        },
        bracket_tier: CommanderBracketTier::Core,
        archetype: DeckArchetype::Midrange,
        turn_multiplier: 1_000_000,
    }
}

fn settings() -> AiConfig {
    AiConfig {
        policy_penalties: PolicyPenalties {
            sacrifice_land_penalty: 5_000_000,
            sacrifice_token_cost: 500_000,
            evasion_removal_bonus_mult: 500_000,
            protect_spell_bonus_mult: 250_000,
            lethality_tapout_penalty: -3_000_000,
            low_life_defensive_bonus: 300_000,
            low_life_aggro_penalty: -400_000,
            recursion_destroy_penalty: -1_500_000,
            recursion_exile_bonus: 800_000,
            death_trigger_destroy_penalty: -700_000,
            cycling_needed_land_penalty: -2_500_000,
            cycling_patience_penalty: -1_000_000,
            combo_progress_this_turn_bonus: 10_000_000,
            combo_progress_next_turn_bonus: 5_000_000,
            loop_shortcut_winning_declare_bonus: 8_000_000,
        },
        search: SearchConfig { enabled: true, projection_min_budget_ms: 500 },
        bands: ScoreBands {
            nudge_max: 500_000,
            preference_max: 2_000_000,
            strong_max: 6_000_000,
            critical_max: 15_000_000,
        },
        interaction_patience: 1_000_000,
    }
}

fn memory() -> AiContext {
    AiContext {
        deadline: Deadline { expired: false, remaining_ms: None },
        session: AiSession { features: Vec::new(), plan: Vec::new(), projections: Vec::new() },
        combo_lines: Vec::new(),
    }
}

fn memory_of(features: DeckFeatures) -> AiContext {
    let mut context = memory();
    context.session.features.push(SeatFeatures { player: AI, features });
    context
}

fn action(action: GameAction) -> CandidateAction {
    CandidateAction {
        action,
        cast_facts: None,
        effect_profile: None,
        effective_ability: None,
        target_impact: None,
        projection: None,
    }
}

fn cast(object_id: ObjectId) -> CandidateAction {
    action(GameAction::CastSpell { object_id, card_id: CardId(object_id.0) })
}

fn activate(source_id: ObjectId, ability_index: usize) -> CandidateAction {
    action(GameAction::ActivateAbility { source_id, ability_index })
}

fn point_at(target: TargetRef) -> CandidateAction {
    action(GameAction::ChooseTarget { target: Some(target) })
}

fn priority() -> WaitingFor {
    WaitingFor::Priority { player: AI }
}

/// The question for the targets of a spell with the given ability.
fn targets_of(ability: ResolvedAbility) -> WaitingFor {
    WaitingFor::TargetSelection { object_id: ability.source_id, ability }
}

/// Tells `f` what a policy is told.
fn told<R>(
    state: &GameState,
    waiting_for: WaitingFor,
    candidate: &CandidateAction,
    config: &AiConfig,
    context: &AiContext,
    f: impl FnOnce(&PolicyContext<'_>) -> R,
) -> R {
    let decision = AiDecisionContext { waiting_for, candidates: Vec::new() };
    f(&PolicyContext {
        state,
        decision: &decision,
        candidate,
        ai_player: AI,
        config,
        context,
        cast_facts: None,
        search_depth: SearchDepth::Root,
    })
}

/// What a policy says where nothing but the position and the candidate matters.
fn judged<P: TacticalPolicy>(
    policy: P,
    state: &GameState,
    candidate: &CandidateAction,
) -> PolicyVerdict {
    told(state, priority(), candidate, &settings(), &memory(), |ctx| policy.verdict(ctx))
}

fn scored(verdict: PolicyVerdict) -> (i128, &'static str) {
    match verdict {
        PolicyVerdict::Score { delta, reason } => (delta, reason.kind),
        PolicyVerdict::Reject { reason } => panic!("unexpected veto: {}", reason.kind),
    }
}

fn vetoed(verdict: PolicyVerdict) -> &'static str {
    match verdict {
        PolicyVerdict::Reject { reason } => reason.kind,
        PolicyVerdict::Score { delta, .. } => panic!("unexpected score: {delta}"),
    }
}

fn critical_max() -> i128 {
    settings().bands.critical_max as i128
}

fn select(cards: Vec<ObjectId>) -> CandidateAction {
    action(GameAction::SelectCards { cards })
}

fn add_land(state: &mut GameState) -> ObjectId {
    let id = add_object(state, AI, "Forest", Zone::Battlefield);
    object_mut(state, id).core_types.push(CoreType::Land);
    id
}

// ---------------------------------------------------------------------------
// Blight
// ---------------------------------------------------------------------------

fn blight_score(state: &GameState, cards: Vec<ObjectId>) -> i128 {
    told(state, WaitingFor::BlightChoice, &select(cards), &settings(), &memory(), |ctx| {
        BlightValuePolicy.score(ctx)
    })
}

#[test]
fn prefers_blighting_high_toughness_over_low_toughness() {
    let mut state = new_table(2);
    let small = add_creature(&mut state, AI, 3, 1, vec![]);
    let big = add_creature(&mut state, AI, 3, 5, vec![]);
    let small_score = blight_score(&state, vec![small]);
    let big_score = blight_score(&state, vec![big]);
    assert!(big_score > small_score);
    assert_eq!(small_score, -5_500_000);
    assert_eq!(big_score, -1_900_000);
    assert_eq!(blight_score(&state, vec![small, big]), -7_400_000);
}

#[test]
fn large_blight_stays_within_critical_band() {
    let mut state = new_table(2);
    let glass_cannon = add_creature(&mut state, AI, 12, 1, vec![]);
    assert_eq!(blight_score(&state, vec![glass_cannon]), -19_000_000);
    assert!(blight_score(&state, vec![glass_cannon]).abs() > critical_max());

    let verdict = told(
        &state,
        WaitingFor::BlightChoice,
        &select(vec![glass_cannon]),
        &settings(),
        &memory(),
        |ctx| BlightValuePolicy.verdict(ctx),
    );
    let (delta, _) = scored(verdict);
    assert!(delta.abs() <= critical_max());
    assert_eq!(BlightValuePolicy.activation(&deck(), &state, AI), Some(1_000_000));
}

#[test]
fn no_score_outside_blight_context() {
    let state = new_table(2);
    let score = told(
        &state,
        priority(),
        &select(vec![ObjectId(1)]),
        &settings(),
        &memory(),
        |ctx| BlightValuePolicy.score(ctx),
    );
    assert_eq!(score, 0);
}

// ---------------------------------------------------------------------------
// Changes of control
// ---------------------------------------------------------------------------

fn control_target(
    state: &GameState,
    source: ObjectId,
    what: Effect,
    selected: TargetRef,
) -> PolicyVerdict {
    let waiting_for = WaitingFor::MultiTargetSelection {
        pending_ability: resolved(what, vec![], source, AI),
    };
    let candidate = action(GameAction::SelectTargets { targets: vec![selected] });
    told(state, waiting_for, &candidate, &settings(), &memory(), |ctx| {
        ControlChangeAwarenessPolicy.verdict(ctx)
    })
}

#[test]
fn selected_give_control_penalizes_own_permanent_only() {
    let mut state = new_table(2);
    let source = add_creature(&mut state, AI, 0, 0, vec![]);
    let own = add_creature(&mut state, AI, 0, 0, vec![]);
    let opposing = add_creature(&mut state, OPP, 0, 0, vec![]);
    let give = |state: &GameState| effect(EffectKind::GiveControl { target: anything(state) });

    assert_eq!(
        scored(control_target(&state, source, give(&state), TargetRef::Object(own))),
        (-critical_max(), "control_change_gives_away_permanent")
    );
    assert_eq!(
        scored(control_target(&state, source, give(&state), TargetRef::Object(opposing))),
        (0, "control_change_ok")
    );
}

#[test]
fn selected_gain_control_does_not_count_as_giving_away() {
    let mut state = new_table(2);
    let source = add_creature(&mut state, AI, 0, 0, vec![]);
    let own = add_creature(&mut state, AI, 0, 0, vec![]);
    assert_eq!(
        scored(control_target(
            &state,
            source,
            effect(EffectKind::GainControl),
            TargetRef::Object(own)
        )),
        (0, "control_change_ok")
    );
}

#[test]
fn activation_scans_sub_abilities_for_give_control() {
    let mut state = new_table(2);
    let source = add_creature(&mut state, AI, 0, 0, vec![]);
    add_creature(&mut state, AI, 0, 0, vec![]);
    let mut nested = ability(AbilityKind::Activated, draw(1));
    nested.sub_ability = Some(Box::new(ability(
        AbilityKind::Activated,
        effect(EffectKind::GiveControl { target: anything(&state) }),
    )));
    object_mut(&mut state, source).abilities.push(nested);
    assert_eq!(
        scored(judged(ControlChangeAwarenessPolicy, &state, &activate(source, 0))),
        (-critical_max(), "control_change_gives_away_permanent")
    );
}

#[test]
fn non_control_target_selection_is_neutral() {
    let mut state = new_table(2);
    let source = add_creature(&mut state, AI, 0, 0, vec![]);
    let own = add_creature(&mut state, AI, 0, 0, vec![]);
    assert_eq!(
        scored(control_target(&state, source, draw(1), TargetRef::Object(own))),
        (0, "control_change_ok")
    );
}

#[test]
fn exchange_gives_away_whichever_side_is_own() {
    let mut state = new_table(2);
    let source = add_creature(&mut state, AI, 0, 0, vec![]);
    let own = add_creature(&mut state, AI, 0, 0, vec![]);
    let exchange = effect(EffectKind::ExchangeControl {
        target_a: filter(FilterShape::Other),
        target_b: anything(&state),
    });
    assert_eq!(
        scored(control_target(&state, source, exchange, TargetRef::Object(own))).0,
        -critical_max()
    );
    let nothing = effect(EffectKind::ExchangeControl {
        target_a: filter(FilterShape::Other),
        target_b: filter(FilterShape::Other),
    });
    assert_eq!(
        scored(control_target(&state, source, nothing, TargetRef::Object(own))).0,
        0
    );
}

// ---------------------------------------------------------------------------
// Removal
// ---------------------------------------------------------------------------

fn destroy() -> Effect {
    harmful(EffectKind::Destroy)
}

/// Chooses an object that the effect harms.
fn harm(target: ObjectId) -> CandidateAction {
    CandidateAction { target_impact: Some(-1_000_000), ..point_at(TargetRef::Object(target)) }
}

fn removal_score(
    state: &GameState,
    waiting_for: WaitingFor,
    candidate: &CandidateAction,
    context: &AiContext,
) -> i128 {
    told(state, waiting_for, candidate, &settings(), context, |ctx| {
        EvasionRemovalPriorityPolicy.score(ctx)
    })
}

fn destroy_score(state: &GameState, target: ObjectId) -> i128 {
    let spell = resolved(destroy(), vec![], ObjectId(100), AI);
    removal_score(state, targets_of(spell), &harm(target), &memory())
}

/// Three players, a 3/3 each for the two opponents, and ten more creatures for
/// the second.
fn unequal_boards() -> (GameState, ObjectId, ObjectId) {
    let mut state = new_table(3);
    let low = add_creature(&mut state, PlayerId(1), 3, 3, vec![]);
    let high = add_creature(&mut state, PlayerId(2), 3, 3, vec![]);
    for _ in 0..10 {
        add_creature(&mut state, PlayerId(2), 1, 1, vec![]);
    }
    (state, low, high)
}

#[test]
fn beast_within_targets_equal_body_controlled_by_board_threat() {
    let (state, frog, krenko) = unequal_boards();
    assert!(destroy_score(&state, krenko) > destroy_score(&state, frog));
}

#[test]
fn activated_removal_weights_controller_threat_but_beneficial_activation_is_neutral() {
    let (mut state, low, high) = unequal_boards();
    let engine = add_creature(&mut state, AI, 1, 1, vec![]);
    let score = |what: Effect, candidate: &CandidateAction| {
        let pending = resolved(what, vec![], engine, AI);
        removal_score(&state, targets_of(pending), candidate, &memory())
    };
    assert!(score(destroy(), &harm(high)) > score(destroy(), &harm(low)));

    let help = CandidateAction {
        target_impact: Some(1_000_000),
        ..point_at(TargetRef::Object(high))
    };
    assert_eq!(score(effect(EffectKind::Pump), &help), 0);
}

#[test]
fn harmful_trigger_uses_controller_threat_but_copy_retarget_is_neutral() {
    let (mut state, low, high) = unequal_boards();
    state.pending_trigger = Some(resolved(destroy(), vec![], ObjectId(999), AI));
    let trigger = || WaitingFor::TriggerTargetSelection { source_id: Some(ObjectId(999)) };
    assert!(
        removal_score(&state, trigger(), &harm(high), &memory())
            > removal_score(&state, trigger(), &harm(low), &memory())
    );
    assert_eq!(removal_score(&state, WaitingFor::Other, &harm(high), &memory()), 0);
}

#[test]
fn teammate_and_eliminated_creatures_are_neutral() {
    let mut state = new_table(4);
    let teammate = add_creature(&mut state, PlayerId(1), 4, 4, vec![]);
    let opponent = add_creature(&mut state, PlayerId(2), 4, 4, vec![]);
    let eliminated = add_creature(&mut state, PlayerId(3), 4, 4, vec![]);
    state.players[3].is_eliminated = true;
    state.players[0].opponents = vec![PlayerId(2)];
    assert_eq!(destroy_score(&state, teammate), 0);
    assert_eq!(destroy_score(&state, eliminated), 0);
    assert!(destroy_score(&state, opponent) > 0);
}

#[test]
fn bonus_for_unblockable_flyer() {
    let mut state = new_table(2);
    let flyer = add_creature(&mut state, OPP, 4, 4, vec![Keyword::Flying]);
    add_creature(&mut state, AI, 2, 2, vec![]);
    assert!(destroy_score(&state, flyer) > 1_000_000);
}

#[test]
fn no_bonus_for_ground_creature() {
    let mut state = new_table(2);
    let ground = add_creature(&mut state, OPP, 4, 4, vec![]);
    assert!(destroy_score(&state, ground) > 0);
}

#[test]
fn evasion_bonus_is_power_times_factor() {
    let mut state = new_table(2);
    let menace = add_creature(&mut state, OPP, 4, 4, vec![Keyword::Menace]);
    let plain = {
        let mut other = new_table(2);
        let ground = add_creature(&mut other, OPP, 4, 4, vec![]);
        destroy_score(&other, ground)
    };
    let unblocked = destroy_score(&state, menace);
    let blocker = add_creature(&mut state, AI, 2, 2, vec![]);
    state.legal_blocks.push(BlockPair { blocker, attacker: menace });
    let single = destroy_score(&state, menace);
    assert_eq!(unblocked - single, 1_000_000);
    let second = add_creature(&mut state, AI, 2, 2, vec![]);
    state.legal_blocks.push(BlockPair { blocker: second, attacker: menace });
    let double = destroy_score(&state, menace);
    assert_eq!(single - double, 1_000_000);
    assert!(double >= plain);
}

#[test]
fn growing_creature_is_removed_first() {
    let mut state = new_table(2);
    let target = add_creature(&mut state, OPP, 4, 4, vec![]);
    let projection = |delta: i32| Projection {
        opponent: OPP,
        samples: vec![VelocityEntry {
            object_id: target,
            sample: VelocitySample::Changed { delta },
        }],
    };
    let score = |candidate: &CandidateAction, context: &AiContext| {
        let spell = resolved(destroy(), vec![], ObjectId(100), AI);
        removal_score(&state, targets_of(spell), candidate, context)
    };
    let wants = |context: &AiContext| {
        let spell = resolved(destroy(), vec![], ObjectId(100), AI);
        told(&state, targets_of(spell), &harm(target), &settings(), context, |ctx| {
            needs_projection(ctx)
        })
    };
    let still = score(&harm(target), &memory());
    assert!(wants(&memory()));

    let fresh = CandidateAction { projection: Some(projection(2)), ..harm(target) };
    assert_eq!(score(&fresh, &memory()), still + 600_000);

    let mut late = memory();
    late.deadline.expired = true;
    assert!(!wants(&late));
    assert_eq!(score(&fresh, &late), still);

    late.session.projections.push(projection(50));
    assert_eq!(score(&fresh, &late), still + 3_000_000);

    let mut known = memory();
    known.session.projections.push(projection(-3));
    assert!(!wants(&known));
    assert_eq!(score(&fresh, &known), still);
}

#[test]
fn small_creature_is_a_waste_of_removal() {
    let mut state = new_table(2);
    let token = add_creature(&mut state, OPP, 0, 1, vec![]);
    assert_eq!(destroy_score(&state, token), -800_000);
}

// ---------------------------------------------------------------------------
// Hands
// ---------------------------------------------------------------------------

fn no_profile() -> EffectProfile {
    EffectProfile {
        has_search_library: false,
        has_draw: false,
        has_direct_removal_text: false,
        has_reveal_hand_or_discard: false,
    }
}

fn reveal_hand(target: TargetFilter, card_filter: TargetFilter) -> Effect {
    effect(EffectKind::RevealHand { target, card_filter })
}

fn any_player(players: &[u8]) -> TargetFilter {
    TargetFilter {
        matching_players: players.iter().map(|p| PlayerId(*p)).collect(),
        ..filter(FilterShape::Player)
    }
}

/// What is known of a spell without a body that does `effects` at once.
fn disruption_facts(effects: Vec<Effect>) -> CastFacts {
    let mut scratch = new_table(1);
    add_object(&mut scratch, AI, "Duress", Zone::Library);
    CastFacts {
        object: scratch.objects.pop().unwrap(),
        mana_value: 1,
        primary_effects: Vec::new(),
        immediate_effects: effects,
        immediate_etb_triggers: 0,
        immediate_replacements: 0,
        profile: EffectProfile { has_reveal_hand_or_discard: true, ..no_profile() },
    }
}

fn disrupt(state: &GameState, effects: Vec<Effect>) -> i128 {
    let candidate = CandidateAction {
        cast_facts: Some(disruption_facts(effects)),
        ..cast(ObjectId(1))
    };
    told(state, priority(), &candidate, &settings(), &memory(), |ctx| {
        HandDisruptionPolicy.score(ctx)
    })
}

#[test]
fn penalizes_discard_into_empty_hand() {
    let state = new_table(2);
    let look = reveal_hand(filter(FilterShape::Any), filter(FilterShape::Any));
    let score = disrupt(&state, vec![look]);
    assert!(score < 0);
    assert_eq!(score, -240_000);
}

/// A filter for cards that are neither creatures nor lands.
fn noncreature(matching_objects: Vec<ObjectId>) -> TargetFilter {
    TargetFilter {
        matching_objects,
        ..filter(FilterShape::Typed {
            controller: None,
            type_filters: vec![
                TypeFilter::Non(Box::new(TypeFilter::Creature)),
                TypeFilter::Non(Box::new(TypeFilter::Land)),
            ],
        })
    }
}

#[test]
fn discounts_narrow_discard_with_only_illegal_visible_hits() {
    let mut state = new_table(2);
    let bear = add_object(&mut state, OPP, "Bear", Zone::Hand);
    object_mut(&mut state, bear).core_types.push(CoreType::Creature);
    state.revealed_cards.push(bear);
    let facts = disruption_facts(vec![
        reveal_hand(filter(FilterShape::Any), noncreature(vec![])),
        effect(EffectKind::DiscardCard),
    ]);
    let window = disruption_window_score(&state, AI, &facts).unwrap();
    assert!(window.tactical_score < 0);
    assert_eq!(
        window,
        DisruptionWindow { tactical_score: -440_000, hint_priority: 220_000 }
    );
}

#[test]
fn known_hit_makes_disruption_worth_more() {
    let mut state = new_table(2);
    let spell = add_object(&mut state, OPP, "Spell", Zone::Hand);
    object_mut(&mut state, spell).mana_value = 1;
    let facts = |state: &GameState| {
        disruption_facts(vec![
            reveal_hand(filter(FilterShape::Any), noncreature(vec![state.objects[0].id])),
            effect(EffectKind::DiscardCard),
        ])
    };
    let hidden = disruption_window_score(&state, AI, &facts(&state)).unwrap();
    assert_eq!(hidden.tactical_score, -440_000);
    state.revealed_cards.push(spell);
    let shown = disruption_window_score(&state, AI, &facts(&state)).unwrap();
    assert_eq!(
        shown,
        DisruptionWindow { tactical_score: 20_000, hint_priority: 600_000 }
    );
}

#[test]
fn fuller_hand_makes_disruption_worth_more() {
    let mut state = new_table(2);
    let scores: Vec<i128> = (0..4)
        .map(|_| {
            let discard = disrupt(&state, vec![effect(EffectKind::DiscardCard)]);
            add_object(&mut state, OPP, "Card", Zone::Hand);
            discard
        })
        .collect();
    assert_eq!(scores, vec![-520_000, 20_000, 80_000, 140_000]);
}

#[test]
fn other_spells_have_no_disruption_window() {
    let state = new_table(2);
    let mut facts = disruption_facts(vec![draw(1)]);
    facts.profile = no_profile();
    assert!(disruption_window_score(&state, AI, &facts).is_none());
}

fn reveal_target_score(state: &GameState, target: PlayerId) -> i128 {
    let everybody: Vec<u8> = (0..state.players.len() as u8).collect();
    let peek = reveal_hand(any_player(&everybody), filter(FilterShape::Any));
    target_score_of(state, peek, target)
}

fn target_score_of(state: &GameState, what: Effect, target: PlayerId) -> i128 {
    let peek = resolved(what, vec![], ObjectId(1), AI);
    told(
        state,
        targets_of(peek),
        &point_at(TargetRef::Player(target)),
        &settings(),
        &memory(),
        |ctx| HandDisruptionPolicy.score(ctx),
    )
}

#[test]
fn reveal_hand_target_selection_prefers_opponent_over_self() {
    let mut state = new_table(2);
    add_object(&mut state, AI, "Peek", Zone::Hand);
    add_object(&mut state, OPP, "Opponent Card", Zone::Hand);
    add_object(&mut state, AI, "Own Card", Zone::Hand);
    assert!(reveal_target_score(&state, OPP) > reveal_target_score(&state, AI));
    assert_eq!(reveal_target_score(&state, OPP), 1_450_000);
    assert_eq!(reveal_target_score(&state, AI), -6_000_000);
}

#[test]
fn reveal_hand_target_selection_prefers_unrevealed_opponent_cards() {
    let mut state = new_table(3);
    add_object(&mut state, AI, "Peek", Zone::Hand);
    for name in ["Revealed A", "Revealed B", "Revealed C"] {
        let id = add_object(&mut state, PlayerId(1), name, Zone::Hand);
        state.revealed_cards.push(id);
    }
    add_object(&mut state, PlayerId(2), "Unrevealed", Zone::Hand);
    assert!(reveal_target_score(&state, PlayerId(2)) > reveal_target_score(&state, PlayerId(1)));
    assert_eq!(reveal_target_score(&state, PlayerId(1)), 1_310_000);
}

#[test]
fn reveal_hand_target_selection_excludes_two_headed_giant_teammate() {
    let mut state = new_table(4);
    state.players[0].opponents = vec![PlayerId(2), PlayerId(3)];
    add_object(&mut state, AI, "Peek", Zone::Hand);
    for _ in 0..3 {
        add_object(&mut state, PlayerId(1), "Teammate Card", Zone::Hand);
    }
    add_object(&mut state, PlayerId(2), "Opponent Card", Zone::Hand);
    assert!(reveal_target_score(&state, PlayerId(2)) > reveal_target_score(&state, PlayerId(1)));
}

#[test]
fn reveal_hand_target_matching_uses_player_filter_semantics() {
    let opponent = TargetFilter {
        matching_players: vec![OPP],
        ..filter(FilterShape::Typed {
            controller: Some(ControllerRef::Opponent),
            type_filters: vec![],
        })
    };
    let opponent_reveal = reveal_hand(opponent, filter(FilterShape::Any));
    assert!(reveal_hand_matches_chosen_player_target(&opponent_reveal, OPP));
    assert!(!reveal_hand_matches_chosen_player_target(&opponent_reveal, AI));

    let creature = filter(FilterShape::Typed {
        controller: None,
        type_filters: vec![TypeFilter::Creature],
    });
    let creature_reveal = reveal_hand(creature, filter(FilterShape::Any));
    assert!(!reveal_hand_matches_chosen_player_target(&creature_reveal, OPP));
    assert!(!reveal_hand_matches_chosen_player_target(&draw(1), OPP));

    // A player whom the effect cannot take is not judged, not even the AI.
    let mut state = new_table(2);
    add_object(&mut state, OPP, "Opponent Card", Zone::Hand);
    assert_eq!(target_score_of(&state, opponent_reveal, AI), 0);
    assert_eq!(target_score_of(&state, creature_reveal, OPP), 0);
    assert_eq!(reveal_target_score(&state, AI), -6_000_000);
    assert_eq!(reveal_target_score(&state, OPP), 1_450_000);
}

// ---------------------------------------------------------------------------
// Creatures that come back
// ---------------------------------------------------------------------------

fn recursion_score(state: &GameState, target: ObjectId, what: Effect) -> i128 {
    let spell = resolved(what, vec![], ObjectId(100), AI);
    told(
        state,
        targets_of(spell),
        &point_at(TargetRef::Object(target)),
        &settings(),
        &memory(),
        |ctx| RecursionAwarenessPolicy.score(ctx),
    )
}

fn exile() -> Effect {
    harmful(EffectKind::ChangeZone {
        destination: Zone::Exile,
        enter_tapped: EtbTapState::Unspecified,
    })
}

#[test]
fn penalizes_destroy_on_recursive_creature() {
    let mut state = new_table(2);
    let phoenix = add_creature(&mut state, OPP, 2, 2, vec![]);
    object_mut(&mut state, phoenix).has_recursion_keyword = true;
    assert!(recursion_score(&state, phoenix, destroy()) < -1_000_000);
}

#[test]
fn bonus_for_exile_on_recursive_creature() {
    let mut state = new_table(2);
    let phoenix = add_creature(&mut state, OPP, 2, 2, vec![]);
    object_mut(&mut state, phoenix).has_recursion_keyword = true;
    assert!(recursion_score(&state, phoenix, exile()) > 500_000);
}

#[test]
fn death_triggers_count_where_the_creature_dies() {
    let mut state = new_table(2);
    let doomed = add_creature(&mut state, OPP, 2, 2, vec![]);
    assert_eq!(recursion_score(&state, doomed, destroy()), 0);
    let trigger = |destination: Option<Zone>| TriggerDefinition {
        mode: TriggerMode::ChangesZone,
        origin: Some(Zone::Battlefield),
        destination,
        valid_card: None,
        execute: None,
    };
    object_mut(&mut state, doomed).trigger_definitions = vec![trigger(Some(Zone::Exile))];
    assert_eq!(recursion_score(&state, doomed, destroy()), 0);
    object_mut(&mut state, doomed).trigger_definitions = vec![trigger(None)];
    assert_eq!(recursion_score(&state, doomed, destroy()), -700_000);
    assert_eq!(recursion_score(&state, doomed, exile()), 0);
    assert_eq!(recursion_score(&state, doomed, effect(EffectKind::Pump)), 0);
}

// ---------------------------------------------------------------------------
// Lands given up for protection
// ---------------------------------------------------------------------------

/// A creature that protects another for a land, with what that would answer.
fn add_safekeeper(state: &mut GameState, payoff: ProtectionPayoff) -> CandidateAction {
    let id = add_object(state, AI, "Sylvan Safekeeper", Zone::Battlefield);
    let mut shroud = ability(AbilityKind::Activated, effect(EffectKind::Other));
    shroud.cost = Some(AbilityCost::Sacrifice {
        target: filter(FilterShape::Typed {
            controller: None,
            type_filters: vec![TypeFilter::Land],
        }),
    });
    shroud.land_sacrifice_protection = Some(payoff);
    CandidateAction { effective_ability: Some(shroud), ..activate(id, 0) }
}

const NO_PAYOFF: ProtectionPayoff = ProtectionPayoff { exact: None, any: false };

#[test]
fn safekeeper_no_threat_rejected() {
    let mut state = new_table(2);
    for _ in 0..5 {
        add_land(&mut state);
    }
    let candidate = add_safekeeper(&mut state, NO_PAYOFF);
    assert_eq!(
        vetoed(judged(SacrificeLandProtectionPolicy, &state, &candidate)),
        "sacrifice_land_protection_no_payoff"
    );
}

#[test]
fn safekeeper_low_land_count_rejected_with_fact() {
    let mut state = new_table(2);
    for _ in 0..2 {
        add_land(&mut state);
    }
    let candidate = add_safekeeper(&mut state, NO_PAYOFF);
    match judged(SacrificeLandProtectionPolicy, &state, &candidate) {
        PolicyVerdict::Reject { reason } => {
            assert_eq!(reason.kind, "sacrifice_land_protection_low_lands");
            assert!(reason.facts.iter().any(|(k, v)| *k == "lands_on_battlefield" && *v == 2));
        }
        PolicyVerdict::Score { .. } => panic!("expected a veto when lands are few"),
    }
}

#[test]
fn non_land_sacrifice_activation_unaffected() {
    let mut state = new_table(2);
    let id = add_object(&mut state, AI, "Mother of Runes", Zone::Battlefield);
    let mut shroud = ability(AbilityKind::Activated, effect(EffectKind::Other));
    shroud.cost = Some(AbilityCost::Tap);
    let candidate = CandidateAction { effective_ability: Some(shroud), ..activate(id, 0) };
    assert_eq!(
        scored(judged(SacrificeLandProtectionPolicy, &state, &candidate)),
        (0, "sacrifice_land_protection_na")
    );
}

#[test]
fn draw_ability_unaffected() {
    let mut state = new_table(2);
    let id = add_object(&mut state, AI, "Outpost", Zone::Battlefield);
    let mut outpost = ability(AbilityKind::Activated, draw(1));
    outpost.cost = Some(AbilityCost::Sacrifice {
        target: filter(FilterShape::Typed {
            controller: None,
            type_filters: vec![TypeFilter::Land],
        }),
    });
    let candidate = CandidateAction { effective_ability: Some(outpost), ..activate(id, 0) };
    assert_eq!(
        scored(judged(SacrificeLandProtectionPolicy, &state, &candidate)),
        (0, "sacrifice_land_protection_na")
    );
}

#[test]
fn safekeeper_rejected_on_opponent_board_pressure_only() {
    let mut state = new_table(2);
    state.active_player = OPP;
    for _ in 0..5 {
        add_land(&mut state);
    }
    add_creature(&mut state, OPP, 14, 14, vec![]);
    assert!(threat_level(&state, AI, OPP) > 0);
    let candidate = add_safekeeper(&mut state, NO_PAYOFF);
    assert_eq!(
        vetoed(judged(SacrificeLandProtectionPolicy, &state, &candidate)),
        "sacrifice_land_protection_no_payoff"
    );
}

#[test]
fn safekeeper_allowed_when_removal_targets_ai_creature() {
    let mut state = new_table(2);
    for _ in 0..5 {
        add_land(&mut state);
    }
    let candidate = add_safekeeper(&mut state, ProtectionPayoff { exact: None, any: true });
    assert_eq!(
        scored(judged(SacrificeLandProtectionPolicy, &state, &candidate)),
        (0, "sacrifice_land_protection_answerable_threat")
    );
}

#[test]
fn safekeeper_rejected_at_declare_blockers_without_stack() {
    let mut state = new_table(2);
    state.phase = Phase::DeclareBlockers;
    for _ in 0..5 {
        add_land(&mut state);
    }
    let candidate = add_safekeeper(&mut state, NO_PAYOFF);
    assert_eq!(
        vetoed(judged(SacrificeLandProtectionPolicy, &state, &candidate)),
        "sacrifice_land_protection_no_payoff"
    );
}

#[test]
fn exact_answer_overrules_possible_ones() {
    let mut state = new_table(2);
    for _ in 0..4 {
        add_land(&mut state);
    }
    let wrong = add_safekeeper(&mut state, ProtectionPayoff { exact: Some(false), any: true });
    assert_eq!(
        vetoed(judged(SacrificeLandProtectionPolicy, &state, &wrong)),
        "sacrifice_land_protection_no_payoff"
    );
    let right = add_safekeeper(&mut state, ProtectionPayoff { exact: Some(true), any: false });
    assert_eq!(
        scored(judged(SacrificeLandProtectionPolicy, &state, &right)).1,
        "sacrifice_land_protection_answerable_threat"
    );
}

// ---------------------------------------------------------------------------
// Sacrifices
// ---------------------------------------------------------------------------

/// A 3/3 that may be sacrificed, by its own ability, for a card.
fn sacrifice_for_card() -> (GameState, ObjectId) {
    let mut state = new_table(2);
    let source = add_creature(&mut state, AI, 3, 3, vec![]);
    let mut trade = resolved(
        effect(EffectKind::Sacrifice {
            target: TargetFilter {
                matching_objects: vec![source],
                ..filter(FilterShape::Typed {
                    controller: None,
                    type_filters: vec![TypeFilter::Creature],
                })
            },
            count: QuantityExpr::Fixed { value: 1 },
        }),
        vec![],
        source,
        AI,
    );
    trade.sub_ability = Some(Box::new(resolved(draw(1), vec![], source, AI)));
    state.optional_effect = Some(trade);
    (state, source)
}

fn optional_verdict(
    state: &GameState,
    source_id: ObjectId,
    accept: bool,
    search: bool,
) -> PolicyVerdict {
    let mut config = settings();
    config.search.enabled = search;
    told(
        state,
        WaitingFor::OptionalEffectChoice { source_id },
        &action(GameAction::DecideOptionalEffect { accept }),
        &config,
        &memory(),
        |ctx| SacrificeValuePolicy.verdict(ctx),
    )
}

#[test]
fn easy_ai_declines_single_card_draw_when_only_filtered_sacrifice_is_source() {
    let (state, source) = sacrifice_for_card();
    match optional_verdict(&state, source, true, false) {
        PolicyVerdict::Reject { reason } => {
            assert_eq!(reason.kind, "optional_sacrifice_only_source_for_single_card");
            assert_eq!(reason.facts, vec![("cost_milli", 7_500)]);
        }
        PolicyVerdict::Score { .. } => panic!("the only source must be kept"),
    }
    assert_eq!(
        scored(optional_verdict(&state, source, false, false)),
        (0, "sacrifice_value_score")
    );
}

#[test]
fn optional_source_preservation_guard_stands_down_with_another_sacrifice() {
    let (mut state, source) = sacrifice_for_card();
    let fodder = add_creature(&mut state, AI, 1, 1, vec![]);
    if let Some(trade) = &mut state.optional_effect {
        if let EffectKind::Sacrifice { target, .. } = &mut trade.effect.kind {
            target.matching_objects.push(fodder);
        }
    }
    assert!(matches!(
        optional_verdict(&state, source, true, false),
        PolicyVerdict::Score { .. }
    ));
}

#[test]
fn optional_source_preservation_guard_does_not_block_explicit_self_sacrifice() {
    let (mut state, source) = sacrifice_for_card();
    if let Some(trade) = &mut state.optional_effect {
        if let EffectKind::Sacrifice { target, .. } = &mut trade.effect.kind {
            target.shape = FilterShape::SelfRef;
        }
    }
    assert!(matches!(
        optional_verdict(&state, source, true, false),
        PolicyVerdict::Score { .. }
    ));
}

#[test]
fn search_enabled_ai_can_evaluate_single_source_sacrifice() {
    let (state, source) = sacrifice_for_card();
    assert!(matches!(
        optional_verdict(&state, source, true, true),
        PolicyVerdict::Score { .. }
    ));
}

fn sacrifice_score(state: &GameState, cards: Vec<ObjectId>) -> i128 {
    told(
        state,
        WaitingFor::PayCost { kind: PayCostKind::Sacrifice, resume: CostResume::Spell },
        &select(cards),
        &settings(),
        &memory(),
        |ctx| SacrificeValuePolicy.score(ctx),
    )
}

#[test]
fn prefers_sacrificing_token_over_creature() {
    let mut state = new_table(2);
    let creature = add_creature(&mut state, AI, 3, 3, vec![]);
    let token = add_object(&mut state, AI, "Treasure", Zone::Battlefield);
    object_mut(&mut state, token).core_types.push(CoreType::Artifact);
    object_mut(&mut state, token).is_token = true;
    assert!(sacrifice_score(&state, vec![token]) > sacrifice_score(&state, vec![creature]));
    assert_eq!(sacrifice_score(&state, vec![token]), -500_000);
    assert_eq!(sacrifice_score(&state, vec![creature]), -7_500_000);
    assert_eq!(sacrifice_score(&state, vec![creature, token]), -8_000_000);
}

#[test]
fn large_sacrifice_stays_within_critical_band() {
    let mut state = new_table(2);
    let big = add_creature(&mut state, AI, 8, 8, vec![]);
    assert!(sacrifice_score(&state, vec![big]).abs() > critical_max());
    let verdict = told(
        &state,
        WaitingFor::PayCost { kind: PayCostKind::Sacrifice, resume: CostResume::Spell },
        &select(vec![big]),
        &settings(),
        &memory(),
        |ctx| SacrificeValuePolicy.verdict(ctx),
    );
    let (delta, _) = scored(verdict);
    assert!(delta.abs() <= critical_max());
    assert_eq!(SacrificeValuePolicy.activation(&deck(), &state, AI), Some(1_000_000));
}

#[test]
fn no_score_outside_sacrifice_context() {
    let state = new_table(2);
    let score = told(
        &state,
        priority(),
        &select(vec![ObjectId(1)]),
        &settings(),
        &memory(),
        |ctx| SacrificeValuePolicy.score(ctx),
    );
    assert_eq!(score, 0);
}

// ---------------------------------------------------------------------------
// Redirection
// ---------------------------------------------------------------------------

fn add_spellskite(state: &mut GameState) -> ObjectId {
    let id = add_creature(state, AI, 0, 4, vec![]);
    object_mut(state, id).core_types.push(CoreType::Artifact);
    object_mut(state, id).abilities.push(ability(
        AbilityKind::Activated,
        effect(EffectKind::ChangeTargets { forced_to: Some(filter(FilterShape::SelfRef)) }),
    ));
    id
}

fn push_spell(
    state: &mut GameState,
    what: Effect,
    targets: Vec<TargetRef>,
    legal_new_targets: Vec<TargetRef>,
) {
    let id = ObjectId(800 + state.stack.len() as u64);
    state.stack.push(StackEntry {
        id,
        source_id: ObjectId(900),
        controller: OPP,
        ability: Some(resolved(what, targets, ObjectId(900), OPP)),
        legal_new_targets,
        impact: 0,
    });
}

fn skite_verdict(state: &GameState, skite: ObjectId) -> PolicyVerdict {
    judged(SpellskitePriorityPolicy, state, &activate(skite, 0))
}

#[test]
fn reject_when_empty_stack() {
    let mut state = new_table(2);
    let skite = add_spellskite(&mut state);
    assert_eq!(vetoed(skite_verdict(&state, skite)), "spellskite_no_redirectable_threat");
}

#[test]
fn reject_when_harmful_spell_already_targets_spellskite() {
    let mut state = new_table(2);
    let skite = add_spellskite(&mut state);
    let target = TargetRef::Object(skite);
    push_spell(&mut state, destroy(), vec![target], vec![target]);
    assert_eq!(vetoed(skite_verdict(&state, skite)), "spellskite_no_redirectable_threat");
}

#[test]
fn neutral_when_harmful_spell_targets_ai_creature() {
    let mut state = new_table(2);
    let skite = add_spellskite(&mut state);
    let bear = add_creature(&mut state, AI, 0, 2, vec![]);
    push_spell(
        &mut state,
        destroy(),
        vec![TargetRef::Object(bear)],
        vec![TargetRef::Object(bear), TargetRef::Object(skite)],
    );
    assert_eq!(
        scored(skite_verdict(&state, skite)),
        (0, "spellskite_redirect_available")
    );
}

#[test]
fn reject_when_harmful_player_spell_cannot_target_spellskite() {
    let mut state = new_table(2);
    let skite = add_spellskite(&mut state);
    push_spell(
        &mut state,
        harmful(EffectKind::LoseLife),
        vec![TargetRef::Player(AI)],
        vec![TargetRef::Player(AI), TargetRef::Player(OPP)],
    );
    assert_eq!(vetoed(skite_verdict(&state, skite)), "spellskite_no_redirectable_threat");
}

#[test]
fn reject_when_harmful_spell_cannot_legally_target_spellskite() {
    let mut state = new_table(2);
    let skite = add_spellskite(&mut state);
    let bear = add_creature(&mut state, AI, 0, 2, vec![]);
    push_spell(
        &mut state,
        destroy(),
        vec![TargetRef::Object(bear)],
        vec![TargetRef::Object(bear)],
    );
    assert_eq!(vetoed(skite_verdict(&state, skite)), "spellskite_no_redirectable_threat");
}

#[test]
fn helpful_spells_are_not_redirected() {
    let mut state = new_table(2);
    let skite = add_spellskite(&mut state);
    let bear = add_creature(&mut state, AI, 0, 2, vec![]);
    push_spell(
        &mut state,
        effect(EffectKind::Pump),
        vec![TargetRef::Object(bear)],
        vec![TargetRef::Object(bear), TargetRef::Object(skite)],
    );
    assert_eq!(vetoed(skite_verdict(&state, skite)), "spellskite_no_redirectable_threat");
}
