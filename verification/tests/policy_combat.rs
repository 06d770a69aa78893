//! Policies on combat, life totals, timing, counters and piles.
#![allow(dead_code)]

use phase_ai::config::{AiConfig, PolicyPenalties, ScoreBands, SearchConfig};
use phase_ai::features::{
    AggroPressureFeature, AiSession, CommanderBracketTier, ControlFeature, DeckArchetype,
    DeckFeatures, ManaRampFeature, PlusOneCountersFeature, SeatFeatures, TokensWideFeature,
};
use phase_ai::policies::context::{
    AiContext, AiDecisionContext, CandidateAction, Deadline, PolicyContext, SearchDepth,
};
use phase_ai::policies::registry::{PolicyVerdict, TacticalPolicy};
use phase_ai::model::{
    AbilityDefinition, AbilityKind, CardId, CombatTaxContext, CombatTaxPending, CoreType,
    CounterPile, CounterType, Effect, EffectKind, EffectPolarity, FilterShape, GameAction,
    GameObject, GameState, Keyword, ObjectId, Phase, Player, PlayerId, PlayerScope, QuantityExpr,
    ReplacementDefinition, ResolvedAbility, StackEntry, TargetFilter, TargetRef, VoterScope,
    WaitingFor, Zone,
};
use phase_ai::policies::combat_tax::{
    archetype_multiplier, extract_tax_state, total_declared_count, CombatTaxPaymentPolicy,
};
use phase_ai::policies::context::{CastFacts, EffectProfile};
use phase_ai::policies::effect_timing::{combat_trick_score, EffectTimingPolicy};
use phase_ai::policies::lethality_awareness::LethalityAwarenessPolicy;
use phase_ai::policies::life_total_resource::LifeTotalResourcePolicy;
use phase_ai::policies::plus_one_counters::{any_doubler_on_battlefield, PlusOneCountersPolicy};
use phase_ai::policies::registry::PolicyId;
use phase_ai::policies::separate_piles_timing::SeparatePilesTimingPolicy;

const AI: PlayerId = PlayerId(0);
const OPP: PlayerId = PlayerId(1);

fn new_player(id: u8, players: u8) -> Player {
    Player {
        id: PlayerId(id),
        life: 20,
        hand: Vec::new(),
        energy: 0,
        is_eliminated: false,
        mana_pool_total: 0,
        available_mana: 0,
        opponents: (0..players).filter(|p| *p != id).map(PlayerId).collect(),
    }
}

fn new_table(players: u8) -> GameState {
    GameState {
        players: (0..players).map(|id| new_player(id, players)).collect(),
        objects: Vec::new(),
        battlefield: Vec::new(),
        stack: Vec::new(),
        revealed_cards: Vec::new(),
        turn_number: 0,
        phase: Phase::PreCombatMain,
        active_player: PlayerId(0),
        turn_decision_maker: PlayerId(0),
        in_combat: false,
        waiting_for: WaitingFor::Priority { player: PlayerId(0) },
        pending_cast_demand: None,
        pending_trigger: None,
        optional_effect: None,
        starting_life: 20,
        commander_damage_threshold: None,
        commander_headroom: Vec::new(),
        legal_blocks: Vec::new(),
    }
}

fn add_object(state: &mut GameState, owner: PlayerId, name: &str, zone: Zone) -> ObjectId {
    let n = state.objects.len() as u64 + 1;
    let id = ObjectId(n);
    state.objects.push(GameObject {
        id,
        card_id: CardId(n),
        name: name.to_string(),
        owner,
        controller: owner,
        zone,
        core_types: Vec::new(),
        subtypes: Vec::new(),
        power: None,
        toughness: None,
        loyalty: None,
        keywords: Vec::new(),
        mana_value: 0,
        tapped: false,
        summoning_sick: false,
        is_token: false,
        is_emblem: false,
        is_commander: false,
        abilities: Vec::new(),
        trigger_definitions: Vec::new(),
        replacement_definitions: Vec::new(),
        counters: Vec::new(),
        is_anthem: false,
        is_mana_dork: false,
        is_land_fetch_spell: false,
        is_ritual: false,
        has_recursion_keyword: false,
    });
    match zone {
        Zone::Battlefield => state.battlefield.push(id),
        Zone::Hand => state.players[owner.0 as usize].hand.push(id),
        _ => {}
    }
    id
}

fn object_mut(state: &mut GameState, id: ObjectId) -> &mut GameObject {
    state.objects.iter_mut().find(|o| o.id == id).unwrap()
}

fn add_creature(
    state: &mut GameState,
    owner: PlayerId,
    power: i32,
    toughness: i32,
    keywords: Vec<Keyword>,
) -> ObjectId {
    let id = add_object(state, owner, "Creature", Zone::Battlefield);
    let obj = object_mut(state, id);
    obj.core_types.push(CoreType::Creature);
    obj.power = Some(power);
    obj.toughness = Some(toughness);
    obj.keywords = keywords;
    id
}

fn filter(shape: FilterShape) -> TargetFilter {
    TargetFilter {
        shape,
        legal_targets: Vec::new(),
        matching_objects: Vec::new(),
        matching_players: Vec::new(),
        references_land: false,
    }
}

/// A filter for anything, which may be pointed at everything on the
/// battlefield.
fn anything(state: &GameState) -> TargetFilter {
    TargetFilter {
        legal_targets: state.battlefield.iter().map(|id| TargetRef::Object(*id)).collect(),
        matching_objects: state.battlefield.clone(),
        ..filter(FilterShape::Any)
    }
}

fn effect(kind: EffectKind) -> Effect {
    Effect { kind, polarity: EffectPolarity::Contextual, creature_target: None }
}

fn harmful(kind: EffectKind) -> Effect {
    Effect { kind, polarity: EffectPolarity::Harmful, creature_target: None }
}

fn draw(value: i32) -> Effect {
    effect(EffectKind::Draw {
        count: QuantityExpr::Fixed { value },
        target: filter(FilterShape::Controller),
    })
}

fn ability(kind: AbilityKind, effect: Effect) -> AbilityDefinition {
    AbilityDefinition {
        kind,
        effect,
        sub_ability: None,
        cost: None,
        ability_tag: None,
        is_mana_ability: false,
        proliferates: false,
        places_plus_one_counter: false,
        condition_currently_met: None,
        land_sacrifice_protection: None,
    }
}

fn resolved(
    effect: Effect,
    targets: Vec<TargetRef>,
    source_id: ObjectId,
    controller: PlayerId,
) -> ResolvedAbility {
    ResolvedAbility {
        effect,
        targets,
        source_id,
        controller,
        sub_ability: None,
        has_else_ability: false,
        has_repeat_for: false,
        has_player_scope: false,
    }
}

fn deck() -> DeckFeatures {
    DeckFeatures {
        tokens_wide: TokensWideFeature { commitment: 0 },
        plus_one_counters: PlusOneCountersFeature {
            commitment: 0,
            commitment_floor: 300_000,
            committed_value_floor: 500_000,
            payoff_names: Vec::new(),
        },
        mana_ramp: ManaRampFeature { commitment: 0 },
        aggro_pressure: AggroPressureFeature { commitment: 0 },
        control: ControlFeature {
            commitment: 0,
            reactive_tempo: 0,
            reactive_tempo_floor: 300_000,
        },
        bracket_tier: CommanderBracketTier::Core,
        archetype: DeckArchetype::Midrange,
        turn_multiplier: 1_000_000,
    }
}

fn settings() -> AiConfig {
    AiConfig {
        policy_penalties: PolicyPenalties {
            sacrifice_land_penalty: 5_000_000,
            sacrifice_token_cost: 500_000,
            evasion_removal_bonus_mult: 500_000,
            protect_spell_bonus_mult: 250_000,
            lethality_tapout_penalty: -3_000_000,
            low_life_defensive_bonus: 300_000,
            low_life_aggro_penalty: -400_000,
            recursion_destroy_penalty: -1_500_000,
            recursion_exile_bonus: 800_000,
            death_trigger_destroy_penalty: -700_000,
            cycling_needed_land_penalty: -2_500_000,
            cycling_patience_penalty: -1_000_000,
            combo_progress_this_turn_bonus: 10_000_000,
            combo_progress_next_turn_bonus: 5_000_000,
            loop_shortcut_winning_declare_bonus: 8_000_000,
        },
        search: SearchConfig { enabled: true, projection_min_budget_ms: 500 },
        bands: ScoreBands {
            nudge_max: 500_000,
            preference_max: 2_000_000,
            strong_max: 6_000_000,
            critical_max: 15_000_000,
        },
        interaction_patience: 1_000_000,
    }
}

fn memory() -> AiContext {
    AiContext {
        deadline: Deadline { expired: false, remaining_ms: None },
        session: AiSession { features: Vec::new(), plan: Vec::new(), projections: Vec::new() },
        combo_lines: Vec::new(),
    }
}

fn memory_of(features: DeckFeatures) -> AiContext {
    let mut context = memory();
    context.session.features.push(SeatFeatures { player: AI, features });
    context
}

fn action(action: GameAction) -> CandidateAction {
    CandidateAction {
        action,
        cast_facts: None,
        effect_profile: None,
        effective_ability: None,
        target_impact: None,
        projection: None,
    }
}

fn cast(object_id: ObjectId) -> CandidateAction {
    action(GameAction::CastSpell { object_id, card_id: CardId(object_id.0) })
}

fn activate(source_id: ObjectId, ability_index: usize) -> CandidateAction {
    action(GameAction::ActivateAbility { source_id, ability_index })
}

fn point_at(target: TargetRef) -> CandidateAction {
    action(GameAction::ChooseTarget { target: Some(target) })
}

fn priority() -> WaitingFor {
    WaitingFor::Priority { player: AI }
}

/// The question for the targets of a spell with the given ability.
fn targets_of(ability: ResolvedAbility) -> WaitingFor {
    WaitingFor::TargetSelection { object_id: ability.source_id, ability }
}

/// Tells `f` what a policy is told.
fn told<R>(
    state: &GameState,
    waiting_for: WaitingFor,
    candidate: &CandidateAction,
    config: &AiConfig,
    context: &AiContext,
    f: impl FnOnce(&PolicyContext<'_>) -> R,
) -> R {
    let decision = AiDecisionContext { waiting_for, candidates: Vec::new() };
    f(&PolicyContext {
        state,
        decision: &decision,
        candidate,
        ai_player: AI,
        config,
        context,
        cast_facts: None,
        search_depth: SearchDepth::Root,
    })
}

/// What a policy says where nothing but the position and the candidate matters.
fn judged<P: TacticalPolicy>(
    policy: P,
    state: &GameState,
    candidate: &CandidateAction,
) -> PolicyVerdict {
    told(state, priority(), candidate, &settings(), &memory(), |ctx| policy.verdict(ctx))
}

fn scored(verdict: PolicyVerdict) -> (i128, &'static str) {
    match verdict {
        PolicyVerdict::Score { delta, reason } => (delta, reason.kind),
        PolicyVerdict::Reject { reason } => panic!("unexpected veto: {}", reason.kind),
    }
}

fn vetoed(verdict: PolicyVerdict) -> &'static str {
    match verdict {
        PolicyVerdict::Reject { reason } => reason.kind,
        PolicyVerdict::Score { delta, .. } => panic!("unexpected score: {delta}"),
    }
}

fn add_land(state: &mut GameState) -> ObjectId {
    let id = add_object(state, AI, "Land", Zone::Battlefield);
    object_mut(state, id).core_types.push(CoreType::Land);
    id
}

fn no_profile() -> EffectProfile {
    EffectProfile {
        has_search_library: false,
        has_draw: false,
        has_direct_removal_text: false,
        has_reveal_hand_or_discard: false,
    }
}

/// A card in hand, and what is known of it as a spell.
fn hand_spell(
    state: &mut GameState,
    mana_value: u32,
    shape: impl Fn(&mut GameObject),
) -> (ObjectId, CastFacts) {
    let id = add_object(state, AI, "Spell", Zone::Hand);
    shape(object_mut(state, id));
    let mut scratch = new_table(1);
    let copy = add_object(&mut scratch, AI, "Spell", Zone::Hand);
    shape(object_mut(&mut scratch, copy));
    let mut object = scratch.objects.pop().unwrap();
    object.id = id;
    object.card_id = CardId(id.0);
    let facts = CastFacts {
        object,
        mana_value,
        primary_effects: Vec::new(),
        immediate_effects: Vec::new(),
        immediate_etb_triggers: 0,
        immediate_replacements: 0,
        profile: no_profile(),
    };
    (id, facts)
}

fn body(power: i32, toughness: i32) -> impl Fn(&mut GameObject) {
    move |o: &mut GameObject| {
        o.core_types.push(CoreType::Creature);
        o.power = Some(power);
        o.toughness = Some(toughness);
    }
}

// ---------------------------------------------------------------------------
// Combat taxes
// ---------------------------------------------------------------------------

fn aggro_deck() -> DeckFeatures {
    DeckFeatures { aggro_pressure: AggroPressureFeature { commitment: 900_000 }, ..deck() }
}

fn control_deck() -> DeckFeatures {
    let mut features = deck();
    features.control.commitment = 900_000;
    features
}

#[test]
fn aggro_amplifies_accept_when_damage_exceeds_tax() {
    let aggro = archetype_multiplier(Some(&aggro_deck()), CombatTaxContext::Attacking);
    let control = archetype_multiplier(Some(&control_deck()), CombatTaxContext::Attacking);
    assert!(aggro > control);
    assert_eq!((aggro, control), (1_360_000, 640_000));
    assert_eq!(
        archetype_multiplier(Some(&control_deck()), CombatTaxContext::Blocking),
        820_000
    );
    assert_eq!(archetype_multiplier(None, CombatTaxContext::Blocking), 1_000_000);
}

fn attack_tax(total_mana_value: u32, taxed: Vec<ObjectId>, attacks: Vec<ObjectId>) -> WaitingFor {
    WaitingFor::CombatTaxPayment {
        context: CombatTaxContext::Attacking,
        total_mana_value,
        per_creature: taxed,
        pending: CombatTaxPending::Attack { attacks },
    }
}

#[test]
fn total_declared_count_matches_pending_attack() {
    let waiting_for = attack_tax(4, vec![ObjectId(1)], vec![ObjectId(1), ObjectId(2)]);
    assert_eq!(total_declared_count(&waiting_for), 2);
}

#[test]
fn extract_tax_state_returns_none_for_non_combat_tax_state() {
    assert!(extract_tax_state(&priority()).is_none());
    let waiting_for = attack_tax(4, vec![ObjectId(1)], vec![ObjectId(1), ObjectId(2)]);
    let tax = extract_tax_state(&waiting_for).unwrap();
    assert_eq!(tax.total_mana_value, 4);
    assert_eq!(*tax.per_creature, vec![ObjectId(1)]);
    assert_eq!(tax.context, CombatTaxContext::Attacking);
}

fn pay(state: &GameState, accept: bool, context: &AiContext) -> (i128, &'static str) {
    let candidate = action(GameAction::PayCombatTax { accept });
    scored(told(state, priority(), &candidate, &settings(), context, |ctx| {
        CombatTaxPaymentPolicy.verdict(ctx)
    }))
}

#[test]
fn tax_is_weighed_against_what_gets_through() {
    let mut state = new_table(2);
    let bear = add_creature(&mut state, AI, 3, 3, vec![]);
    let other = add_creature(&mut state, AI, 1, 1, vec![]);
    for _ in 0..3 {
        add_land(&mut state);
    }
    state.waiting_for = attack_tax(2, vec![bear], vec![bear, other]);
    assert_eq!(pay(&state, true, &memory()), (350_000, "combat_tax_accept"));
    assert_eq!(pay(&state, false, &memory()), (-350_000, "combat_tax_decline"));
    assert_eq!(pay(&state, true, &memory_of(aggro_deck())).0, 476_000);

    state.waiting_for = attack_tax(3, vec![bear], vec![bear, other]);
    assert_eq!(pay(&state, true, &memory()).0, -200_000);

    state.waiting_for = attack_tax(4, vec![bear], vec![bear, other]);
    assert_eq!(pay(&state, true, &memory()).0, -650_000);
    assert_eq!(pay(&state, false, &memory()).0, 450_000);

    state.waiting_for = attack_tax(2, vec![bear, other], vec![bear, other]);
    assert_eq!(pay(&state, true, &memory()).0, 500_000);

    state.waiting_for = WaitingFor::CombatTaxPayment {
        context: CombatTaxContext::Blocking,
        total_mana_value: 2,
        per_creature: vec![bear],
        pending: CombatTaxPending::Block { assignments: vec![bear, other] },
    };
    assert_eq!(pay(&state, true, &memory()).0, 600_000);

    state.waiting_for = priority();
    assert_eq!(pay(&state, true, &memory()), (0, "combat_tax_na"));
}

// ---------------------------------------------------------------------------
// Timing
// ---------------------------------------------------------------------------

fn trick_score(phase: Phase, in_combat: bool) -> i128 {
    let mut state = new_table(2);
    state.phase = phase;
    state.in_combat = in_combat;
    told(&state, priority(), &cast(ObjectId(0)), &settings(), &memory(), |ctx| {
        combat_trick_score(ctx)
    })
}

#[test]
fn combat_trick_strongly_penalized_end_step() {
    assert!(trick_score(Phase::End, false) < -1_500_000);
}

#[test]
fn combat_trick_strongly_penalized_main_phase_no_combat() {
    assert!(trick_score(Phase::PreCombatMain, false) < -1_500_000);
}

#[test]
fn combat_trick_strongly_penalized_postcombat_main() {
    assert!(trick_score(Phase::PostCombatMain, false) < -1_500_000);
}

#[test]
fn combat_tricks_are_for_combat() {
    assert_eq!(trick_score(Phase::DeclareBlockers, true), 900_000);
    assert_eq!(trick_score(Phase::PreCombatMain, true), -500_000);
    assert_eq!(trick_score(Phase::EndCombat, false), -500_000);
}

fn timing(state: &GameState, candidate: &CandidateAction) -> i128 {
    told(state, priority(), candidate, &settings(), &memory(), |ctx| EffectTimingPolicy.score(ctx))
}

#[test]
fn land_is_played_first() {
    let state = new_table(2);
    let play = action(GameAction::PlayLand { object_id: ObjectId(1) });
    assert_eq!(timing(&state, &play), 1_000_000);
}

fn add_spell(state: &mut GameState, what: Effect) -> ObjectId {
    let id = add_object(state, AI, "Spell", Zone::Hand);
    object_mut(state, id).abilities.push(ability(AbilityKind::Spell, what));
    id
}

#[test]
fn removal_grows_with_the_threat() {
    let mut state = new_table(2);
    let bolt = add_spell(&mut state, harmful(EffectKind::Destroy));
    assert_eq!(timing(&state, &cast(bolt)), 300_000);
    add_creature(&mut state, OPP, 2, 2, vec![]);
    let answered = timing(&state, &cast(bolt));
    assert!(answered > 300_000 && answered <= 1_100_000);

    let narrow = add_object(&mut state, AI, "Narrow", Zone::Hand);
    let limited = Effect {
        creature_target: Some(filter(FilterShape::Other)),
        ..harmful(EffectKind::Destroy)
    };
    object_mut(&mut state, narrow).abilities.push(ability(AbilityKind::Spell, limited));
    assert_eq!(timing(&state, &cast(narrow)), 300_000);

    state.stack.push(StackEntry {
        id: ObjectId(700),
        source_id: ObjectId(701),
        controller: OPP,
        ability: Some(resolved(effect(EffectKind::Pump), vec![], ObjectId(701), OPP)),
        legal_new_targets: Vec::new(),
        impact: 0,
    });
    assert_eq!(timing(&state, &cast(narrow)), 800_000);
}

#[test]
fn counterspells_wait_for_something_to_counter() {
    let mut state = new_table(2);
    let negate = add_spell(&mut state, effect(EffectKind::Counter));
    assert_eq!(timing(&state, &cast(negate)), -600_000);
    state.turn_decision_maker = OPP;
    assert_eq!(timing(&state, &cast(negate)), -600_000);

    let bear = add_object(&mut state, OPP, "Bear", Zone::Stack);
    state.stack.push(StackEntry {
        id: bear,
        source_id: bear,
        controller: OPP,
        ability: None,
        legal_new_targets: Vec::new(),
        impact: 0,
    });
    assert_eq!(timing(&state, &cast(negate)), 950_000);
    object_mut(&mut state, bear).core_types.push(CoreType::Creature);
    assert_eq!(timing(&state, &cast(negate)), 1_250_000);
}

#[test]
fn own_spell_is_protected_on_the_own_turn() {
    let mut state = new_table(2);
    let negate = add_spell(&mut state, effect(EffectKind::Counter));
    state.stack.push(StackEntry {
        id: ObjectId(600),
        source_id: ObjectId(600),
        controller: AI,
        ability: None,
        legal_new_targets: Vec::new(),
        impact: 4_000_000,
    });
    assert_eq!(timing(&state, &cast(negate)), -600_000);
    state.stack.push(StackEntry {
        id: ObjectId(601),
        source_id: ObjectId(601),
        controller: OPP,
        ability: Some(resolved(
            effect(EffectKind::Counter),
            vec![TargetRef::Object(ObjectId(600))],
            ObjectId(601),
            OPP,
        )),
        legal_new_targets: Vec::new(),
        impact: 0,
    });
    assert_eq!(timing(&state, &cast(negate)), 1_000_000);
}

#[test]
fn creatures_come_before_combat() {
    let mut state = new_table(2);
    let hasty = add_object(&mut state, AI, "Hasty", Zone::Hand);
    let obj = object_mut(&mut state, hasty);
    obj.core_types.push(CoreType::Creature);
    obj.keywords.push(Keyword::Haste);
    assert_eq!(timing(&state, &cast(hasty)), 550_000);
    state.phase = Phase::PostCombatMain;
    assert_eq!(timing(&state, &cast(hasty)), 100_000);
}

// ---------------------------------------------------------------------------
// Under a lethal threat
// ---------------------------------------------------------------------------

fn lethality(state: &GameState, candidate: &CandidateAction) -> i128 {
    told(state, priority(), candidate, &settings(), &memory(), |ctx| {
        LethalityAwarenessPolicy.score(ctx)
    })
}

/// Five life against a 6/6 flyer.
fn lethal_state() -> GameState {
    let mut state = new_table(2);
    state.turn_number = 4;
    state.players[0].life = 5;
    add_creature(&mut state, OPP, 6, 6, vec![Keyword::Flying]);
    state
}

#[test]
fn penalizes_non_removal_cast_under_lethal() {
    let mut state = lethal_state();
    let (bears, facts) = hand_spell(&mut state, 0, body(2, 2));
    let candidate = CandidateAction { cast_facts: Some(facts), ..cast(bears) };
    assert!(lethality(&state, &candidate) < -2_000_000);
}

#[test]
fn no_penalty_when_not_under_lethal() {
    let mut state = new_table(2);
    state.turn_number = 4;
    let (bears, facts) = hand_spell(&mut state, 0, body(2, 2));
    let candidate = CandidateAction { cast_facts: Some(facts), ..cast(bears) };
    assert_eq!(lethality(&state, &candidate), 0);
}

#[test]
fn answers_to_a_lethal_threat_are_kept_or_used() {
    let mut state = lethal_state();
    let (removal, mut facts) = hand_spell(&mut state, 3, |_| {});
    facts.profile.has_direct_removal_text = true;
    let candidate = CandidateAction { cast_facts: Some(facts), ..cast(removal) };
    assert_eq!(lethality(&state, &candidate), 500_000);

    let pass = action(GameAction::PassPriority);
    assert_eq!(lethality(&state, &pass), 0);
    let instant = add_spell(&mut state, harmful(EffectKind::Destroy));
    object_mut(&mut state, instant).core_types.push(CoreType::Instant);
    assert_eq!(lethality(&state, &pass), 300_000);

    state.players[0].available_mana = 4;
    let (bears, facts) = hand_spell(&mut state, 2, body(2, 2));
    let candidate = CandidateAction { cast_facts: Some(facts), ..cast(bears) };
    assert_eq!(lethality(&state, &candidate), 0);
    state.players[0].available_mana = 3;
    assert_eq!(lethality(&state, &candidate), -3_000_000);
}

#[test]
fn aggressive_decks_heed_lethal_threats_more() {
    let state = new_table(2);
    let aggro = DeckFeatures { archetype: DeckArchetype::Aggro, ..deck() };
    assert_eq!(LethalityAwarenessPolicy.activation(&aggro, &state, AI), Some(1_500_000));
    let late = DeckFeatures { turn_multiplier: 1_300_000, ..deck() };
    assert_eq!(LethalityAwarenessPolicy.activation(&late, &state, AI), Some(1_300_000));
}

// ---------------------------------------------------------------------------
// Life totals
// ---------------------------------------------------------------------------

fn life_score(state: &GameState, candidate: &CandidateAction) -> i128 {
    told(state, priority(), candidate, &settings(), &memory(), |ctx| {
        LifeTotalResourcePolicy.score(ctx)
    })
}

#[test]
fn rewards_defensive_creature_when_low_life() {
    let mut state = new_table(2);
    state.players[0].life = 4;
    add_creature(&mut state, OPP, 5, 5, vec![]);
    let (wall, facts) = hand_spell(&mut state, 2, body(1, 3));
    let candidate = CandidateAction { cast_facts: Some(facts), ..cast(wall) };
    assert!(life_score(&state, &candidate) > 200_000);
}

#[test]
fn no_adjustment_at_healthy_life() {
    let mut state = new_table(2);
    let (bear, facts) = hand_spell(&mut state, 2, body(2, 2));
    let candidate = CandidateAction { cast_facts: Some(facts), ..cast(bear) };
    assert_eq!(life_score(&state, &candidate), 0);
}

#[test]
fn low_life_discourages_fragile_attackers() {
    let mut state = new_table(2);
    state.players[0].life = 4;
    let (goblin, facts) = hand_spell(&mut state, 1, body(2, 1));
    let candidate = CandidateAction { cast_facts: Some(facts), ..cast(goblin) };
    assert_eq!(life_score(&state, &candidate), -400_000);
    let (removal, mut facts) = hand_spell(&mut state, 1, |_| {});
    facts.profile.has_direct_removal_text = true;
    let candidate = CandidateAction { cast_facts: Some(facts), ..cast(removal) };
    assert_eq!(life_score(&state, &candidate), 400_000);
}

#[test]
fn dying_opponent_is_closed_out() {
    let mut state = new_table(2);
    state.players[1].life = 5;
    let (burn, mut facts) = hand_spell(&mut state, 1, |_| {});
    facts.profile.has_direct_removal_text = true;
    facts.primary_effects.push(ability(AbilityKind::Spell, harmful(EffectKind::DealDamage)));
    let candidate = CandidateAction { cast_facts: Some(facts), ..cast(burn) };
    assert_eq!(life_score(&state, &candidate), 300_000);

    let (salve, mut facts) = hand_spell(&mut state, 1, |_| {});
    facts.primary_effects.push(ability(AbilityKind::Spell, effect(EffectKind::GainLife)));
    let candidate = CandidateAction { cast_facts: Some(facts), ..cast(salve) };
    assert_eq!(life_score(&state, &candidate), -200_000);

    let (drake, mut facts) = hand_spell(&mut state, 3, body(2, 2));
    facts.object.keywords.push(Keyword::Flying);
    let candidate = CandidateAction { cast_facts: Some(facts), ..cast(drake) };
    assert_eq!(life_score(&state, &candidate), 200_000);

    let control = DeckFeatures { archetype: DeckArchetype::Control, ..deck() };
    assert_eq!(LifeTotalResourcePolicy.activation(&control, &state, AI), Some(800_000));
}

// ---------------------------------------------------------------------------
// +1/+1 counters
// ---------------------------------------------------------------------------

fn counters_deck(commitment: i64, payoff_names: Vec<String>) -> DeckFeatures {
    DeckFeatures {
        plus_one_counters: PlusOneCountersFeature {
            commitment,
            commitment_floor: 300_000,
            committed_value_floor: 500_000,
            payoff_names,
        },
        ..deck()
    }
}

fn counters_verdict(
    state: &GameState,
    candidate: &CandidateAction,
    payoff_names: Vec<String>,
) -> PolicyVerdict {
    let context = memory_of(counters_deck(900_000, payoff_names));
    told(state, priority(), candidate, &settings(), &context, |ctx| {
        PlusOneCountersPolicy.verdict(ctx)
    })
}

fn add_source(state: &mut GameState, name: &str, what: AbilityDefinition) -> ObjectId {
    let id = add_object(state, AI, name, Zone::Battlefield);
    object_mut(state, id).abilities.push(what);
    id
}

fn generator() -> AbilityDefinition {
    let mut generator = ability(
        AbilityKind::Activated,
        effect(EffectKind::PutCounter { counter_type: CounterType::Plus1Plus1 }),
    );
    generator.places_plus_one_counter = true;
    generator
}

fn proliferator() -> AbilityDefinition {
    let mut proliferator = ability(AbilityKind::Activated, effect(EffectKind::Proliferate));
    proliferator.proliferates = true;
    proliferator
}

#[test]
fn plus_one_counters_opts_out_below_commitment_floor() {
    let state = new_table(2);
    assert!(PlusOneCountersPolicy.activation(&deck(), &state, AI).is_none());
}

#[test]
fn opts_in_above_floor() {
    let state = new_table(2);
    assert!(PlusOneCountersPolicy
        .activation(&counters_deck(500_000, vec![]), &state, AI)
        .is_some());
}

#[test]
fn generator_with_creatures_on_board_scored_positively() {
    let mut state = new_table(2);
    let source = add_source(&mut state, "Hardened Gen", generator());
    add_creature(&mut state, AI, 0, 0, vec![]);
    assert_eq!(
        scored(counters_verdict(&state, &activate(source, 0), vec![])),
        (1_500_000, "counter_generator_with_targets")
    );
}

#[test]
fn generator_with_no_creatures_penalized() {
    let mut state = new_table(2);
    let source = add_source(&mut state, "Lonely Gen", generator());
    assert_eq!(
        scored(counters_verdict(&state, &activate(source, 0), vec![])),
        (-800_000, "counter_generator_no_targets")
    );
}

#[test]
fn proliferate_with_counters_present_strongly_positive() {
    let mut state = new_table(2);
    let source = add_source(&mut state, "Proliferator", proliferator());
    let creature = add_creature(&mut state, AI, 0, 0, vec![]);
    object_mut(&mut state, creature)
        .counters
        .push(CounterPile { counter_type: CounterType::Plus1Plus1, count: 1 });
    let (delta, kind) = scored(counters_verdict(&state, &activate(source, 0), vec![]));
    assert_eq!(kind, "proliferate_with_targets");
    assert!(delta > 1_500_000);
}

#[test]
fn proliferate_no_counters_penalized() {
    let mut state = new_table(2);
    let source = add_source(&mut state, "Proliferator", proliferator());
    assert_eq!(
        scored(counters_verdict(&state, &activate(source, 0), vec![])),
        (-1_500_000, "proliferate_no_targets")
    );
}

#[test]
fn proliferate_ignores_stale_zero_count_permanents() {
    let mut state = new_table(2);
    let source = add_source(&mut state, "Proliferator", proliferator());
    let stale = add_object(&mut state, AI, "Stale Map", Zone::Battlefield);
    object_mut(&mut state, stale)
        .counters
        .push(CounterPile { counter_type: CounterType::Plus1Plus1, count: 0 });
    let (delta, kind) = scored(counters_verdict(&state, &activate(source, 0), vec![]));
    assert_eq!(kind, "proliferate_no_targets");
    assert!(delta < 0);
}

#[test]
fn any_doubler_on_battlefield_finds_passive_replacement() {
    let mut state = new_table(2);
    let scales = add_object(&mut state, AI, "Hardened Scales", Zone::Battlefield);
    object_mut(&mut state, scales)
        .replacement_definitions
        .push(ReplacementDefinition { modifies_plus_one_counters: true });
    assert!(any_doubler_on_battlefield(&state, AI));
    assert!(!any_doubler_on_battlefield(&state, OPP));

    let mut plain = new_table(2);
    add_creature(&mut plain, AI, 0, 0, vec![]);
    assert!(!any_doubler_on_battlefield(&plain, AI));
}

#[test]
fn non_counter_spell_yields_na() {
    let mut state = new_table(2);
    let source = add_source(&mut state, "Brainstorm", ability(AbilityKind::Spell, draw(1)));
    assert_eq!(
        scored(counters_verdict(&state, &activate(source, 0), vec![])),
        (0, "plus_one_counters_na")
    );
}

#[test]
fn doublers_and_payoffs_need_counters() {
    let mut state = new_table(2);
    let source = add_source(&mut state, "Payoff", ability(AbilityKind::Spell, draw(1)));
    let named = || vec!["Payoff".to_string()];
    let candidate = activate(source, 0);
    assert_eq!(scored(counters_verdict(&state, &candidate, named())).1, "plus_one_counters_na");

    let grown = add_creature(&mut state, AI, 0, 0, vec![]);
    object_mut(&mut state, grown)
        .counters
        .push(CounterPile { counter_type: CounterType::Plus1Plus1, count: 2 });
    assert_eq!(
        scored(counters_verdict(&state, &candidate, named())),
        (1_000_000, "payoff_with_active_counters")
    );
    assert_eq!(scored(counters_verdict(&state, &candidate, vec![])).1, "plus_one_counters_na");

    object_mut(&mut state, grown)
        .replacement_definitions
        .push(ReplacementDefinition { modifies_plus_one_counters: true });
    state.stack.push(StackEntry {
        id: ObjectId(500),
        source_id: ObjectId(500),
        controller: AI,
        ability: Some(resolved(generator().effect, vec![], ObjectId(500), AI)),
        legal_new_targets: Vec::new(),
        impact: 0,
    });
    assert_eq!(
        scored(counters_verdict(&state, &candidate, named())),
        (1_200_000, "doubler_active_with_pending_counter")
    );
}

// ---------------------------------------------------------------------------
// Piles
// ---------------------------------------------------------------------------

fn piles_verdict(opposing_creatures: usize, what: Effect) -> PolicyVerdict {
    let mut state = new_table(2);
    for _ in 0..opposing_creatures {
        add_creature(&mut state, OPP, 2, 2, vec![]);
    }
    let spell = add_spell(&mut state, what);
    judged(SeparatePilesTimingPolicy, &state, &cast(spell))
}

fn make_an_example() -> Effect {
    effect(EffectKind::SeparateIntoPiles {
        partition_subject: VoterScope::EachOpponent,
        chooser: PlayerScope::Controller,
    })
}

#[test]
fn rejects_cast_when_opponent_has_no_creatures() {
    assert!(matches!(piles_verdict(0, make_an_example()), PolicyVerdict::Reject { .. }));
}

#[test]
fn rejects_returns_correct_reason_kind() {
    match piles_verdict(0, make_an_example()) {
        PolicyVerdict::Reject { reason } => {
            assert_eq!(reason.kind, "separate_piles_no_targets");
            assert_eq!(reason.facts[0], ("opponent_creatures", 0));
        }
        PolicyVerdict::Score { .. } => panic!("expected a veto"),
    }
}

#[test]
fn strong_penalty_with_one_opponent_creature() {
    let (delta, kind) = scored(piles_verdict(1, make_an_example()));
    assert_eq!(kind, "separate_piles_weak");
    assert!(delta < -1_500_000);
}

#[test]
fn marginal_penalty_with_two_opponent_creatures() {
    let (delta, kind) = scored(piles_verdict(2, make_an_example()));
    assert_eq!(kind, "separate_piles_marginal");
    assert!(delta < 0);
    assert!(delta < -1_500_000);
    assert_eq!(delta, scored(piles_verdict(1, make_an_example())).0);
}

#[test]
fn below_threshold_penalty_with_three_opponent_creatures() {
    assert_eq!(
        scored(piles_verdict(3, make_an_example())),
        (-500_000, "separate_piles_below_threshold")
    );
    assert_eq!(
        scored(piles_verdict(4, make_an_example())),
        (-500_000, "separate_piles_below_threshold")
    );
}

#[test]
fn bonus_with_five_or_more_opponent_creatures() {
    assert_eq!(
        scored(piles_verdict(5, make_an_example())),
        (300_000, "separate_piles_timely")
    );
}

#[test]
fn non_pile_spell_is_neutral() {
    assert_eq!(scored(piles_verdict(10, draw(2))), (0, "separate_piles_na"));
}

#[test]
fn activation_always_returns_some() {
    assert!(SeparatePilesTimingPolicy.activation(&deck(), &new_table(2), AI).is_some());
}

#[test]
fn id_is_separate_piles_timing() {
    assert_eq!(SeparatePilesTimingPolicy.id(), PolicyId::SeparatePilesTiming);
}

#[test]
fn piles_of_others_are_not_judged() {
    let own_piles = effect(EffectKind::SeparateIntoPiles {
        partition_subject: VoterScope::Other,
        chooser: PlayerScope::Controller,
    });
    assert_eq!(scored(piles_verdict(0, own_piles)), (0, "separate_piles_na"));
}
