//! Harvesting features from played games.

use phase_ai::eval::EvalWeights;
use phase_ai::harvest::{FeatureRow, GameHarvester, StrategicFacts};
use phase_ai::model::{
    CardId, CoreType, GameObject, GameState, Keyword, ObjectId, Phase, Player, PlayerId,
    StackEntry, WaitingFor, Zone,
};

fn new_player(id: u8, players: u8) -> Player {
    Player {
        id: PlayerId(id),
        life: 20,
        hand: Vec::new(),
        energy: 0,
        is_eliminated: false,
        mana_pool_total: 0,
        available_mana: 0,
        opponents: (0..players).filter(|p| *p != id).map(PlayerId).collect(),
    }
}

fn new_table(players: u8) -> GameState {
    GameState {
        players: (0..players).map(|id| new_player(id, players)).collect(),
        objects: Vec::new(),
        battlefield: Vec::new(),
        stack: Vec::new(),
        revealed_cards: Vec::new(),
        turn_number: 0,
        phase: Phase::PreCombatMain,
        active_player: PlayerId(0),
        turn_decision_maker: PlayerId(0),
        in_combat: false,
        waiting_for: WaitingFor::Priority { player: PlayerId(0) },
        pending_cast_demand: None,
        pending_trigger: None,
        optional_effect: None,
        starting_life: 20,
        commander_damage_threshold: None,
        commander_headroom: Vec::new(),
        legal_blocks: Vec::new(),
    }
}

fn add_object(state: &mut GameState, owner: PlayerId, name: &str, zone: Zone) -> ObjectId {
    let n = state.objects.len() as u64 + 1;
    let id = ObjectId(n);
    state.objects.push(GameObject {
        id,
        card_id: CardId(n),
        name: name.to_string(),
        owner,
        controller: owner,
        zone,
        core_types: Vec::new(),
        subtypes: Vec::new(),
        power: None,
        toughness: None,
        loyalty: None,
        keywords: Vec::new(),
        mana_value: 0,
        tapped: false,
        summoning_sick: false,
        is_token: false,
        is_emblem: false,
        is_commander: false,
        abilities: Vec::new(),
        trigger_definitions: Vec::new(),
        replacement_definitions: Vec::new(),
        counters: Vec::new(),
        is_anthem: false,
        is_mana_dork: false,
        is_land_fetch_spell: false,
        is_ritual: false,
        has_recursion_keyword: false,
    });
    match zone {
        Zone::Battlefield => state.battlefield.push(id),
        Zone::Hand => state.players[owner.0 as usize].hand.push(id),
        _ => {}
    }
    id
}

fn object_mut(state: &mut GameState, id: ObjectId) -> &mut GameObject {
    state.objects.iter_mut().find(|o| o.id == id).unwrap()
}

fn add_creature(
    state: &mut GameState,
    owner: PlayerId,
    power: i32,
    toughness: i32,
    keywords: Vec<Keyword>,
) -> ObjectId {
    let id = add_object(state, owner, "Creature", Zone::Battlefield);
    let obj = object_mut(state, id);
    obj.core_types.push(CoreType::Creature);
    obj.power = Some(power);
    obj.toughness = Some(toughness);
    obj.keywords = keywords;
    id
}

const NO_FACTS: StrategicFacts =
    StrategicFacts { card_advantage_differential: 0, synergy: None, zone_quality: 0 };

fn push_stack(state: &mut GameState) {
    state.stack.push(StackEntry {
        id: ObjectId(9_999),
        source_id: ObjectId(9_999),
        controller: PlayerId(0),
        ability: None,
        legal_new_targets: Vec::new(),
        impact: 0,
    });
}

#[test]
fn observe_gates_on_empty_stack_and_flushes_per_completed_turn() {
    let mut harvester = GameHarvester::new(42, "unit".to_string(), 0);
    let mut state = new_table(2);

    state.turn_number = 1;
    push_stack(&mut state);
    harvester.observe(&state, &NO_FACTS);
    assert!(harvester.pending.is_none(), "non-empty stack must not snapshot");
    state.stack.clear();
    harvester.observe(&state, &NO_FACTS);
    assert_eq!(
        harvester.pending.as_ref().map(|(t, _)| *t),
        Some(1),
        "empty stack sets pending for the current turn"
    );

    state.turn_number = 2;
    harvester.observe(&state, &NO_FACTS);
    assert_eq!(harvester.buffer.len(), 1, "turn advance flushes turn 1");
    push_stack(&mut state);
    harvester.observe(&state, &NO_FACTS);
    assert_eq!(
        harvester.pending.as_ref().map(|(t, _)| *t),
        Some(2),
        "non-empty mid-turn boundary keeps turn 2's pending"
    );
    state.stack.clear();

    state.turn_number = 3;
    harvester.observe(&state, &NO_FACTS);
    assert_eq!(harvester.buffer.len(), 2);

    let records = harvester.finish(Some(PlayerId(0)));
    let turns: Vec<u32> = records.iter().map(|r| r.turn).collect();
    assert_eq!(
        turns,
        vec![1, 2],
        "one record per completed turn, strictly increasing, final turn dropped"
    );
    assert!(records.iter().all(|r| r.won), "p0 won: every row is won");
}

#[test]
fn finish_labels_by_winner_and_drops_unlabeled_games() {
    let build = || {
        let mut h = GameHarvester::new(1, "m".to_string(), 3);
        let mut state = new_table(2);
        state.turn_number = 1;
        h.observe(&state, &NO_FACTS);
        state.turn_number = 2;
        h.observe(&state, &NO_FACTS);
        h
    };

    assert!(build().finish(Some(PlayerId(0))).iter().all(|r| r.won));
    assert!(build().finish(Some(PlayerId(1))).iter().all(|r| !r.won));
    assert_eq!(
        build().finish(Some(PlayerId(1)))[0].game_idx,
        3,
        "per-game identity is carried onto the record"
    );
    assert!(
        build().finish(None).is_empty(),
        "unlabeled game (draw / cap / panic) contributes no rows"
    );
}

#[test]
fn observe_skips_terminal_positions() {
    let mut harvester = GameHarvester::new(1, "m".to_string(), 0);
    let mut state = new_table(2);
    state.turn_number = 1;
    state.waiting_for = WaitingFor::GameOver { winner: Some(PlayerId(0)) };
    harvester.observe(&state, &NO_FACTS);
    assert!(harvester.pending.is_none(), "a decided game leaves no snapshot");
}

#[test]
fn feature_row_round_trips_and_excludes_energy_from_weighted_total() {
    let row = FeatureRow {
        life: 1_000_000,
        board_presence: 2_000_000,
        board_power: 3_000_000,
        board_toughness: 4_000_000,
        hand_size: 5_000_000,
        aggression: 6_000_000,
        card_advantage: 7_000_000,
        zone_quality: 8_000_000,
        synergy: 9_000_000,
        energy_offset: 100_000_000,
    };

    let w = EvalWeights {
        life: 1_000_000,
        aggression: 1_000_000,
        board_presence: 1_000_000,
        board_power: 1_000_000,
        board_toughness: 1_000_000,
        hand_size: 1_000_000,
        zone_quality: 1_000_000,
        card_advantage: 1_000_000,
        synergy: 1_000_000,
    };
    // 1+2+3+4+5+6+7+8+9 = 45; energy_offset (100) is excluded.
    assert_eq!(row.weighted_total(&w), 45_000_000);
}

#[test]
fn rows_add_strategic_facts_to_the_board() {
    let mut state = new_table(2);
    state.players[0].life = 25;
    state.players[0].energy = 2;
    let relic = add_object(&mut state, PlayerId(0), "Relic", Zone::Battlefield);
    object_mut(&mut state, relic).core_types.push(CoreType::Artifact);
    add_creature(&mut state, PlayerId(0), 2, 2, vec![Keyword::Flying]);
    let facts = StrategicFacts {
        card_advantage_differential: 1_500_000,
        synergy: Some(250_000),
        zone_quality: -300_000,
    };
    let row = FeatureRow::extract(&state, &facts, PlayerId(0)).unwrap();
    assert_eq!(row.life, 5_000_000);
    assert_eq!(row.board_power, 2_000_000);
    assert_eq!(row.card_advantage, 2_500_000);
    assert_eq!(row.synergy, 250_000);
    assert_eq!(row.zone_quality, -300_000);
    assert_eq!(row.energy_offset, 200_000);
    state.players[0].life = 0;
    assert!(FeatureRow::extract(&state, &facts, PlayerId(0)).is_none());
}

#[test]
fn a_record_is_that_of_the_last_quiet_position_of_its_turn() {
    let mut harvester = GameHarvester::new(9, "whole".to_string(), 2);
    let mut state = new_table(2);
    // Turn one: two quiet positions, then one with something on the stack.
    state.turn_number = 1;
    harvester.observe(&state, &NO_FACTS);
    state.players[1].life = 17;
    harvester.observe(&state, &NO_FACTS);
    state.players[1].life = 15;
    push_stack(&mut state);
    harvester.observe(&state, &NO_FACTS);
    // Turn two: never quiet.
    state.turn_number = 2;
    harvester.observe(&state, &NO_FACTS);
    // Turn three: quiet; turn four: quiet, but never completed.
    state.stack.clear();
    state.turn_number = 3;
    harvester.observe(&state, &NO_FACTS);
    state.turn_number = 4;
    harvester.observe(&state, &NO_FACTS);

    let records = harvester.finish(Some(PlayerId(1)));
    let seen: Vec<(u32, i128, bool)> =
        records.iter().map(|r| (r.turn, r.features.life, r.won)).collect();
    assert_eq!(seen, vec![(1, 3_000_000, false), (3, 5_000_000, false)]);
    assert!(records.iter().all(|r| r.seed == 9 && r.matchup_id == "whole" && r.game_idx == 2));
}
