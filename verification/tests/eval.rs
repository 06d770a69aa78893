//! Board evaluation.

use phase_ai::eval::{
    board_stats, creature_combat_value, evaluate_creature, evaluate_creature_with_bonuses,
    evaluate_features, evaluate_for_planner, evaluate_state, evaluate_state_breakdown,
    opponent_battlefield_creature_threat_value, strategic_intent, threat_level,
    threat_level_projected, EvalWeightSet, EvalWeights, KeywordBonuses, StrategicIntent,
    LOSS_SCORE, WIN_SCORE,
};
use phase_ai::model::{
    CardId, CommanderHeadroom, CoreType, GameObject, GameState, Keyword, ObjectId, Phase, Player,
    PlayerId, WaitingFor, Zone,
};

fn new_player(id: u8, players: u8) -> Player {
    Player {
        id: PlayerId(id),
        life: 20,
        hand: Vec::new(),
        energy: 0,
        is_eliminated: false,
        mana_pool_total: 0,
        available_mana: 0,
        opponents: (0..players).filter(|p| *p != id).map(PlayerId).collect(),
    }
}

fn new_table(players: u8) -> GameState {
    GameState {
        players: (0..players).map(|id| new_player(id, players)).collect(),
        objects: Vec::new(),
        battlefield: Vec::new(),
        stack: Vec::new(),
        revealed_cards: Vec::new(),
        turn_number: 0,
        phase: Phase::PreCombatMain,
        active_player: PlayerId(0),
        turn_decision_maker: PlayerId(0),
        in_combat: false,
        waiting_for: WaitingFor::Priority { player: PlayerId(0) },
        pending_cast_demand: None,
        pending_trigger: None,
        optional_effect: None,
        starting_life: 20,
        commander_damage_threshold: None,
        commander_headroom: Vec::new(),
        legal_blocks: Vec::new(),
    }
}

fn add_object(state: &mut GameState, owner: PlayerId, name: &str, zone: Zone) -> ObjectId {
    let n = state.objects.len() as u64 + 1;
    let id = ObjectId(n);
    state.objects.push(GameObject {
        id,
        card_id: CardId(n),
        name: name.to_string(),
        owner,
        controller: owner,
        zone,
        core_types: Vec::new(),
        subtypes: Vec::new(),
        power: None,
        toughness: None,
        loyalty: None,
        keywords: Vec::new(),
        mana_value: 0,
        tapped: false,
        summoning_sick: false,
        is_token: false,
        is_emblem: false,
        is_commander: false,
        abilities: Vec::new(),
        trigger_definitions: Vec::new(),
        replacement_definitions: Vec::new(),
        counters: Vec::new(),
        is_anthem: false,
        is_mana_dork: false,
        is_land_fetch_spell: false,
        is_ritual: false,
        has_recursion_keyword: false,
    });
    match zone {
        Zone::Battlefield => state.battlefield.push(id),
        Zone::Hand => state.players[owner.0 as usize].hand.push(id),
        _ => {}
    }
    id
}

fn object_mut(state: &mut GameState, id: ObjectId) -> &mut GameObject {
    state.objects.iter_mut().find(|o| o.id == id).unwrap()
}

fn add_creature(
    state: &mut GameState,
    owner: PlayerId,
    power: i32,
    toughness: i32,
    keywords: Vec<Keyword>,
) -> ObjectId {
    let id = add_object(state, owner, "Creature", Zone::Battlefield);
    let obj = object_mut(state, id);
    obj.core_types.push(CoreType::Creature);
    obj.power = Some(power);
    obj.toughness = Some(toughness);
    obj.keywords = keywords;
    id
}

fn make_state() -> GameState {
    new_table(2)
}

#[test]
fn winning_state_scores_higher_than_losing() {
    let mut state = make_state();
    add_creature(&mut state, PlayerId(0), 5, 5, vec![]);
    add_creature(&mut state, PlayerId(0), 3, 3, vec![]);

    let weights = EvalWeights::default();
    let score_p0 = evaluate_state(&state, PlayerId(0), &weights);
    let score_p1 = evaluate_state(&state, PlayerId(1), &weights);

    assert!(score_p0 > 0, "Player with creatures should score positive");
    assert!(score_p1 < 0, "Player without creatures should score negative");
    assert!(score_p0 > score_p1);
}

#[test]
fn game_over_win_is_max_score() {
    let mut state = make_state();
    state.waiting_for = WaitingFor::GameOver { winner: Some(PlayerId(0)) };
    let weights = EvalWeights::default();
    assert_eq!(evaluate_state(&state, PlayerId(0), &weights), WIN_SCORE);
    assert_eq!(evaluate_state(&state, PlayerId(1), &weights), LOSS_SCORE);
}

#[test]
fn creature_with_flying_scores_higher() {
    let mut state = make_state();
    let plain = add_creature(&mut state, PlayerId(0), 3, 3, vec![]);
    let flyer = add_creature(&mut state, PlayerId(0), 3, 3, vec![Keyword::Flying]);

    let plain_score = evaluate_creature(&state, plain);
    let flyer_score = evaluate_creature(&state, flyer);
    assert!(flyer_score > plain_score, "Flying creature should score higher");
}

#[test]
fn tapped_creature_scores_lower() {
    let mut state = make_state();
    let id = add_creature(&mut state, PlayerId(0), 3, 3, vec![]);
    let untapped_score = evaluate_creature(&state, id);

    object_mut(&mut state, id).tapped = true;
    let tapped_score = evaluate_creature(&state, id);

    assert!(untapped_score > tapped_score);
}

#[test]
fn deathtouch_adds_value() {
    let mut state = make_state();
    let plain = add_creature(&mut state, PlayerId(0), 1, 1, vec![]);
    let dt = add_creature(&mut state, PlayerId(0), 1, 1, vec![Keyword::Deathtouch]);

    assert!(evaluate_creature(&state, dt) > evaluate_creature(&state, plain));
}

#[test]
fn life_difference_affects_score() {
    let mut state = make_state();
    state.players[0].life = 20;
    state.players[1].life = 10;
    let weights = EvalWeights::default();
    let score = evaluate_state(&state, PlayerId(0), &weights);
    assert!(score > 0, "Ahead on life should score positive");
}

#[test]
fn lethal_life_returns_game_result() {
    let mut state = make_state();
    state.players[1].life = 0;
    let weights = EvalWeights::default();
    assert_eq!(evaluate_state(&state, PlayerId(0), &weights), WIN_SCORE);
}

#[test]
fn threat_level_higher_for_stronger_board() {
    let mut state = new_table(3);
    add_creature(&mut state, PlayerId(1), 5, 5, vec![]);
    add_creature(&mut state, PlayerId(1), 3, 3, vec![]);

    let t1 = threat_level(&state, PlayerId(0), PlayerId(1));
    let t2 = threat_level(&state, PlayerId(0), PlayerId(2));
    assert!(t1 > t2, "Player with creatures should be more threatening: {t1} vs {t2}");
}

#[test]
fn threat_level_ranges_zero_to_one() {
    let state = new_table(3);
    let t = threat_level(&state, PlayerId(0), PlayerId(1));
    assert!((0..=1_000_000).contains(&t), "Threat should be 0-1, got {t}");
}

#[test]
fn multiplayer_eval_focuses_on_highest_threat() {
    let mut state = new_table(3);
    add_creature(&mut state, PlayerId(1), 5, 5, vec![]);
    add_creature(&mut state, PlayerId(1), 4, 4, vec![]);
    add_creature(&mut state, PlayerId(0), 3, 3, vec![]);

    let weights = EvalWeights::default();
    let score = evaluate_state(&state, PlayerId(0), &weights);
    assert!(score > LOSS_SCORE && score < WIN_SCORE);
}

#[test]
fn strategic_intent_pushes_lethal_when_board_represents_kill() {
    let mut state = make_state();
    state.players[1].life = 4;
    add_creature(&mut state, PlayerId(0), 3, 3, vec![]);
    add_creature(&mut state, PlayerId(0), 2, 2, vec![]);

    assert_eq!(strategic_intent(&state, PlayerId(0)), StrategicIntent::PushLethal);
}

#[test]
fn strategic_intent_stabilizes_under_pressure() {
    let mut state = make_state();
    state.players[0].life = 3;
    add_creature(&mut state, PlayerId(1), 4, 4, vec![]);

    assert_eq!(strategic_intent(&state, PlayerId(0)), StrategicIntent::Stabilize);
}

#[test]
fn strategic_intent_preserves_advantage_when_ahead() {
    let mut state = make_state();
    add_creature(&mut state, PlayerId(0), 5, 5, vec![]);
    add_creature(&mut state, PlayerId(1), 2, 2, vec![]);

    assert_eq!(strategic_intent(&state, PlayerId(0)), StrategicIntent::PreserveAdvantage);
}

#[test]
fn opponent_creature_threat_value_weights_equal_bodies_by_controller_threat() {
    let mut state = new_table(3);
    let frog = add_creature(&mut state, PlayerId(1), 3, 3, vec![]);
    let krenko = add_creature(&mut state, PlayerId(2), 3, 3, vec![]);
    for _ in 0..10 {
        add_creature(&mut state, PlayerId(2), 1, 1, vec![]);
    }

    let frog_value =
        opponent_battlefield_creature_threat_value(&state, PlayerId(0), frog).unwrap();
    let krenko_value =
        opponent_battlefield_creature_threat_value(&state, PlayerId(0), krenko).unwrap();

    assert!(
        krenko_value > frog_value,
        "equal bodies should inherit controller threat: Krenko={krenko_value}, Frog={frog_value}"
    );
}

#[test]
fn breakdown_total_equals_weighted_features_plus_energy() {
    let mut state = make_state();
    state.turn_number = 5;
    state.players[0].life = 18;
    state.players[1].life = 11;
    add_creature(&mut state, PlayerId(0), 4, 4, vec![]);
    add_creature(&mut state, PlayerId(0), 2, 3, vec![]);
    add_creature(&mut state, PlayerId(1), 3, 2, vec![]);
    state.players[0].energy = 7;

    let weights = EvalWeightSet::learned().mid;
    let features = evaluate_features(&state, PlayerId(0)).expect("mid-game is non-terminal");
    assert!(features.energy_offset > 0, "energy term must be non-vacuous");

    let breakdown = evaluate_state_breakdown(&state, PlayerId(0), &weights)
        .expect("mid-game is non-terminal");

    assert_eq!(
        breakdown.total(),
        features.weighted_total(&weights) + features.energy_offset,
        "breakdown total must equal weighted_total + energy_offset",
    );
}

#[test]
fn features_and_breakdown_agree_on_terminal_short_circuits() {
    let weights = EvalWeights::default();

    let mut over = make_state();
    over.waiting_for = WaitingFor::GameOver { winner: Some(PlayerId(0)) };
    assert_eq!(
        evaluate_features(&over, PlayerId(0)).unwrap_err(),
        evaluate_state_breakdown(&over, PlayerId(0), &weights).unwrap_err(),
    );
    assert_eq!(
        evaluate_features(&over, PlayerId(1)).unwrap_err(),
        evaluate_state_breakdown(&over, PlayerId(1), &weights).unwrap_err(),
    );

    let mut lethal = make_state();
    lethal.players[0].life = 0;
    assert_eq!(evaluate_features(&lethal, PlayerId(0)).unwrap_err(), LOSS_SCORE);
    assert_eq!(
        evaluate_features(&lethal, PlayerId(0)).unwrap_err(),
        evaluate_state_breakdown(&lethal, PlayerId(0), &weights).unwrap_err(),
    );
}

#[test]
fn breakdown_identity_holds_for_threat_weighted_multiplayer() {
    let mut state = new_table(3);
    state.turn_number = 9;
    add_creature(&mut state, PlayerId(0), 3, 3, vec![]);
    add_creature(&mut state, PlayerId(1), 5, 5, vec![]);
    add_creature(&mut state, PlayerId(2), 1, 1, vec![]);
    state.players[0].energy = 3;

    let weights = EvalWeightSet::learned().late;
    let features = evaluate_features(&state, PlayerId(0)).expect("non-terminal");
    let breakdown = evaluate_state_breakdown(&state, PlayerId(0), &weights).expect("non-terminal");

    assert_eq!(
        breakdown.total(),
        features.weighted_total(&weights) + features.energy_offset,
        "multiplayer identity must hold",
    );
}

#[test]
fn opponent_creature_threat_value_rejects_wrong_relation_zone_and_type() {
    // Two teams of two: seats 0 and 1 against seats 2 and 3. Seat 2 is out.
    let mut state = new_table(4);
    state.players[0].opponents = vec![PlayerId(3)];
    state.players[2].is_eliminated = true;
    let own = add_creature(&mut state, PlayerId(0), 3, 3, vec![]);
    let teammate = add_creature(&mut state, PlayerId(1), 3, 3, vec![]);
    let eliminated = add_creature(&mut state, PlayerId(2), 3, 3, vec![]);
    let noncreature = add_object(&mut state, PlayerId(3), "Relic", Zone::Battlefield);
    let hand_creature = add_object(&mut state, PlayerId(3), "Hidden Creature", Zone::Hand);
    object_mut(&mut state, hand_creature).core_types.push(CoreType::Creature);

    for id in [own, teammate, eliminated, noncreature, hand_creature] {
        assert_eq!(
            opponent_battlefield_creature_threat_value(&state, PlayerId(0), id),
            None,
            "{id:?} must be outside the living-opponent battlefield-creature contract"
        );
    }
}

#[test]
fn combat_values_are_exact() {
    let standard = KeywordBonuses::default();
    assert_eq!(creature_combat_value(2, 3, |_| false, &standard), 6_000_000);
    let two = |k: Keyword| k == Keyword::Flying || k == Keyword::Deathtouch;
    assert_eq!(creature_combat_value(2, 3, two, &standard), 11_000_000);
    // First strike and double strike count once together.
    let strikes = |k: Keyword| k == Keyword::FirstStrike || k == Keyword::DoubleStrike;
    assert_eq!(creature_combat_value(2, 2, strikes, &standard), 6_600_000);
    assert_eq!(creature_combat_value(1, 1, |_| true, &standard), 15_800_000);
}

#[test]
fn evaluated_creatures_are_exact() {
    let mut state = make_state();
    let id = add_creature(&mut state, PlayerId(0), 3, 3, vec![Keyword::Menace]);
    assert_eq!(evaluate_creature(&state, id), 9_000_000);
    object_mut(&mut state, id).tapped = true;
    assert_eq!(evaluate_creature(&state, id), 7_500_000);
    let mut bonuses = KeywordBonuses::default();
    bonuses.menace_mult = 1_000_000;
    bonuses.tapped_penalty = 0;
    assert_eq!(evaluate_creature_with_bonuses(&state, id, &bonuses), 10_500_000);
    assert_eq!(evaluate_creature(&state, ObjectId(99)), 0);
}

#[test]
fn board_totals_are_exact() {
    let mut state = make_state();
    add_creature(&mut state, PlayerId(0), 3, 4, vec![]);
    add_creature(&mut state, PlayerId(0), 1, 1, vec![]);
    add_creature(&mut state, PlayerId(1), 7, 7, vec![]);
    let land = add_object(&mut state, PlayerId(0), "Forest", Zone::Battlefield);
    object_mut(&mut state, land).core_types.push(CoreType::Land);
    let relic = add_object(&mut state, PlayerId(0), "Relic", Zone::Battlefield);
    object_mut(&mut state, relic).core_types.push(CoreType::Artifact);
    assert_eq!(board_stats(&state, PlayerId(0)), (2, 4, 5, 1));
    assert_eq!(board_stats(&state, PlayerId(1)), (1, 7, 7, 0));
}

#[test]
fn threat_shares_add_up() {
    let mut state = make_state();
    // Full life is half of the life share.
    assert_eq!(threat_level(&state, PlayerId(0), PlayerId(1)), 100_000);
    add_creature(&mut state, PlayerId(1), 5, 5, vec![]);
    assert_eq!(threat_level(&state, PlayerId(0), PlayerId(1)), 252_000);
    for _ in 0..7 {
        add_object(&mut state, PlayerId(1), "Card", Zone::Hand);
    }
    assert_eq!(threat_level(&state, PlayerId(0), PlayerId(1)), 402_000);
    let general = add_object(&mut state, PlayerId(1), "General", Zone::Command);
    object_mut(&mut state, general).is_commander = true;
    state.commander_damage_threshold = Some(20);
    state.commander_headroom.push(CommanderHeadroom {
        commander: general,
        defender: PlayerId(0),
        headroom: 10,
    });
    assert_eq!(threat_level(&state, PlayerId(0), PlayerId(1)), 527_000);
}

#[test]
fn threat_never_falls_below_zero() {
    let mut state = make_state();
    state.players[1].life = -5;
    add_creature(&mut state, PlayerId(1), -30, 1, vec![]);
    assert_eq!(threat_level(&state, PlayerId(0), PlayerId(1)), 0);
}

#[test]
fn projected_power_counts_in_place_of_the_board() {
    let mut state = make_state();
    add_creature(&mut state, PlayerId(1), 1, 1, vec![]);
    let mut later = make_state();
    add_creature(&mut later, PlayerId(1), 4, 4, vec![]);
    assert_eq!(threat_level_projected(&state, PlayerId(0), PlayerId(1), None), 140_000);
    assert_eq!(threat_level_projected(&state, PlayerId(0), PlayerId(1), Some(&later)), 224_000);
}

#[test]
fn duel_features_are_exact_and_opposite() {
    let mut state = make_state();
    state.players[0].life = 18;
    state.players[1].life = 11;
    add_creature(&mut state, PlayerId(0), 4, 4, vec![]);
    add_creature(&mut state, PlayerId(1), 3, 2, vec![]);
    state.players[0].energy = 7;
    let mine = evaluate_features(&state, PlayerId(0)).unwrap();
    let theirs = evaluate_features(&state, PlayerId(1)).unwrap();
    assert_eq!(mine.life, 7_000_000);
    assert_eq!(mine.board_presence, 0);
    assert_eq!(mine.board_power, 1_000_000);
    assert_eq!(mine.board_toughness, 2_000_000);
    assert_eq!(mine.aggression, 4_000_000);
    assert_eq!(mine.energy_offset, 700_000);
    assert_eq!(theirs.life, -mine.life);
    assert_eq!(theirs.board_power, -mine.board_power);
    assert_eq!(theirs.aggression, 0);
    // 7 + 1.5 + 2 + 0.5 * 4 + 0.7
    assert_eq!(evaluate_state(&state, PlayerId(0), &EvalWeights::default()), 13_200_000);
}

#[test]
fn a_draw_is_worth_nothing() {
    let mut state = make_state();
    state.waiting_for = WaitingFor::GameOver { winner: None };
    assert_eq!(evaluate_state(&state, PlayerId(0), &EvalWeights::default()), 0);
    assert_eq!(evaluate_state(&state, PlayerId(1), &EvalWeights::default()), 0);
}

#[test]
fn weights_change_with_the_turn() {
    let set = EvalWeightSet::learned();
    assert_eq!(*set.for_turn(3), set.early);
    assert_eq!(*set.for_turn(4), set.mid);
    assert_eq!(*set.for_turn(7), set.mid);
    assert_eq!(*set.for_turn(8), set.late);
    assert_eq!(EvalWeights::learned(), set.late);
    assert_eq!(set.early.card_advantage, 2_500_000);
    let uniform = EvalWeightSet::uniform(EvalWeights::default());
    assert_eq!(uniform, EvalWeightSet::default());
    assert_eq!(*uniform.for_turn(1), *uniform.for_turn(20));
}

#[test]
fn a_seat_without_opponents_keeps_its_advantage() {
    let mut state = make_state();
    state.players[0].opponents = vec![];
    assert_eq!(strategic_intent(&state, PlayerId(0)), StrategicIntent::PreserveAdvantage);
}

#[test]
fn planners_get_value_and_intent() {
    let mut state = make_state();
    state.players[0].life = 3;
    add_creature(&mut state, PlayerId(1), 4, 4, vec![]);
    let weights = EvalWeights::default();
    let estimate = evaluate_for_planner(&state, PlayerId(0), &weights);
    assert_eq!(estimate.value, evaluate_state(&state, PlayerId(0), &weights));
    assert_eq!(estimate.intent, StrategicIntent::Stabilize);
}

#[test]
fn positions_with_unseated_opponents_are_not_valid() {
    let mut state = make_state();
    assert!(state.is_valid());
    state.players[0].opponents = vec![PlayerId(7)];
    assert!(!state.is_valid());
}

#[test]
fn an_even_table_gives_no_lead_and_no_aggression() {
    let mut state = new_table(4);
    for p in 0..4 {
        add_creature(&mut state, PlayerId(p), 3, 3, Vec::new());
    }
    let features = evaluate_features(&state, PlayerId(0)).expect("open position");
    assert_eq!(features.life, 0);
    assert_eq!(features.board_presence, 0);
    assert_eq!(features.board_power, 0);
    assert_eq!(features.hand_size, 0);
    assert_eq!(features.aggression, 0);
}

#[test]
fn a_life_lead_over_several_opponents_brings_aggression() {
    let mut state = new_table(4);
    add_creature(&mut state, PlayerId(0), 3, 3, Vec::new());
    state.players[0].life = 21;
    let features = evaluate_features(&state, PlayerId(0)).expect("open position");
    assert_eq!(features.life, 1_000_000);
    assert_eq!(features.aggression, 3_000_000);
}

#[test]
fn large_weights_are_applied_exactly() {
    let mut state = make_state();
    state.players[1].life = 17;
    let weights = EvalWeights {
        life: 400_000_000_000_000_000,
        aggression: 0,
        board_presence: 0,
        board_power: 0,
        board_toughness: 0,
        hand_size: 0,
        zone_quality: 0,
        card_advantage: 0,
        synergy: 0,
    };
    assert_eq!(evaluate_state(&state, PlayerId(0), &weights), 1_200_000_000_000_000_000);
    assert_eq!(evaluate_state(&state, PlayerId(1), &weights), -1_200_000_000_000_000_000);
}
