//! The command-line runners: arguments, games files, decks, tallies, log lines.

use phase_ai::bench::{bench_difficulty, per_item, within_ceiling};
use phase_ai::commander::{
    classify_run_outcome, count_owned_permanents, exit_code, life_snapshot,
    parse_action_cap_checked,
    parse_difficulty, parse_games, parse_games_file_line, parse_seat_override, seat_difficulty,
    bad_cap_message, bad_seed_message, missing_comma_message, unknown_difficulty_message,
    unknown_label_message, winner_of, GameWatch, RunOutcome,
};
use phase_ai::config::AiDifficulty;
use phase_ai::decks::{
    commander_names, deck_list, load_commander_decks, read_feed, select_commander_decks,
    visit_decks, DeckFault, FeedDeck, FeedEntry, FeedError,
};
use phase_ai::duel::{
    after_batch, check_compare_args, compare_exit_code, elimination_order, render_log_entry,
    render_number, render_signed, rounded, should_show, suite_seed, validate_deck,
    CommanderGameResult, CompareArgsError, CompareOutcome, DuelTally, EliminationLog,
    GameLogEntry, LogCategory, LogSegment, RunnerStep, SeatTally,
};
use phase_ai::model::{
    CardId, CoreType, GameObject, GameState, Keyword, ObjectId, Phase, Player, PlayerId,
    WaitingFor, Zone,
};
use phase_ai::text::{eq_ignore_case, find_char, parse_u64, parse_usize, starts_with, trim};

fn new_player(id: u8, players: u8) -> Player {
    Player {
        id: PlayerId(id),
        life: 20,
        hand: Vec::new(),
        energy: 0,
        is_eliminated: false,
        mana_pool_total: 0,
        available_mana: 0,
        opponents: (0..players).filter(|p| *p != id).map(PlayerId).collect(),
    }
}

fn new_table(players: u8) -> GameState {
    GameState {
        players: (0..players).map(|id| new_player(id, players)).collect(),
        objects: Vec::new(),
        battlefield: Vec::new(),
        stack: Vec::new(),
        revealed_cards: Vec::new(),
        turn_number: 0,
        phase: Phase::PreCombatMain,
        active_player: PlayerId(0),
        turn_decision_maker: PlayerId(0),
        in_combat: false,
        waiting_for: WaitingFor::Priority { player: PlayerId(0) },
        pending_cast_demand: None,
        pending_trigger: None,
        optional_effect: None,
        starting_life: 20,
        commander_damage_threshold: None,
        commander_headroom: Vec::new(),
        legal_blocks: Vec::new(),
    }
}

fn add_object(state: &mut GameState, owner: PlayerId, name: &str, zone: Zone) -> ObjectId {
    let n = state.objects.len() as u64 + 1;
    let id = ObjectId(n);
    state.objects.push(GameObject {
        id,
        card_id: CardId(n),
        name: name.to_string(),
        owner,
        controller: owner,
        zone,
        core_types: Vec::new(),
        subtypes: Vec::new(),
        power: None,
        toughness: None,
        loyalty: None,
        keywords: Vec::new(),
        mana_value: 0,
        tapped: false,
        summoning_sick: false,
        is_token: false,
        is_emblem: false,
        is_commander: false,
        abilities: Vec::new(),
        trigger_definitions: Vec::new(),
        replacement_definitions: Vec::new(),
        counters: Vec::new(),
        is_anthem: false,
        is_mana_dork: false,
        is_land_fetch_spell: false,
        is_ritual: false,
        has_recursion_keyword: false,
    });
    match zone {
        Zone::Battlefield => state.battlefield.push(id),
        Zone::Hand => state.players[owner.0 as usize].hand.push(id),
        _ => {}
    }
    id
}

fn object_mut(state: &mut GameState, id: ObjectId) -> &mut GameObject {
    state.objects.iter_mut().find(|o| o.id == id).unwrap()
}

fn add_creature(
    state: &mut GameState,
    owner: PlayerId,
    power: i32,
    toughness: i32,
    keywords: Vec<Keyword>,
) -> ObjectId {
    let id = add_object(state, owner, "Creature", Zone::Battlefield);
    let obj = object_mut(state, id);
    obj.core_types.push(CoreType::Creature);
    obj.power = Some(power);
    obj.toughness = Some(toughness);
    obj.keywords = keywords;
    id
}

#[test]
fn parse_action_cap_accepts_positive_integer() {
    assert_eq!(parse_action_cap_checked("50000"), Ok(50000));
    assert_eq!(parse_action_cap_checked("  7 "), Ok(7));
}

#[test]
fn parse_action_cap_rejects_zero_and_non_numeric() {
    assert!(parse_action_cap_checked("0").is_err());
    assert!(parse_action_cap_checked("-5").is_err());
    assert!(parse_action_cap_checked("abc").is_err());
    assert!(parse_action_cap_checked("").is_err());
}

#[test]
fn parse_seat_override_rejects_non_numeric_index() {
    assert!(parse_seat_override("x", Some("Hard")).is_err());
}

#[test]
fn parse_seat_override_rejects_out_of_range_index() {
    assert!(parse_seat_override("4", Some("Hard")).is_err());
    assert!(parse_seat_override("9", Some("Hard")).is_err());
}

#[test]
fn parse_seat_override_requires_a_label_value() {
    assert!(parse_seat_override("2", None).is_err());
}

#[test]
fn parse_seat_override_accepts_valid_seat_and_label() {
    assert_eq!(parse_seat_override("2", Some("Hard")), Ok((2, "Hard")));
    assert_eq!(parse_seat_override("0", Some("VeryHard")), Ok((0, "VeryHard")));
}

#[test]
fn seat_override_errors_say_what_is_wrong() {
    assert_eq!(
        parse_seat_override("x", Some("Hard")),
        Err("error: --difficulty-px: seat index must be 0..=3".to_string())
    );
    assert_eq!(
        parse_seat_override("2", None),
        Err("error: --difficulty-p2 requires a difficulty label".to_string())
    );
}

#[test]
fn classify_run_outcome_completed_only_on_clean_gameover() {
    let over = WaitingFor::GameOver { winner: Some(PlayerId(0)) };
    assert_eq!(classify_run_outcome(false, &over), RunOutcome::Completed);
}

#[test]
fn classify_run_outcome_aborted_when_cap_hit() {
    let parked = WaitingFor::Priority { player: PlayerId(0) };
    assert_eq!(classify_run_outcome(true, &parked), RunOutcome::Aborted);
    let over = WaitingFor::GameOver { winner: Some(PlayerId(0)) };
    assert_eq!(classify_run_outcome(true, &over), RunOutcome::Aborted);
}

#[test]
fn classify_run_outcome_stalled_when_parked_off_gameover() {
    let parked = WaitingFor::Priority { player: PlayerId(0) };
    assert_eq!(classify_run_outcome(false, &parked), RunOutcome::Stalled);
}

#[test]
fn exit_codes_tell_outcomes_apart() {
    assert_eq!(exit_code(RunOutcome::Completed), 0);
    assert_eq!(exit_code(RunOutcome::Aborted), 2);
    assert_eq!(exit_code(RunOutcome::Stalled), 3);
}

#[test]
fn games_file_line_parses_seed_and_difficulty() {
    assert_eq!(parse_games_file_line("1009,Easy"), Ok((1009, AiDifficulty::Easy)));
    assert_eq!(parse_games_file_line(" 42 , VeryHard "), Ok((42, AiDifficulty::VeryHard)));
}

#[test]
fn games_file_line_rejects_missing_comma() {
    assert!(parse_games_file_line("1009 Easy").is_err());
}

#[test]
fn games_file_line_rejects_non_numeric_seed() {
    assert!(parse_games_file_line("abc,Easy").is_err());
}

#[test]
fn games_file_line_rejects_unrecognized_difficulty() {
    assert!(parse_games_file_line("1009,Impossible").is_err());
}

#[test]
fn games_file_errors_name_the_part_at_fault() {
    assert_eq!(
        parse_games_file_line("1009 Easy"),
        Err("malformed games-file line (expected `seed,difficulty`): \"1009 Easy\"".to_string())
    );
    assert_eq!(
        parse_games_file_line("abc,Easy"),
        Err(
            "games-file line \"abc,Easy\": seed \"abc\" is not a valid non-negative integer"
                .to_string()
        )
    );
    assert_eq!(
        parse_games_file_line("1009, Impossible"),
        Err(
            "games-file line \"1009, Impossible\": unrecognized difficulty \"Impossible\"; \
             accepted values: VeryEasy, Easy, Medium, Hard, VeryHard, CEDH"
                .to_string()
        )
    );
    // The first bad line is the one that is reported.
    assert_eq!(
        parse_games("1009,Easy\nnotaseed,Easy\n7\n"),
        Err(
            "games-file line \"notaseed,Easy\": seed \"notaseed\" is not a valid \
             non-negative integer"
                .to_string()
        )
    );
}

#[test]
fn messages_quote_what_was_given() {
    assert_eq!(
        parse_action_cap_checked("0\t"),
        Err("error: --action-cap \"0\\t\" must be a positive integer".to_string())
    );
    assert_eq!(bad_cap_message("Q"), "error: --action-cap Q must be a positive integer");
    assert_eq!(
        unknown_difficulty_message("Q"),
        "error: unrecognized --difficulty Q; accepted values: \
         VeryEasy, Easy, Medium, Hard, VeryHard, CEDH"
    );
    assert_eq!(
        missing_comma_message("L"),
        "malformed games-file line (expected `seed,difficulty`): L"
    );
    assert_eq!(
        bad_seed_message("L", "S"),
        "games-file line L: seed S is not a valid non-negative integer"
    );
    assert_eq!(
        unknown_label_message("L", "D"),
        "games-file line L: unrecognized difficulty D; accepted values: \
         VeryEasy, Easy, Medium, Hard, VeryHard, CEDH"
    );
}

#[test]
fn parse_games_file_reads_multiple_lines_and_skips_blanks() {
    let games = parse_games("1009,Easy\n\n1010,VeryHard\n  \n1011,Medium\n").unwrap();
    assert_eq!(
        games,
        vec![
            (1009, AiDifficulty::Easy),
            (1010, AiDifficulty::VeryHard),
            (1011, AiDifficulty::Medium),
        ]
    );
}

#[test]
fn parse_games_file_rejects_a_batch_with_any_malformed_line() {
    let result = parse_games("1009,Easy\nnotaseed,Easy\n");
    assert!(result.is_err());
}

#[test]
fn an_empty_games_file_holds_no_games() {
    assert_eq!(parse_games(""), Ok(vec![]));
    assert_eq!(parse_games("\n \n"), Ok(vec![]));
    assert_eq!(parse_games("7,cEDH"), Ok(vec![(7, AiDifficulty::CEDH)]));
}

#[test]
fn difficulty_labels_are_read_back() {
    for d in [
        AiDifficulty::VeryEasy,
        AiDifficulty::Easy,
        AiDifficulty::Medium,
        AiDifficulty::Hard,
        AiDifficulty::VeryHard,
        AiDifficulty::CEDH,
    ] {
        assert_eq!(AiDifficulty::accepted(d.label()), Some(d));
        assert_eq!(parse_difficulty(d.label()), Ok(d));
    }
    assert_eq!(AiDifficulty::from_label(" hArD "), AiDifficulty::Hard);
    assert_eq!(AiDifficulty::from_label("nonsense"), AiDifficulty::Medium);
    assert_eq!(
        parse_difficulty("nonsense"),
        Err(unknown_difficulty_message("\"nonsense\""))
    );
    assert_eq!(seat_difficulty(None, AiDifficulty::Easy), AiDifficulty::Easy);
    assert_eq!(seat_difficulty(Some(AiDifficulty::Hard), AiDifficulty::Easy), AiDifficulty::Hard);
}

#[test]
fn a_watch_reports_turns_and_eliminations_once() {
    let mut state = new_table(4);
    let mut watch = GameWatch::new(4);
    state.turn_number = 1;
    let news = watch.look(&state);
    assert!(news.new_turn);
    assert!(news.eliminated.is_empty());
    state.players[2].is_eliminated = true;
    state.players[0].is_eliminated = true;
    let news = watch.look(&state);
    assert!(!news.new_turn);
    assert_eq!(news.eliminated, vec![0, 2]);
    state.turn_number = 2;
    let news = watch.look(&state);
    assert!(news.new_turn);
    assert!(news.eliminated.is_empty());
}

#[test]
fn winners_and_permanents_are_read_off() {
    let mut state = new_table(2);
    add_creature(&mut state, PlayerId(0), 1, 1, vec![]);
    let stolen = add_creature(&mut state, PlayerId(0), 1, 1, vec![]);
    object_mut(&mut state, stolen).controller = PlayerId(1);
    assert_eq!(count_owned_permanents(&state, PlayerId(0)), 2);
    assert_eq!(count_owned_permanents(&state, PlayerId(1)), 0);
    assert_eq!(winner_of(&state.waiting_for), None);
    assert_eq!(winner_of(&WaitingFor::GameOver { winner: Some(PlayerId(1)) }), Some(PlayerId(1)));
}

fn entry(name: &str, count: u64) -> FeedEntry {
    FeedEntry { name: Some(name.to_string()), count: Some(count) }
}

fn deck(name: &str, commander: Option<Vec<Option<String>>>, main: Vec<FeedEntry>) -> FeedDeck {
    FeedDeck { name: Some(name.to_string()), commander, main: Some(main) }
}

#[test]
fn a_deck_without_listed_commanders_is_led_by_its_namesake() {
    let known = vec!["Krenko".to_string()];
    let d = deck("Krenko", None, vec![entry("Krenko", 1), entry("Mountain", 3)]);
    assert_eq!(commander_names(&d), vec!["Krenko".to_string()]);
    let list = deck_list(&d, &known).unwrap();
    assert_eq!(list.commander, vec!["Krenko".to_string()]);
    assert_eq!(list.main_deck, vec!["Mountain".to_string(); 3]);
}

#[test]
fn listed_commanders_are_taken_and_left_out_of_the_deck() {
    let known = vec!["Kraum".to_string()];
    let listed = Some(vec![Some("Kraum".to_string()), None, Some("Tymna".to_string())]);
    let mut main = vec![entry("Tymna", 1), entry("Island", 2), entry("Kraum", 1)];
    main.push(FeedEntry { name: None, count: Some(4) });
    main.push(FeedEntry { name: Some("Swamp".to_string()), count: None });
    let list = deck_list(&deck("Blue Farm", listed, main), &known).unwrap();
    assert_eq!(list.commander, vec!["Kraum".to_string(), "Tymna".to_string()]);
    assert_eq!(list.main_deck, vec!["Island".to_string(); 2]);
}

#[test]
fn unplayable_decks_are_skipped() {
    let known = vec!["Known".to_string()];
    assert!(deck_list(&deck("Unknown", None, vec![]), &known).is_none());
    assert!(deck_list(&deck("Known", Some(vec![None]), vec![]), &known).is_none());
    let no_main = FeedDeck { name: Some("Known".to_string()), commander: None, main: None };
    assert!(deck_list(&no_main, &known).is_none());
    let unnamed = FeedDeck { name: None, commander: None, main: Some(vec![]) };
    assert_eq!(commander_names(&unnamed), vec!["<unnamed>".to_string()]);
}

#[test]
fn the_first_four_playable_decks_are_loaded() {
    let known: Vec<String> = (0..6).map(|i| format!("C{i}")).collect();
    let mut feed: Vec<FeedDeck> = Vec::new();
    feed.push(deck("Nobody", None, vec![]));
    for i in 0..6 {
        feed.push(deck(&format!("C{i}"), Some(vec![]), vec![entry("Plains", 1)]));
    }
    let lists = select_commander_decks(&feed, &known);
    let leaders: Vec<&str> = lists.iter().map(|l| l.commander[0].as_str()).collect();
    assert_eq!(leaders, vec!["C0", "C1", "C2", "C3"]);
}

#[test]
fn a_feed_is_read_by_its_text() {
    let decks = read_feed(
        r#"{
            "decks": [
                {
                    "name": "Blue Farm",
                    "commander": ["Kraum", 7, "Tymna"],
                    "main": [
                        {"name": "Island", "count": 2},
                        {"name": "Kraum", "count": 1},
                        {"name": 3, "count": 1},
                        {"name": "Swamp", "count": -1},
                        {"name": "Plains", "count": 1.5}
                    ]
                },
                {"commander": null, "main": {}},
                "not a deck"
            ]
        }"#,
    )
    .unwrap();
    assert_eq!(decks.len(), 3);
    assert_eq!(decks[0].name, Some("Blue Farm".to_string()));
    assert_eq!(
        decks[0].commander,
        Some(vec![Some("Kraum".to_string()), None, Some("Tymna".to_string())])
    );
    let main = decks[0].main.as_ref().unwrap();
    let lines: Vec<(Option<&str>, Option<u64>)> =
        main.iter().map(|e| (e.name.as_deref(), e.count)).collect();
    assert_eq!(
        lines,
        vec![
            (Some("Island"), Some(2)),
            (Some("Kraum"), Some(1)),
            (None, Some(1)),
            (Some("Swamp"), None),
            (Some("Plains"), None),
        ]
    );
    for deck in &decks[1..] {
        assert!(deck.name.is_none() && deck.commander.is_none() && deck.main.is_none());
    }
}

#[test]
fn a_text_that_is_no_feed_is_an_error() {
    assert_eq!(read_feed("{}").unwrap_err(), FeedError::MissingDecks);
    assert_eq!(read_feed(r#"{"decks": 4}"#).unwrap_err(), FeedError::MissingDecks);
    assert_eq!(read_feed("[]").unwrap_err(), FeedError::MissingDecks);
    match read_feed("{") {
        Err(FeedError::NotJson { message }) => assert!(message.contains("line 1 column 1")),
        _ => panic!("an open brace is no document"),
    }
}

#[test]
fn decks_are_loaded_from_the_text_of_a_feed() {
    let text = r#"{"decks": [
        {"name": "Nobody", "main": []},
        {"name": "C0", "main": [{"name": "Plains", "count": 3}, {"name": "C0", "count": 1}]},
        {"name": "C1", "commander": [], "main": []}
    ]}"#;
    let known = vec!["C0".to_string(), "C1".to_string()];
    let lists = load_commander_decks(text, &known).unwrap();
    assert_eq!(lists.len(), 2);
    assert_eq!(lists[0].main_deck, vec!["Plains".to_string(); 3]);
    assert_eq!(lists[1].commander, vec!["C1".to_string()]);
    assert_eq!(load_commander_decks("{}", &known).unwrap_err(), FeedError::MissingDecks);
}

#[test]
fn a_sound_feed_is_looked_at_until_four_decks_are_found() {
    let known: Vec<String> = (0..6).map(|i| format!("C{i}")).collect();
    let mut feed: Vec<FeedDeck> = vec![deck("Nobody", None, vec![])];
    for i in 0..6 {
        feed.push(deck(&format!("C{i}"), Some(vec![]), vec![entry("Plains", 1)]));
    }
    let visits = visit_decks(&feed, &known).unwrap();
    assert_eq!(visits.len(), 5);
    assert!(visits[0].list.is_none());
    assert_eq!(visits[0].primary, "Nobody");
    let taken: Vec<&str> = visits[1..].iter().map(|v| v.primary.as_str()).collect();
    assert_eq!(taken, vec!["C0", "C1", "C2", "C3"]);
    let lists = select_commander_decks(&feed, &known);
    for (visit, list) in visits[1..].iter().zip(&lists) {
        assert_eq!(visit.list.as_ref().unwrap().main_deck, list.main_deck);
    }
}

#[test]
fn an_unsound_feed_is_refused_where_it_matters() {
    let known = vec!["Known".to_string()];
    let visit = |feed: Vec<FeedDeck>| visit_decks(&feed, &known).err();
    assert_eq!(
        visit(vec![deck("Known", Some(vec![None]), vec![])]),
        Some(DeckFault::Commander { deck: 0 })
    );
    let no_count = FeedEntry { name: Some("Swamp".to_string()), count: None };
    assert_eq!(
        visit(vec![deck("Known", None, vec![]), deck("Known", None, vec![no_count])]),
        Some(DeckFault::Main { deck: 1 })
    );
    let no_main = FeedDeck { name: Some("Known".to_string()), commander: None, main: None };
    assert_eq!(visit(vec![no_main]), Some(DeckFault::Main { deck: 0 }));
    let unknown = FeedDeck { name: None, commander: None, main: None };
    assert_eq!(visit(vec![unknown]), None);
}

#[test]
fn life_totals_are_written_by_seat() {
    let mut state = new_table(3);
    state.players[1].life = -3;
    state.players[2].life = 40;
    assert_eq!(life_snapshot(&state.players), "P0:20 P1:-3 P2:40");
    assert_eq!(life_snapshot(&Vec::new()), "");
}

#[test]
fn benchmarks_know_their_difficulties() {
    assert_eq!(bench_difficulty("veryhard"), AiDifficulty::VeryHard);
    assert_eq!(bench_difficulty("EASY"), AiDifficulty::Easy);
    assert_eq!(bench_difficulty(" easy"), AiDifficulty::Medium);
    assert_eq!(bench_difficulty("cedh"), AiDifficulty::Medium);
}

#[test]
fn a_runner_goes_on_until_it_has_a_reason_to_stop() {
    assert_eq!(after_batch(10, 5, false, 100), RunnerStep::Continue { total_actions: 15 });
    assert_eq!(after_batch(95, 5, false, 100), RunnerStep::LimitReached { total_actions: 100 });
    assert_eq!(after_batch(95, 0, false, 100), RunnerStep::NoActions);
    assert_eq!(after_batch(95, 0, true, 100), RunnerStep::GameOver);
}

#[test]
fn duels_are_tallied() {
    let mut tally = DuelTally::new();
    tally.record(Some(PlayerId(0)), 7);
    tally.record(Some(PlayerId(1)), 9);
    tally.record(None, 4);
    tally.record(Some(PlayerId(1)), 10);
    assert_eq!(tally, DuelTally { p0_wins: 1, p1_wins: 2, draws: 1, total_turns: 30 });
}

#[test]
fn short_decks_are_noticed() {
    assert_eq!(validate_deck(&vec![20, 40], 60), None);
    assert_eq!(validate_deck(&vec![20, 39], 60), Some(59));
    assert_eq!(validate_deck(&vec![], 0), None);
}

#[test]
fn suite_seeds_step_by_seat_and_game() {
    assert_eq!(suite_seed(7, 0, 0), 7);
    assert_eq!(suite_seed(7, 2, 5), 20_012);
    assert_eq!(suite_seed(u64::MAX, 0, 1), 0);
    assert_ne!(suite_seed(7, 1, 9_999), suite_seed(7, 2, 0));
}

#[test]
fn eliminations_are_dated_and_ordered() {
    let mut log = EliminationLog::new(4);
    log.observe(&vec![PlayerId(2)], 5);
    log.observe(&vec![PlayerId(2), PlayerId(0)], 8);
    assert_eq!(log.survival_turn(PlayerId(2), 20), 5);
    assert_eq!(log.survival_turn(PlayerId(0), 20), 8);
    assert_eq!(log.survival_turn(PlayerId(1), 20), 20);
    let order = vec![PlayerId(2), PlayerId(0)];
    assert_eq!(elimination_order(&order, PlayerId(2)), 1);
    assert_eq!(elimination_order(&order, PlayerId(0)), 2);
    assert_eq!(elimination_order(&order, PlayerId(3)), 4);
}

#[test]
fn seats_are_tallied() {
    let mut tally = SeatTally::new();
    let won = CommanderGameResult {
        winner: Some(PlayerId(1)),
        turns: 12,
        candidate_survival_turn: 12,
        candidate_elimination_order: 4,
    };
    let lost = CommanderGameResult {
        winner: Some(PlayerId(3)),
        turns: 15,
        candidate_survival_turn: 6,
        candidate_elimination_order: 2,
    };
    tally.record(PlayerId(1), &won);
    tally.record(PlayerId(1), &lost);
    assert_eq!(
        tally,
        SeatTally { wins: 1, total_survival_turns: 18, total_elimination_order: 6 }
    );
}

#[test]
fn averages_are_rounded_to_thousandths() {
    assert_eq!(rounded(1, 3), 333);
    assert_eq!(rounded(2, 3), 667);
    assert_eq!(rounded(1, 2000), 1);
    assert_eq!(rounded(5, 0), 5_000);
}

#[test]
fn log_lines_are_joined_from_their_pieces() {
    let line = GameLogEntry {
        turn: 3,
        category: LogCategory::Life,
        segments: vec![
            LogSegment::PlayerName { name: "P1".to_string() },
            LogSegment::Text(" loses ".to_string()),
            LogSegment::Number(-12),
            LogSegment::Text(" as ".to_string()),
            LogSegment::CardName { name: "Shock".to_string() },
            LogSegment::Text(" goes to ".to_string()),
            LogSegment::Zone(Zone::Graveyard),
        ],
    };
    assert_eq!(render_log_entry(&line), "P1 loses -12 as Shock goes to Graveyard");
    assert!(should_show(&line, false));
    let quiet = GameLogEntry { turn: 3, category: LogCategory::Other, segments: vec![] };
    assert!(!should_show(&quiet, false));
    assert!(should_show(&quiet, true));
    assert_eq!(render_log_entry(&quiet), "");
}

#[test]
fn numbers_are_written_in_decimal() {
    assert_eq!(render_number(0), "0");
    assert_eq!(render_number(u64::MAX), "18446744073709551615");
    assert_eq!(render_signed(i64::MIN), "-9223372036854775808");
    assert_eq!(render_signed(1_050), "1050");
}

#[test]
fn comparisons_take_two_reports_and_no_options() {
    let args = |list: &[&str]| -> Vec<String> { list.iter().map(|s| s.to_string()).collect() };
    assert_eq!(check_compare_args(&args(&["compare", "a", "b"])), Ok(()));
    assert_eq!(check_compare_args(&args(&["compare", "a"])), Err(CompareArgsError::Usage));
    assert_eq!(
        check_compare_args(&args(&["compare", "a", "b", "c", "--x", "--y"])),
        Err(CompareArgsError::UnknownOption { option: "--x".to_string() })
    );
    assert_eq!(compare_exit_code(CompareOutcome::LoadFailed), 2);
    assert_eq!(compare_exit_code(CompareOutcome::CompareFailed), 2);
    assert_eq!(compare_exit_code(CompareOutcome::Compared { any_fail: true }), 1);
    assert_eq!(compare_exit_code(CompareOutcome::Compared { any_fail: false }), 0);
}

#[test]
fn benchmarks_are_averaged_and_held_to_a_ceiling() {
    assert_eq!(per_item(1_000, 3), 333);
    assert_eq!(per_item(1_000, 0), 0);
    assert!(within_ceiling(50, None));
    assert!(within_ceiling(50, Some(50)));
    assert!(!within_ceiling(51, Some(50)));
}

#[test]
fn texts_are_trimmed_and_numbers_read() {
    assert_eq!(trim(" \t a b\n"), "a b");
    assert_eq!(trim("   "), "");
    assert_eq!(trim(trim("  x ")), "x");
    assert_eq!(parse_u64("18446744073709551615"), Some(u64::MAX));
    assert_eq!(parse_u64("18446744073709551616"), None);
    assert_eq!(parse_u64("+7"), Some(7));
    assert_eq!(parse_u64("+"), None);
    assert_eq!(parse_u64("-7"), None);
    assert_eq!(parse_usize("007"), Some(7));
    assert!(eq_ignore_case("CeDh", "cEdH"));
    assert!(!eq_ignore_case("Easy", "Eas"));
    assert_eq!(find_char("a,b,c", ','), Some(1));
    assert_eq!(find_char("abc", ','), None);
    assert!(starts_with("--x", "--"));
    assert!(!starts_with("-", "--"));
}
