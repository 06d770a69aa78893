//! Batches of AI actions and the driver above them.

use phase_ai::auto_play::{
    driver_step, first_ai_submitter, AiActionResult, AiActionsBreakReason, AiActionsRun,
    BatchRequest, BatchStage, DriverExit, DriverLoop, DriverStep, DriverTurn,
    MAX_AI_ACTIONS_PER_SEQUENCE,
};
use phase_ai::model::{GameAction, PlayerId};

type Played = AiActionResult<GameAction, u32, u8, u8>;
type Run = AiActionsRun<Played, GameAction, String>;

fn dummy_result(state: u32) -> Played {
    AiActionResult {
        action: GameAction::PassPriority,
        state,
        events: Vec::new(),
        log_entries: Vec::new(),
    }
}

#[test]
fn driver_step_preserves_break_reason_from_non_empty_batch() {
    let run: Run = AiActionsRun {
        results: vec![dummy_result(1)],
        break_reason: Some(AiActionsBreakReason::ChooseActionNone { player: PlayerId(1) }),
        limit: 200,
        stage: BatchStage::Done,
    };
    let step = driver_step(run);
    assert_eq!(step.actions_taken, 1);
    assert!(
        matches!(step.break_reason, Some(AiActionsBreakReason::ChooseActionNone { .. })),
        "break_reason from a non-empty batch must survive driver_step"
    );
}

#[test]
fn driver_step_empty_batch_behavior_is_unchanged() {
    let run: Run = AiActionsRun {
        results: Vec::new(),
        break_reason: Some(AiActionsBreakReason::NoActor),
        limit: 200,
        stage: BatchStage::Done,
    };
    let step = driver_step(run);
    assert_eq!(step.actions_taken, 0);
    assert!(matches!(step.break_reason, Some(AiActionsBreakReason::NoActor)));
}

#[test]
fn driver_step_ordinary_batch_is_unaffected() {
    let run: Run = AiActionsRun {
        results: vec![dummy_result(1), dummy_result(1)],
        break_reason: None,
        limit: 2,
        stage: BatchStage::Done,
    };
    let step = driver_step(run);
    assert_eq!(step.actions_taken, 2);
    assert!(step.break_reason.is_none());
}

#[test]
fn a_batch_asks_chooses_and_applies_up_to_its_limit() {
    let ai = vec![PlayerId(1), PlayerId(2)];
    let mut run: Run = AiActionsRun::bounded(2);
    for _ in 0..2 {
        assert_eq!(run.request(), BatchRequest::Submitters);
        run.on_submitters(&vec![PlayerId(0), PlayerId(2)], &ai, &ai);
        assert_eq!(run.request(), BatchRequest::Choose { player: PlayerId(2) });
        run.on_choice(true);
        assert_eq!(run.request(), BatchRequest::Apply { player: PlayerId(2) });
        run.on_applied(Ok(dummy_result(1)));
    }
    assert_eq!(run.request(), BatchRequest::Finished);
    assert_eq!(run.results.len(), 2);
    assert!(run.break_reason.is_none());
    assert!(!run.hit_safety_cap());
}

#[test]
fn a_batch_stops_for_each_reason() {
    let ai = vec![PlayerId(1)];
    let mut nobody: Run = AiActionsRun::bounded(5);
    nobody.on_submitters(&vec![PlayerId(0)], &ai, &ai);
    assert!(matches!(nobody.break_reason, Some(AiActionsBreakReason::NoActor)));
    assert_eq!(nobody.request(), BatchRequest::Finished);

    let mut unconfigured: Run = AiActionsRun::bounded(5);
    unconfigured.on_submitters(&vec![PlayerId(1)], &ai, &vec![]);
    assert!(matches!(
        unconfigured.break_reason,
        Some(AiActionsBreakReason::MissingAiConfig { player: PlayerId(1) })
    ));

    let mut clueless: Run = AiActionsRun::bounded(5);
    clueless.on_submitters(&vec![PlayerId(1)], &ai, &ai);
    clueless.on_choice(false);
    assert!(matches!(
        clueless.break_reason,
        Some(AiActionsBreakReason::ChooseActionNone { player: PlayerId(1) })
    ));

    let mut refused: Run = AiActionsRun::bounded(5);
    refused.on_submitters(&vec![PlayerId(1)], &ai, &ai);
    refused.on_choice(true);
    refused.on_applied(Err((GameAction::PassPriority, "illegal".to_string())));
    match refused.break_reason {
        Some(AiActionsBreakReason::ApplyFailed { player, action, error }) => {
            assert_eq!(player, PlayerId(1));
            assert!(matches!(*action, GameAction::PassPriority));
            assert_eq!(error, "illegal");
        }
        _ => panic!("the refusal must be reported"),
    }
    assert!(refused.results.is_empty());
}

#[test]
fn a_batch_keeps_to_the_safety_cap() {
    let run: Run = AiActionsRun::bounded(usize::MAX);
    assert_eq!(run.limit, MAX_AI_ACTIONS_PER_SEQUENCE);
    let over: Run = AiActionsRun::bounded(0);
    assert_eq!(over.request(), BatchRequest::Finished);
    let full: AiActionsRun<u8, u8, u8> = AiActionsRun {
        results: vec![0; MAX_AI_ACTIONS_PER_SEQUENCE],
        break_reason: None,
        limit: MAX_AI_ACTIONS_PER_SEQUENCE,
        stage: BatchStage::Done,
    };
    assert!(full.hit_safety_cap());
}

#[test]
fn the_first_ai_submitter_acts() {
    let ai = vec![PlayerId(3), PlayerId(1)];
    assert_eq!(first_ai_submitter(&vec![PlayerId(0), PlayerId(1), PlayerId(3)], &ai), Some(PlayerId(1)));
    assert_eq!(first_ai_submitter(&vec![PlayerId(0)], &ai), None);
    assert_eq!(first_ai_submitter(&vec![], &ai), None);
}

fn step(taken: usize, reason: Option<AiActionsBreakReason<u8, u8>>) -> DriverStep<u8, u8> {
    DriverStep { actions_taken: taken, break_reason: reason }
}

#[test]
fn a_driver_stops_exactly_at_its_cap() {
    let driver = DriverLoop::start(250);
    assert_eq!(driver.remaining(), 250);
    let driver = match driver.after_batch(step(200, None)) {
        DriverTurn::Continue(next) => next,
        DriverTurn::Stop(_) => panic!("there is budget left"),
    };
    assert_eq!(driver.remaining(), 50);
    match driver.after_batch(step(50, None)) {
        DriverTurn::Stop(outcome) => {
            assert_eq!(outcome.total_actions, 250);
            assert!(matches!(outcome.exit, DriverExit::CapReached));
        }
        DriverTurn::Continue(_) => panic!("the cap is reached"),
    }
}

#[test]
fn a_break_reason_wins_over_the_cap() {
    let driver = DriverLoop { total: 200, action_cap: 250 };
    match driver.after_batch(step(50, Some(AiActionsBreakReason::NoActor))) {
        DriverTurn::Stop(outcome) => {
            assert_eq!(outcome.total_actions, 250);
            assert!(matches!(outcome.exit, DriverExit::BatchBreak(AiActionsBreakReason::NoActor)));
        }
        DriverTurn::Continue(_) => panic!("the batch stopped early"),
    }
}

/// Drives whole batches; the search finds `actions` actions in all.
fn drive(action_cap: usize, mut actions: usize) -> (usize, bool) {
    let ai = vec![PlayerId(0)];
    let mut driver = DriverLoop::start(action_cap);
    loop {
        let mut run: Run = AiActionsRun::bounded(driver.remaining());
        while run.request() != BatchRequest::Finished {
            run.on_submitters(&ai, &ai, &ai);
            run.on_choice(actions > 0);
            if actions > 0 {
                actions -= 1;
                run.on_applied(Ok(dummy_result(1)));
            }
        }
        match driver.after_batch(driver_step(run)) {
            DriverTurn::Continue(next) => driver = next,
            DriverTurn::Stop(outcome) => {
                let capped = matches!(outcome.exit, DriverExit::CapReached);
                return (outcome.total_actions, capped);
            }
        }
    }
}

#[test]
fn a_run_stops_for_the_cap_exactly_where_it_stands_at_it() {
    assert_eq!(drive(450, 1_000), (450, true));
    assert_eq!(drive(450, 450), (450, true));
    assert_eq!(drive(450, 449), (449, false));
    assert_eq!(drive(450, 0), (0, false));
    assert_eq!(drive(1, 5), (1, true));
}
