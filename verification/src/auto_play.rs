//! Driving AI seats: one batch of actions, and batches under an action cap.
//!
//! The rules engine and the search are asked for what they know; everything
//! that decides how the loop goes on stands here. An [`AiActionsRun`] says what
//! it wants next ([`AiActionsRun::request`]) and is told the answer; a
//! [`DriverLoop`] hands out budgets and is told what each batch did.

use vstd::prelude::*;

use crate::model::{contains_player, PlayerId};

verus! {

/// The most actions a batch takes, whatever its caller allows.
pub const MAX_AI_ACTIONS_PER_SEQUENCE: usize = 200;

/// One action that was taken, with what came of it.
#[derive(Debug)]
pub struct AiActionResult<A, S, V, L> {
    pub action: A,
    pub state: S,
    pub events: Vec<V>,
    pub log_entries: Vec<L>,
}

/// Why a batch ended before its limit.
#[derive(Debug)]
pub enum AiActionsBreakReason<A, E> {
    /// No AI seat can act: nobody is asked, or only others are.
    NoActor,
    /// An AI seat is asked that has no configuration.
    MissingAiConfig { player: PlayerId },
    /// The search found nothing for `player` to do.
    ChooseActionNone { player: PlayerId },
    /// The rules engine refused the action that `player` chose.
    ApplyFailed { player: PlayerId, action: Box<A>, error: E },
}

/// Where a batch stands.
#[derive(Debug, Clone, Copy, PartialEq, Eq, Structural)]
pub enum BatchStage {
    Actor,
    Choice { player: PlayerId },
    Outcome { player: PlayerId },
    Done,
}

/// What a batch wants to know next.
#[derive(Debug, Clone, Copy, PartialEq, Eq, Structural)]
pub enum BatchRequest {
    /// Who may submit an action now.
    Submitters,
    /// What `player` does.
    Choose { player: PlayerId },
    /// What came of the chosen action.
    Apply { player: PlayerId },
    /// Nothing: the batch is over.
    Finished,
}

/// A batch of AI actions: the results so far, and why it stopped. A batch that
/// ended without a reason reached its limit.
#[derive(Debug)]
pub struct AiActionsRun<R, A, E> {
    pub results: Vec<R>,
    pub break_reason: Option<AiActionsBreakReason<A, E>>,
    pub limit: usize,
    pub stage: BatchStage,
}

/// The first of `submitters` that is an AI seat.
pub open spec fn first_ai(submitters: Seq<PlayerId>, ai: Seq<PlayerId>) -> Option<PlayerId>
    decreases submitters.len(),
{
    if submitters.len() == 0 {
        None
    } else if ai.contains(submitters[0]) {
        Some(submitters[0])
    } else {
        first_ai(submitters.drop_first(), ai)
    }
}

/// The first of `submitters` that is an AI seat.
pub fn first_ai_submitter(submitters: &Vec<PlayerId>, ai_players: &Vec<PlayerId>) -> (r: Option<
    PlayerId,
>)
    ensures
        r == first_ai(submitters@, ai_players@),
{
    let mut i: usize = 0;
    assert(submitters@.skip(0) =~= submitters@);
    while i < submitters.len()
        invariant
            i <= submitters.len(),
            first_ai(submitters@.skip(i as int), ai_players@) == first_ai(
                submitters@,
                ai_players@,
            ),
        decreases submitters.len() - i,
    {
        assert(submitters@.skip(i as int).drop_first() =~= submitters@.skip(i + 1));
        if contains_player(ai_players, submitters[i]) {
            return Some(submitters[i]);
        }
        i += 1;
    }
    None
}

/// Where a batch stands that is allowed to begin another action.
pub open spec fn stage_after(taken: nat, limit: int) -> BatchStage {
    if taken < limit {
        BatchStage::Actor
    } else {
        BatchStage::Done
    }
}

impl<R, A, E> AiActionsRun<R, A, E> {
    /// What every batch satisfies: it stays within its limit and the limit
    /// within the safety cap, it asks for more only below its limit, and it
    /// ends either with a reason or at its limit, never both.
    pub open spec fn wf(self) -> bool {
        &&& self.limit <= MAX_AI_ACTIONS_PER_SEQUENCE
        &&& self.results.len() <= self.limit
        &&& self.stage != BatchStage::Done ==> self.results.len() < self.limit
            && self.break_reason is None
        &&& self.stage == BatchStage::Done ==> (self.break_reason is None) == (self.results.len()
            == self.limit)
    }

    /// A batch of at most `max_actions` actions, and never more than the
    /// safety cap. A budget of nothing is over at once.
    pub fn bounded(max_actions: usize) -> (r: Self)
        ensures
            r.wf(),
            r.results@.len() == 0,
            r.break_reason is None,
            r.limit == if max_actions < MAX_AI_ACTIONS_PER_SEQUENCE {
                max_actions
            } else {
                MAX_AI_ACTIONS_PER_SEQUENCE
            },
            r.stage == stage_after(0, r.limit as int),
    {
        let limit: usize = if max_actions < MAX_AI_ACTIONS_PER_SEQUENCE {
            max_actions
        } else {
            MAX_AI_ACTIONS_PER_SEQUENCE
        };
        AiActionsRun {
            results: Vec::new(),
            break_reason: None,
            limit,
            stage: if limit > 0 {
                BatchStage::Actor
            } else {
                BatchStage::Done
            },
        }
    }

    /// What the batch wants to know next.
    pub fn request(&self) -> (r: BatchRequest)
        ensures
            r == match self.stage {
                BatchStage::Actor => BatchRequest::Submitters,
                BatchStage::Choice { player } => BatchRequest::Choose { player },
                BatchStage::Outcome { player } => BatchRequest::Apply { player },
                BatchStage::Done => BatchRequest::Finished,
            },
    {
        match self.stage {
            BatchStage::Actor => BatchRequest::Submitters,
            BatchStage::Choice { player } => BatchRequest::Choose { player },
            BatchStage::Outcome { player } => BatchRequest::Apply { player },
            BatchStage::Done => BatchRequest::Finished,
        }
    }

    /// The players whose submission the game waits for, in order. The batch
    /// goes on with the first AI seat among them, provided that seat is
    /// configured.
    pub fn on_submitters(
        &mut self,
        submitters: &Vec<PlayerId>,
        ai_players: &Vec<PlayerId>,
        ai_configs: &Vec<PlayerId>,
    )
        requires
            old(self).wf(),
            old(self).stage == BatchStage::Actor,
        ensures
            final(self).wf(),
            final(self).results == old(self).results,
            final(self).limit == old(self).limit,
            match first_ai(submitters@, ai_players@) {
                None => final(self).stage == BatchStage::Done && final(self).break_reason == Some(
                    AiActionsBreakReason::<A, E>::NoActor,
                ),
                Some(player) => if ai_configs@.contains(player) {
                    final(self).stage == (BatchStage::Choice { player })
                        && final(self).break_reason is None
                } else {
                    final(self).stage == BatchStage::Done && final(self).break_reason == Some(
                        AiActionsBreakReason::<A, E>::MissingAiConfig { player },
                    )
                },
            },
    {
        match first_ai_submitter(submitters, ai_players) {
            None => {
                self.break_reason = Some(AiActionsBreakReason::NoActor);
                self.stage = BatchStage::Done;
            },
            Some(player) => {
                if contains_player(ai_configs, player) {
                    self.stage = BatchStage::Choice { player };
                } else {
                    self.break_reason = Some(AiActionsBreakReason::MissingAiConfig { player });
                    self.stage = BatchStage::Done;
                }
            },
        }
    }

    /// Whether the search found an action for the seat that was asked.
    pub fn on_choice(&mut self, found: bool)
        requires
            old(self).wf(),
            old(self).stage is Choice,
        ensures
            final(self).wf(),
            final(self).results == old(self).results,
            final(self).limit == old(self).limit,
            ({
                let player = old(self).stage->Choice_player;
                if found {
                    final(self).stage == (BatchStage::Outcome { player })
                        && final(self).break_reason is None
                } else {
                    final(self).stage == BatchStage::Done && final(self).break_reason == Some(
                        AiActionsBreakReason::<A, E>::ChooseActionNone { player },
                    )
                }
            }),
    {
        if let BatchStage::Choice { player } = self.stage {
            if found {
                self.stage = BatchStage::Outcome { player };
            } else {
                self.break_reason = Some(AiActionsBreakReason::ChooseActionNone { player });
                self.stage = BatchStage::Done;
            }
        }
    }

    /// What came of the chosen action: its result, or the action and the error
    /// that the rules engine refused it with.
    pub fn on_applied(&mut self, outcome: Result<R, (A, E)>)
        requires
            old(self).wf(),
            old(self).stage is Outcome,
        ensures
            final(self).wf(),
            final(self).limit == old(self).limit,
            ({
                let player = old(self).stage->Outcome_player;
                match outcome {
                    Ok(result) => {
                        &&& final(self).results@ == old(self).results@.push(result)
                        &&& final(self).break_reason is None
                        &&& final(self).stage == stage_after(
                            final(self).results@.len(),
                            final(self).limit as int,
                        )
                    },
                    Err((action, error)) => {
                        &&& final(self).results == old(self).results
                        &&& final(self).stage == BatchStage::Done
                        &&& final(self).break_reason == Some(
                            AiActionsBreakReason::ApplyFailed {
                                player,
                                action: Box::new(action),
                                error,
                            },
                        )
                    },
                }
            }),
    {
        if let BatchStage::Outcome { player } = self.stage {
            match outcome {
                Ok(result) => {
                    self.results.push(result);
                    if self.results.len() < self.limit {
                        self.stage = BatchStage::Actor;
                    } else {
                        self.stage = BatchStage::Done;
                    }
                },
                Err((action, error)) => {
                    self.break_reason = Some(
                        AiActionsBreakReason::ApplyFailed {
                            player,
                            action: Box::new(action),
                            error,
                        },
                    );
                    self.stage = BatchStage::Done;
                },
            }
        }
    }

    /// Whether the batch ran into the safety cap, a sign of an endless loop.
    pub fn hit_safety_cap(&self) -> (r: bool)
        ensures
            r == (self.results@.len() >= MAX_AI_ACTIONS_PER_SEQUENCE),
    {
        self.results.len() >= MAX_AI_ACTIONS_PER_SEQUENCE
    }
}

/// No batch takes more actions than its caller allowed, nor more than the
/// safety cap.
pub proof fn law_batch_respects_its_bounds<R, A, E>(
    run: AiActionsRun<R, A, E>,
    max_actions: usize,
)
    requires
        run.wf(),
        run.limit == if max_actions < MAX_AI_ACTIONS_PER_SEQUENCE {
            max_actions
        } else {
            MAX_AI_ACTIONS_PER_SEQUENCE
        },
    ensures
        run.results@.len() <= max_actions,
        run.results@.len() <= MAX_AI_ACTIONS_PER_SEQUENCE,
{
}

/// What a driver needs of a batch: how many actions it took, and why it
/// stopped early.
#[derive(Debug)]
pub struct DriverStep<A, E> {
    pub actions_taken: usize,
    pub break_reason: Option<AiActionsBreakReason<A, E>>,
}

/// What a driver needs of a batch. A reason counts whether or not the batch
/// took actions before it.
pub fn driver_step<R, A, E>(results: AiActionsRun<R, A, E>) -> (r: DriverStep<A, E>)
    ensures
        r.actions_taken == results.results@.len(),
        r.break_reason == results.break_reason,
{
    DriverStep { actions_taken: results.results.len(), break_reason: results.break_reason }
}

/// Why a driver stopped.
#[derive(Debug)]
pub enum DriverExit<A, E> {
    /// The action cap was reached.
    CapReached,
    /// A batch stopped early.
    BatchBreak(AiActionsBreakReason<A, E>),
}

/// How many actions a driver took, and why it stopped.
#[derive(Debug)]
pub struct DriverOutcome<A, E> {
    pub total_actions: usize,
    pub exit: DriverExit<A, E>,
}

/// A driver between two batches.
#[derive(Debug, Clone, Copy, PartialEq, Eq, Structural)]
pub struct DriverLoop {
    pub total: usize,
    pub action_cap: usize,
}

/// What a driver does after a batch.
#[derive(Debug)]
pub enum DriverTurn<A, E> {
    Continue(DriverLoop),
    Stop(DriverOutcome<A, E>),
}

/// What a driver does after a batch. A reason to stop wins over the cap where
/// both come together.
pub open spec fn turn_after<A, E>(d: DriverLoop, step: DriverStep<A, E>) -> DriverTurn<A, E> {
    let total = (d.total + step.actions_taken) as usize;
    match step.break_reason {
        Some(reason) => DriverTurn::Stop(
            DriverOutcome { total_actions: total, exit: DriverExit::BatchBreak(reason) },
        ),
        None => if total >= d.action_cap {
            DriverTurn::Stop(DriverOutcome { total_actions: total, exit: DriverExit::CapReached })
        } else {
            DriverTurn::Continue(DriverLoop { total, action_cap: d.action_cap })
        },
    }
}

impl DriverLoop {
    /// Below its cap, so that there is always budget for another action.
    pub open spec fn wf(self) -> bool {
        self.total < self.action_cap
    }

    /// A driver that may take `action_cap` actions.
    pub fn start(action_cap: usize) -> (r: Self)
        requires
            action_cap > 0,
        ensures
            r.wf(),
            r == (DriverLoop { total: 0, action_cap }),
    {
        DriverLoop { total: 0, action_cap }
    }

    /// The budget of the next batch.
    pub fn remaining(&self) -> (r: usize)
        requires
            self.wf(),
        ensures
            r == self.action_cap - self.total,
            r >= 1,
    {
        self.action_cap - self.total
    }

    /// What to do after a batch that kept to the budget.
    pub fn after_batch<A, E>(self, step: DriverStep<A, E>) -> (r: DriverTurn<A, E>)
        requires
            self.wf(),
            step.actions_taken <= self.action_cap - self.total,
        ensures
            r == turn_after(self, step),
            match r {
                DriverTurn::Continue(next) => next.wf() && next.action_cap == self.action_cap,
                DriverTurn::Stop(outcome) => outcome.total_actions <= self.action_cap && (
                outcome.exit is CapReached ==> outcome.total_actions == self.action_cap),
            },
    {
        let total: usize = self.total + step.actions_taken;
        match step.break_reason {
            Some(reason) => DriverTurn::Stop(
                DriverOutcome { total_actions: total, exit: DriverExit::BatchBreak(reason) },
            ),
            None => {
                if total >= self.action_cap {
                    DriverTurn::Stop(
                        DriverOutcome { total_actions: total, exit: DriverExit::CapReached },
                    )
                } else {
                    DriverTurn::Continue(DriverLoop { total, action_cap: self.action_cap })
                }
            },
        }
    }
}

/// How a driver that meets the given batches in turn stops, `None` where it
/// would go on after the last of them.
pub open spec fn drive<A, E>(
    d: DriverLoop,
    steps: Seq<DriverStep<A, E>>,
) -> Option<DriverOutcome<A, E>>
    decreases steps.len(),
{
    if steps.len() == 0 {
        None
    } else {
        match turn_after(d, steps[0]) {
            DriverTurn::Stop(outcome) => Some(outcome),
            DriverTurn::Continue(next) => drive(next, steps.drop_first()),
        }
    }
}

/// Whether each batch keeps to the budget that is left when it starts.
pub open spec fn within_budget<A, E>(d: DriverLoop, steps: Seq<DriverStep<A, E>>) -> bool
    decreases steps.len(),
{
    steps.len() > 0 ==> steps[0].actions_taken <= d.action_cap - d.total && match turn_after(
        d,
        steps[0],
    ) {
        DriverTurn::Stop(_) => true,
        DriverTurn::Continue(next) => within_budget(next, steps.drop_first()),
    }
}

/// The exact-cap promise: a driver whose batches keep to their budgets never
/// exceeds its cap, and where it stops for the cap it stands exactly at it.
pub proof fn law_driver_never_exceeds_its_cap<A, E>(
    d: DriverLoop,
    steps: Seq<DriverStep<A, E>>,
)
    requires
        d.wf(),
        within_budget(d, steps),
    ensures
        drive(d, steps) matches Some(outcome) ==> outcome.total_actions <= d.action_cap && (
        outcome.exit is CapReached ==> outcome.total_actions == d.action_cap),
    decreases steps.len(),
{
    if steps.len() > 0 {
        if let DriverTurn::Continue(next) = turn_after(d, steps[0]) {
            law_driver_never_exceeds_its_cap(next, steps.drop_first());
        }
    }
}

/// What a driver needs of each of several batches.
pub open spec fn steps_of<R, A, E>(runs: Seq<AiActionsRun<R, A, E>>) -> Seq<DriverStep<A, E>> {
    runs.map_values(
        |run: AiActionsRun<R, A, E>|
            DriverStep {
                actions_taken: run.results.len(),
                break_reason: run.break_reason,
            },
    )
}

/// Whether a batch is over, and was begun with the budget that a driver had
/// left.
pub open spec fn is_batch_of<R, A, E>(d: DriverLoop, run: AiActionsRun<R, A, E>) -> bool {
    let remaining = d.action_cap - d.total;
    &&& run.wf()
    &&& run.stage == BatchStage::Done
    &&& run.limit == if remaining < MAX_AI_ACTIONS_PER_SEQUENCE {
        remaining
    } else {
        MAX_AI_ACTIONS_PER_SEQUENCE as int
    }
}

/// Whether `runs` are the batches of a driver, one after the other, up to the
/// one that it stops after.
pub open spec fn are_batches_of<R, A, E>(d: DriverLoop, runs: Seq<AiActionsRun<R, A, E>>) -> bool
    decreases runs.len(),
{
    runs.len() > 0 ==> is_batch_of(d, runs[0]) && match turn_after(d, steps_of(runs)[0]) {
        DriverTurn::Stop(_) => true,
        DriverTurn::Continue(next) => are_batches_of(next, runs.drop_first()),
    }
}

/// How a whole run of batches ends. The driver never exceeds its cap; it stops
/// for the cap exactly where it stands at it, and where a batch stopped early
/// it stands below it. It takes no more batches than it may take actions.
pub proof fn law_driver_stops_for_one_reason<R, A, E>(
    d: DriverLoop,
    runs: Seq<AiActionsRun<R, A, E>>,
)
    requires
        d.wf(),
        are_batches_of(d, runs),
    ensures
        within_budget(d, steps_of(runs)),
        drive(d, steps_of(runs)) matches Some(outcome) ==> {
            &&& outcome.total_actions <= d.action_cap
            &&& (outcome.exit is CapReached) == (outcome.total_actions == d.action_cap)
            &&& (outcome.exit is BatchBreak) == (outcome.total_actions < d.action_cap)
        },
        runs.len() >= d.action_cap - d.total ==> drive(d, steps_of(runs)) is Some,
    decreases runs.len(),
{
    if runs.len() > 0 {
        let steps = steps_of(runs);
        assert(steps[0].actions_taken == runs[0].results.len());
        assert(steps.drop_first() =~= steps_of(runs.drop_first()));
        if let DriverTurn::Continue(next) = turn_after(d, steps[0]) {
            law_driver_stops_for_one_reason(next, runs.drop_first());
        }
    }
}

/// A batch that took actions before it stopped early still stops the driver,
/// with the reason that it carries.
pub proof fn law_break_reason_is_never_lost<A, E>(
    d: DriverLoop,
    step: DriverStep<A, E>,
    reason: AiActionsBreakReason<A, E>,
)
    requires
        d.wf(),
        step.actions_taken <= d.action_cap - d.total,
        step.break_reason == Some(reason),
    ensures
        turn_after(d, step) == DriverTurn::Stop(
            DriverOutcome {
                total_actions: (d.total + step.actions_taken) as usize,
                exit: DriverExit::BatchBreak(reason),
            },
        ),
{
}

/// The seat that acts is the first submitter that is an AI seat, and there is
/// none exactly where no submitter is.
pub proof fn law_first_ai_is_the_first(
    submitters: &Vec<PlayerId>,
    ai_players: &Vec<PlayerId>,
    r: Option<PlayerId>,
)
    requires
        call_ensures(first_ai_submitter, (submitters, ai_players), r),
    ensures
        match r {
            Some(p) => exists|i: int|
                0 <= i < submitters@.len() && #[trigger] submitters@[i] == p
                    && ai_players@.contains(p) && forall|j: int|
                    0 <= j < i ==> !ai_players@.contains(#[trigger] submitters@[j]),
            None => forall|i: int|
                0 <= i < submitters@.len() ==> !ai_players@.contains(#[trigger] submitters@[i]),
        },
{
    lemma_first_ai(submitters@, ai_players@);
}

/// The first AI seat among submitters.
proof fn lemma_first_ai(submitters: Seq<PlayerId>, ai: Seq<PlayerId>)
    ensures
        match first_ai(submitters, ai) {
            Some(p) => exists|i: int|
                0 <= i < submitters.len() && #[trigger] submitters[i] == p && ai.contains(p)
                    && forall|j: int| 0 <= j < i ==> !ai.contains(#[trigger] submitters[j]),
            None => forall|i: int|
                0 <= i < submitters.len() ==> !ai.contains(#[trigger] submitters[i]),
        },
    decreases submitters.len(),
{
    if submitters.len() > 0 {
        if ai.contains(submitters[0]) {
            assert(first_ai(submitters, ai) == Some(submitters[0]));
        } else {
            let rest = submitters.drop_first();
            lemma_first_ai(rest, ai);
            match first_ai(rest, ai) {
                Some(p) => {
                    let k = choose|k: int|
                        0 <= k < rest.len() && #[trigger] rest[k] == p && ai.contains(p) && forall|
                            j: int,
                        |
                            0 <= j < k ==> !ai.contains(#[trigger] rest[j]);
                    assert(submitters[k + 1] == p);
                    assert forall|j: int| 0 <= j < k + 1 implies !ai.contains(
                        #[trigger] submitters[j],
                    ) by {
                        if j > 0 {
                            assert(rest[j - 1] == submitters[j]);
                        }
                    }
                },
                None => {
                    assert forall|i: int| 0 <= i < submitters.len() implies !ai.contains(
                        #[trigger] submitters[i],
                    ) by {
                        if i > 0 {
                            assert(rest[i - 1] == submitters[i]);
                        }
                    }
                },
            }
        }
    }
}

/// A batch begins with nothing done, allowed the lesser of what its caller
/// allows and two hundred actions, and over at once where that is nothing.
pub proof fn law_batch_begins_below_its_limit<R, A, E>(
    max_actions: usize,
    run: AiActionsRun<R, A, E>,
)
    requires
        call_ensures(AiActionsRun::<R, A, E>::bounded, (max_actions,), run),
    ensures
        run.results@.len() == 0,
        run.limit <= max_actions,
        run.limit <= 200,
        run.limit == max_actions || run.limit == 200,
        run.stage is Done <==> max_actions == 0,
        run.break_reason is None,
        run.wf(),
{
}

/// A batch asks first for the submitters, then for a choice of the seat that
/// acts, then for what came of it, and for nothing more once it is over.
pub proof fn law_batch_asks_in_turn<R, A, E>(run: &AiActionsRun<R, A, E>, r: BatchRequest)
    requires
        call_ensures(AiActionsRun::<R, A, E>::request, (run,), r),
    ensures
        run.stage is Actor <==> r is Submitters,
        run.stage is Done <==> r is Finished,
        run.stage matches BatchStage::Choice { player } ==> r == (BatchRequest::Choose { player }),
        run.stage matches BatchStage::Outcome { player } ==> r == (BatchRequest::Apply { player }),
{
}

/// Told the submitters, a batch goes on exactly where the first AI seat among
/// them is configured, and with that seat; otherwise it stops, for want of an
/// actor or of a configuration. No action is taken yet.
pub proof fn law_batch_goes_on_with_a_configured_seat<R, A, E>(
    run: &mut AiActionsRun<R, A, E>,
    submitters: &Vec<PlayerId>,
    ai_players: &Vec<PlayerId>,
    ai_configs: &Vec<PlayerId>,
)
    requires
        call_ensures(
            AiActionsRun::<R, A, E>::on_submitters,
            (run, submitters, ai_players, ai_configs),
            (),
        ),
    ensures
        ({
            let actor = first_ai(submitters@, ai_players@);
            let next = *final(run);
            &&& next.results@ == old(run).results@
            &&& actor is None ==> next.stage is Done && next.break_reason == Some(
                AiActionsBreakReason::<A, E>::NoActor,
            )
            &&& actor matches Some(player) ==> {
                &&& ai_configs@.contains(player) ==> next.stage == (BatchStage::Choice { player })
                    && next.break_reason is None
                &&& !ai_configs@.contains(player) ==> next.stage is Done && next.break_reason
                    == Some(AiActionsBreakReason::<A, E>::MissingAiConfig { player })
            }
        }),
{
}

/// Told whether an action was found, a batch goes on with the same seat exactly
/// where one was.
pub proof fn law_batch_stops_without_a_choice<R, A, E>(
    run: &mut AiActionsRun<R, A, E>,
    found: bool,
    player: PlayerId,
)
    requires
        old(run).stage == (BatchStage::Choice { player }),
        call_ensures(AiActionsRun::<R, A, E>::on_choice, (run, found), ()),
    ensures
        final(run).results@ == old(run).results@,
        found ==> final(run).stage == (BatchStage::Outcome { player }) && final(run).break_reason
            is None,
        !found ==> final(run).stage is Done && final(run).break_reason == Some(
            AiActionsBreakReason::<A, E>::ChooseActionNone { player },
        ),
{
}

/// Told what came of an action, a batch keeps its result behind the earlier
/// ones and asks for another exactly below its limit; a refused action leaves
/// no result and ends the batch with the action and the error.
pub proof fn law_batch_keeps_every_result<R, A, E>(
    run: &mut AiActionsRun<R, A, E>,
    outcome: Result<R, (A, E)>,
    player: PlayerId,
)
    requires
        old(run).stage == (BatchStage::Outcome { player }),
        call_ensures(AiActionsRun::<R, A, E>::on_applied, (run, outcome), ()),
    ensures
        final(run).limit == old(run).limit,
        outcome matches Ok(result) ==> {
            &&& final(run).results@.len() == old(run).results@.len() + 1
            &&& final(run).results@.last() == result
            &&& final(run).results@.drop_last() == old(run).results@
            &&& final(run).break_reason is None
            &&& final(run).stage is Actor <==> final(run).results@.len() < final(run).limit
            &&& final(run).stage is Done <==> final(run).results@.len() >= final(run).limit
        },
        outcome matches Err((action, error)) ==> {
            &&& final(run).results@ == old(run).results@
            &&& final(run).stage is Done
            &&& final(run).break_reason matches Some(
                AiActionsBreakReason::ApplyFailed { player: p, action: a, error: e },
            ) && p == player && *a == action && e == error
        },
{
    if let Ok(result) = outcome {
        assert(old(run).results@.push(result).drop_last() =~= old(run).results@);
    }
}

/// A batch hit the safety cap exactly with two hundred results.
pub proof fn law_safety_cap_is_two_hundred<R, A, E>(run: &AiActionsRun<R, A, E>, r: bool)
    requires
        call_ensures(AiActionsRun::<R, A, E>::hit_safety_cap, (run,), r),
    ensures
        r <==> run.results@.len() >= 200,
{
}

/// What a driver is told of a batch is how many actions it took and why it
/// stopped.
pub proof fn law_driver_is_told_what_happened<R, A, E>(
    run: AiActionsRun<R, A, E>,
    step: DriverStep<A, E>,
)
    requires
        call_ensures(driver_step::<R, A, E>, (run,), step),
    ensures
        step.actions_taken == run.results@.len(),
        step.break_reason == run.break_reason,
{
}

/// A driver starts with its whole cap, hands out what is left of it, and after
/// a batch goes on exactly where the batch gave no reason to stop and the cap
/// is not reached; every action is counted once.
pub proof fn law_driver_counts_every_action<A, E>(
    cap: usize,
    start: DriverLoop,
    d: DriverLoop,
    left: usize,
    step: DriverStep<A, E>,
    turn: DriverTurn<A, E>,
)
    requires
        cap > 0,
        d.wf(),
        step.actions_taken <= d.action_cap - d.total,
        call_ensures(DriverLoop::start, (cap,), start),
        call_ensures(DriverLoop::remaining, (&d,), left),
        call_ensures(DriverLoop::after_batch::<A, E>, (d, step), turn),
    ensures
        start.total == 0 && start.action_cap == cap,
        left + d.total == d.action_cap,
        turn is Continue <==> step.break_reason is None && d.total + step.actions_taken
            < d.action_cap,
        turn matches DriverTurn::Continue(next) ==> next.total == d.total + step.actions_taken
            && next.action_cap == d.action_cap,
        turn matches DriverTurn::Stop(o) ==> {
            &&& o.total_actions == d.total + step.actions_taken
            &&& o.exit is CapReached <==> step.break_reason is None
            &&& step.break_reason matches Some(reason) ==> o.exit == DriverExit::BatchBreak(reason)
        },
{
}

} // verus!
