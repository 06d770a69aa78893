//! Whether to propose a detected loop as a shortcut.
//!
//! A shortcut that runs until somebody loses is proposed only where the player
//! who proposes it is the one who wins. Where another player wins, proposing
//! loses the game or does nothing; where nobody is predicted to win, it does
//! nothing. A shortcut of a fixed number of iterations is real progress and is
//! left to others to judge. Declining is never vetoed, so that there is always
//! a way on.

use vstd::prelude::*;

use crate::features::DeckFeatures;
use crate::model::{GameAction, GameState, IterationCount, PlayerId, WaitingFor};

use super::activation;
use super::activation::always;
use super::context::PolicyContext;
use super::registry;
use super::registry::{
    DecisionKind, PolicyId, PolicyReason, PolicyVerdict, Ruling, TacticalPolicy,
};

verus! {

/// Vetoes proposing a loop that its proposer does not win.
#[derive(Debug)]
pub struct LoopShortcutPolicy;

/// What the policy says of proposing a loop until somebody loses.
pub open spec fn until_lethal_ruling(
    proposer: PlayerId,
    predicted_winner: Option<PlayerId>,
    bonus: int,
    critical_max: int,
) -> Ruling {
    match predicted_winner {
        Some(winner) => if winner != proposer {
            registry::rejects(
                registry::because("loop_shortcut_declare_hands_opponent_the_win"@).fact(
                    "proposer"@,
                    proposer.0 as int,
                ).fact("predicted_winner"@, winner.0 as int),
            )
        } else {
            registry::banded(
                bonus,
                critical_max,
                registry::because("loop_shortcut_declare_wins"@).fact("winner"@, winner.0 as int),
            )
        },
        None => registry::rejects(
            registry::because("loop_shortcut_untillethal_cannot_crown"@),
        ),
    }
}

/// What the policy says of a candidate.
pub open spec fn loop_ruling(ctx: PolicyContext<'_>) -> Ruling {
    let na = registry::neutrally(registry::because("loop_shortcut_na"@));
    match ctx.candidate.action {
        GameAction::DeclareShortcut { count } => match ctx.state.waiting_for {
            WaitingFor::LoopShortcut { proposer, predicted_winner } => match count {
                IterationCount::UntilLethal => until_lethal_ruling(
                    proposer,
                    predicted_winner,
                    ctx.config.policy_penalties.loop_shortcut_winning_declare_bonus as int,
                    ctx.config.bands.critical_max as int,
                ),
                IterationCount::Fixed(_) => na,
            },
            _ => na,
        },
        _ => na,
    }
}

/// Declining a shortcut is never vetoed.
pub proof fn law_declining_is_never_rejected(ctx: PolicyContext<'_>)
    requires
        ctx.candidate.action is DeclineShortcut,
    ensures
        !(loop_ruling(ctx) is Reject),
{
}

/// A shortcut of a fixed number of iterations is neither vetoed nor preferred,
/// whoever is predicted to win.
pub proof fn law_fixed_count_is_neutral(ctx: PolicyContext<'_>, n: u32)
    requires
        ctx.candidate.action == (GameAction::DeclareShortcut { count: IterationCount::Fixed(n) }),
    ensures
        loop_ruling(ctx) == registry::neutrally(registry::because("loop_shortcut_na"@)),
{
}

/// Proposing a loop until somebody loses is vetoed exactly where the proposer
/// is not the one predicted to win, whichever seat the AI judges from.
pub proof fn law_only_a_winning_loop_is_proposed(
    ctx: PolicyContext<'_>,
    proposer: PlayerId,
    predicted_winner: Option<PlayerId>,
)
    requires
        ctx.candidate.action == (GameAction::DeclareShortcut {
            count: IterationCount::UntilLethal,
        }),
        ctx.state.waiting_for == (WaitingFor::LoopShortcut { proposer, predicted_winner }),
    ensures
        (loop_ruling(ctx) is Reject) == (predicted_winner != Some(proposer)),
{
}

impl TacticalPolicy for LoopShortcutPolicy {
    open spec fn identity(&self) -> PolicyId {
        PolicyId::LoopShortcut
    }

    open spec fn kinds(&self) -> Seq<DecisionKind> {
        seq![DecisionKind::ActivateAbility]
    }

    open spec fn weight(&self, features: DeckFeatures, state: GameState) -> Option<int> {
        activation::constant()
    }

    open spec fn ruling(&self, ctx: PolicyContext<'_>) -> Ruling {
        loop_ruling(ctx)
    }

    fn id(&self) -> PolicyId {
        PolicyId::LoopShortcut
    }

    fn decision_kinds(&self) -> Vec<DecisionKind> {
        vec![DecisionKind::ActivateAbility]
    }

    fn activation(
        &self,
        _features: &DeckFeatures,
        _state: &GameState,
        _player: PlayerId,
    ) -> Option<i128> {
        always()
    }

    fn verdict(&self, ctx: &PolicyContext<'_>) -> PolicyVerdict {
        let count: IterationCount = match &ctx.candidate.action {
            GameAction::DeclareShortcut { count } => *count,
            _ => return PolicyVerdict::neutral(PolicyReason::new("loop_shortcut_na")),
        };
        let (proposer, predicted_winner) = match &ctx.state.waiting_for {
            WaitingFor::LoopShortcut { proposer, predicted_winner } => (
                *proposer,
                *predicted_winner,
            ),
            _ => return PolicyVerdict::neutral(PolicyReason::new("loop_shortcut_na")),
        };
        match count {
            IterationCount::Fixed(_) => PolicyVerdict::neutral(
                PolicyReason::new("loop_shortcut_na"),
            ),
            IterationCount::UntilLethal => match predicted_winner {
                Some(winner) => if winner != proposer {
                    PolicyVerdict::reject(
                        PolicyReason::new(
                            "loop_shortcut_declare_hands_opponent_the_win",
                        ).with_fact("proposer", proposer.0 as i64).with_fact(
                            "predicted_winner",
                            winner.0 as i64,
                        ),
                    )
                } else {
                    PolicyVerdict::score(
                        ctx.penalties().loop_shortcut_winning_declare_bonus as i128,
                        &ctx.config.bands,
                        PolicyReason::new("loop_shortcut_declare_wins").with_fact(
                            "winner",
                            winner.0 as i64,
                        ),
                    )
                },
                None => PolicyVerdict::reject(
                    PolicyReason::new("loop_shortcut_untillethal_cannot_crown"),
                ),
            },
        }
    }
}

/// Proposing a loop that its proposer wins draws the configured bonus, within
/// the critical band; and nothing else draws anything.
pub proof fn law_winning_loop_draws_the_bonus(ctx: PolicyContext<'_>)
    ensures
        ({
            let wins = ctx.candidate.action == (GameAction::DeclareShortcut {
                count: IterationCount::UntilLethal,
            }) && (match ctx.state.waiting_for {
                WaitingFor::LoopShortcut { proposer, predicted_winner } => predicted_winner == Some(
                    proposer,
                ),
                _ => false,
            });
            let bonus = ctx.config.policy_penalties.loop_shortcut_winning_declare_bonus as int;
            let most = ctx.config.bands.critical_max as int;
            let worth = LoopShortcutPolicy.ruling(ctx).worth();
            &&& wins && -most <= bonus <= most ==> worth == Some(bonus)
            &&& wins && bonus > most ==> worth == Some(most)
            &&& !wins ==> worth == Some(0int) || worth is None
            &&& worth is None ==> ctx.candidate.action == (GameAction::DeclareShortcut {
                count: IterationCount::UntilLethal,
            }) && ctx.state.waiting_for is LoopShortcut
        }),
{
}

/// A verdict on a loop says who proposes it and who would win.
pub proof fn law_loop_verdicts_say_why(
    ctx: PolicyContext<'_>,
    proposer: PlayerId,
    predicted_winner: Option<PlayerId>,
)
    requires
        ctx.candidate.action == (GameAction::DeclareShortcut {
            count: IterationCount::UntilLethal,
        }),
        ctx.state.waiting_for == (WaitingFor::LoopShortcut { proposer, predicted_winner }),
    ensures
        ({
            let r = LoopShortcutPolicy.ruling(ctx);
            &&& predicted_winner is None ==> r.kind() == "loop_shortcut_untillethal_cannot_crown"@
            &&& predicted_winner matches Some(w) ==> {
                &&& w == proposer ==> r.kind() == "loop_shortcut_declare_wins"@ && r.facts()
                    == seq![("winner"@, w.0 as int)]
                &&& w != proposer ==> r.kind() == "loop_shortcut_declare_hands_opponent_the_win"@
                    && r.facts() == seq![
                    ("proposer"@, proposer.0 as int),
                    ("predicted_winner"@, w.0 as int),
                ]
            }
        }),
{
}

} // verus!
