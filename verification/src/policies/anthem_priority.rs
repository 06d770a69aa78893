//! Anthems are cast once there are creatures to pump.

use vstd::prelude::*;


use crate::eval;
use crate::eval::board_stats;
use crate::features::DeckFeatures;
use crate::model::{GameAction, GameState, PlayerId};

use super::context::PolicyContext;
use super::registry;
use super::registry::{
    DecisionKind, PolicyId, PolicyReason, PolicyVerdict, Ruling, TacticalPolicy,
};

verus! {

/// Below this commitment to going wide the policy is not asked, in millionths.
pub const COMMITMENT_FLOOR: i64 = 300_000;

/// From this many creatures on an anthem is timely.
pub const ANTHEM_TIMELY_BOARD_FLOOR: i64 = 3;

/// Rewards casting an anthem onto a wide board, and holds it back from a
/// narrow one.
#[derive(Debug)]
pub struct AnthemPriorityPolicy;

/// What the policy says of a candidate.
pub open spec fn anthem_ruling(ctx: PolicyContext<'_>) -> Ruling {
    match ctx.candidate.action {
        GameAction::CastSpell { object_id, .. } => match ctx.state.obj(object_id) {
            Some(o) if o.is_anthem => {
                let own = eval::creature_count(*ctx.state, ctx.ai_player);
                if own >= ANTHEM_TIMELY_BOARD_FLOOR {
                    registry::scores(
                        2_000_000,
                        registry::because("anthem_timely"@).fact("own_creatures"@, own),
                    )
                } else {
                    registry::scores(
                        -500_000,
                        registry::because("anthem_premature"@).fact("own_creatures"@, own),
                    )
                }
            },
            _ => registry::neutrally(registry::because("anthem_priority_na"@)),
        },
        _ => registry::neutrally(registry::because("anthem_priority_na"@)),
    }
}

impl TacticalPolicy for AnthemPriorityPolicy {
    open spec fn identity(&self) -> PolicyId {
        PolicyId::AnthemPriority
    }

    open spec fn kinds(&self) -> Seq<DecisionKind> {
        seq![DecisionKind::CastSpell]
    }

    open spec fn weight(&self, features: DeckFeatures, state: GameState) -> Option<int> {
        if features.tokens_wide.commitment < COMMITMENT_FLOOR {
            None
        } else {
            Some(features.tokens_wide.commitment as int)
        }
    }

    open spec fn ruling(&self, ctx: PolicyContext<'_>) -> Ruling {
        anthem_ruling(ctx)
    }

    fn id(&self) -> PolicyId {
        PolicyId::AnthemPriority
    }

    fn decision_kinds(&self) -> Vec<DecisionKind> {
        vec![DecisionKind::CastSpell]
    }

    fn activation(
        &self,
        features: &DeckFeatures,
        _state: &GameState,
        _player: PlayerId,
    ) -> Option<i128> {
        if features.tokens_wide.commitment < COMMITMENT_FLOOR {
            None
        } else {
            Some(features.tokens_wide.commitment as i128)
        }
    }

    fn verdict(&self, ctx: &PolicyContext<'_>) -> PolicyVerdict {
        if let GameAction::CastSpell { object_id, .. } = &ctx.candidate.action {
            if let Some(obj) = ctx.state.object(*object_id) {
                if obj.is_anthem {
                    let (own_creatures, _power, _toughness, _others) = board_stats(
                        ctx.state,
                        ctx.ai_player,
                    );
                    if own_creatures >= ANTHEM_TIMELY_BOARD_FLOOR {
                        return PolicyVerdict::Score {
                            delta: 2_000_000,
                            reason: PolicyReason::new("anthem_timely").with_fact(
                                "own_creatures",
                                own_creatures,
                            ),
                        };
                    }
                    return PolicyVerdict::Score {
                        delta: -500_000,
                        reason: PolicyReason::new("anthem_premature").with_fact(
                            "own_creatures",
                            own_creatures,
                        ),
                    };
                }
            }
        }
        PolicyVerdict::neutral(PolicyReason::new("anthem_priority_na"))
    }
}

/// Casting an anthem is rewarded exactly where the AI has three creatures or
/// more and discouraged exactly where it has fewer; nothing else is judged.
pub proof fn law_anthem_wants_three_creatures(ctx: PolicyContext<'_>)
    ensures
        ({
            let creatures = eval::creature_count(*ctx.state, ctx.ai_player);
            let anthem = match ctx.candidate.action {
                GameAction::CastSpell { object_id, .. } => match ctx.state.obj(object_id) {
                    Some(o) => o.is_anthem,
                    None => false,
                },
                _ => false,
            };
            let worth = AnthemPriorityPolicy.ruling(ctx).worth();
            &&& anthem && creatures > 2 <==> AnthemPriorityPolicy.ruling(ctx).rewards()
            &&& anthem && creatures <= 2 <==> AnthemPriorityPolicy.ruling(ctx).discourages()
            &&& !anthem ==> worth == Some(0int)
            &&& worth == Some(2_000_000int) || worth == Some(-500_000int) || worth == Some(0int)
        }),
{
}

/// A verdict on an anthem says which it is, and how many creatures there are.
pub proof fn law_anthem_verdicts_say_why(ctx: PolicyContext<'_>)
    ensures
        ({
            let r = AnthemPriorityPolicy.ruling(ctx);
            let own = eval::creature_count(*ctx.state, ctx.ai_player);
            &&& r.rewards() ==> r.kind() == "anthem_timely"@ && r.facts() == seq![
                ("own_creatures"@, own),
            ]
            &&& r.discourages() ==> r.kind() == "anthem_premature"@ && r.facts() == seq![
                ("own_creatures"@, own),
            ]
            &&& r.worth() == Some(0int) ==> r.kind() == "anthem_priority_na"@
        }),
{
}

} // verus!
