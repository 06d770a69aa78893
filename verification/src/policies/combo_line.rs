//! Progress toward a combo.

use vstd::prelude::*;

use crate::combo::ComboReachability;
use crate::features::{CommanderBracketTier, DeckFeatures};
use crate::model::{GameAction, GameState, PlayerId};
use crate::seqs;
use crate::score::UNIT;

use super::context::PolicyContext;
use super::registry;
use super::registry::{
    DecisionKind, PolicyId, PolicyReason, PolicyVerdict, Ruling, TacticalPolicy,
};

verus! {

/// Prefers the steps of a combo that can be played this turn, and whatever may
/// find the missing pieces of one that can be played on the next.
#[derive(Debug)]
pub struct ComboLinePolicy;

/// Whether a candidate is a step of a combo. Targets do not matter: they are
/// chosen later.
pub open spec fn is_step(candidate: GameAction) -> spec_fn(GameAction) -> bool {
    |step: GameAction|
        match (candidate, step) {
            (
                GameAction::ActivateAbility { source_id, ability_index },
                GameAction::ActivateAbility { source_id: s, ability_index: i },
            ) => source_id == s && ability_index == i,
            (
                GameAction::CastSpell { object_id, card_id },
                GameAction::CastSpell { object_id: o, card_id: c },
            ) => object_id == o && card_id == c,
            _ => false,
        }
}

/// Whether a candidate may find a missing piece: any spell or ability may.
pub open spec fn may_find_pieces(candidate: GameAction) -> bool {
    candidate is CastSpell || candidate is ActivateAbility
}

/// What the policy says of a candidate, by the first line that it serves.
pub open spec fn combo_ruling(
    lines: Seq<ComboReachability>,
    candidate: GameAction,
    this_turn: int,
    next_turn: int,
) -> Ruling
    decreases lines.len(),
{
    if lines.len() == 0 {
        registry::neutrally(registry::because("combo_line_no_match"@))
    } else {
        let rest = combo_ruling(lines.drop_first(), candidate, this_turn, next_turn);
        match lines[0] {
            ComboReachability::ReachableThisTurn { missing_mana, required_actions } => if
            missing_mana == 0 && seqs::any(required_actions@, is_step(candidate)) {
                registry::scores(this_turn, registry::because("combo_line_this_turn"@))
            } else {
                rest
            },
            ComboReachability::ReachableNextTurn => if may_find_pieces(candidate) {
                registry::scores(next_turn, registry::because("combo_line_next_turn"@))
            } else {
                rest
            },
            ComboReachability::Unreachable => rest,
        }
    }
}

/// Whether a candidate is a step of a combo.
fn action_matches_step(candidate: &GameAction, step: &GameAction) -> (r: bool)
    ensures
        r == is_step(*candidate)(*step),
{
    match candidate {
        GameAction::ActivateAbility { source_id, ability_index } => match step {
            GameAction::ActivateAbility { source_id: s, ability_index: i } => *source_id == *s
                && *ability_index == *i,
            _ => false,
        },
        GameAction::CastSpell { object_id, card_id } => match step {
            GameAction::CastSpell { object_id: o, card_id: c } => *object_id == *o && *card_id
                == *c,
            _ => false,
        },
        _ => false,
    }
}

/// Whether a candidate may find a missing piece.
fn action_is_tutor_or_draw_or_ramp(action: &GameAction) -> (r: bool)
    ensures
        r == may_find_pieces(*action),
{
    matches!(action, GameAction::CastSpell { .. } | GameAction::ActivateAbility { .. })
}

impl ComboLinePolicy {
    pub fn new() -> (r: Self)
        ensures
            r == ComboLinePolicy,
    {
        ComboLinePolicy
    }
}

impl Default for ComboLinePolicy {
    fn default() -> (r: Self)
        ensures
            r == ComboLinePolicy,
    {
        ComboLinePolicy::new()
    }
}

impl TacticalPolicy for ComboLinePolicy {
    open spec fn identity(&self) -> PolicyId {
        PolicyId::ComboLineProgress
    }

    open spec fn kinds(&self) -> Seq<DecisionKind> {
        seq![DecisionKind::CastSpell, DecisionKind::ActivateAbility]
    }

    open spec fn weight(&self, features: DeckFeatures, state: GameState) -> Option<int> {
        if features.bracket_tier == CommanderBracketTier::Cedh {
            Some(UNIT as int)
        } else {
            None
        }
    }

    open spec fn ruling(&self, ctx: PolicyContext<'_>) -> Ruling {
        combo_ruling(
            ctx.context.combo_lines@,
            ctx.candidate.action,
            ctx.config.policy_penalties.combo_progress_this_turn_bonus as int,
            ctx.config.policy_penalties.combo_progress_next_turn_bonus as int,
        )
    }

    fn id(&self) -> PolicyId {
        PolicyId::ComboLineProgress
    }

    fn decision_kinds(&self) -> Vec<DecisionKind> {
        vec![DecisionKind::CastSpell, DecisionKind::ActivateAbility]
    }

    fn activation(
        &self,
        features: &DeckFeatures,
        _state: &GameState,
        _player: PlayerId,
    ) -> Option<i128> {
        if features.bracket_tier == CommanderBracketTier::Cedh {
            Some(UNIT)
        } else {
            None
        }
    }

    fn verdict(&self, ctx: &PolicyContext<'_>) -> PolicyVerdict {
        let lines = &ctx.context.combo_lines;
        let action = &ctx.candidate.action;
        let this_turn: i32 = ctx.penalties().combo_progress_this_turn_bonus;
        let next_turn: i32 = ctx.penalties().combo_progress_next_turn_bonus;
        let mut i: usize = 0;
        assert(lines@.skip(0) =~= lines@);
        while i < lines.len()
            invariant
                i <= lines@.len(),
                combo_ruling(lines@.skip(i as int), *action, this_turn as int, next_turn as int)
                    == self.ruling(*ctx),
                *action == ctx.candidate.action,
            decreases lines@.len() - i,
        {
            assert(lines@.skip(i as int).drop_first() =~= lines@.skip(i + 1));
            match &lines[i] {
                ComboReachability::ReachableThisTurn { missing_mana, required_actions } => {
                    let matches_step = |step: &GameAction| -> (b: bool)
                        ensures
                            b == is_step(*action)(*step),
                        { action_matches_step(action, step) };
                    if *missing_mana == 0 && seqs::any_of(
                        required_actions,
                        matches_step,
                        Ghost(is_step(*action)),
                    ) {
                        return PolicyVerdict::Score {
                            delta: this_turn as i128,
                            reason: PolicyReason::new("combo_line_this_turn"),
                        };
                    }
                },
                ComboReachability::ReachableNextTurn => {
                    if action_is_tutor_or_draw_or_ramp(action) {
                        return PolicyVerdict::Score {
                            delta: next_turn as i128,
                            reason: PolicyReason::new("combo_line_next_turn"),
                        };
                    }
                },
                ComboReachability::Unreachable => {},
            }
            i += 1;
        }
        PolicyVerdict::neutral(PolicyReason::new("combo_line_no_match"))
    }
}

/// Whether a candidate is the same activation, or the same casting, as a step.
pub open spec fn same_step(candidate: GameAction, step: GameAction) -> bool {
    match (candidate, step) {
        (
            GameAction::ActivateAbility { source_id, ability_index },
            GameAction::ActivateAbility { source_id: s, ability_index: i },
        ) => source_id == s && ability_index == i,
        (
            GameAction::CastSpell { object_id, card_id },
            GameAction::CastSpell { object_id: o, card_id: c },
        ) => object_id == o && card_id == c,
        _ => false,
    }
}

/// Whether a line can be played in full this turn and the candidate is one of
/// its steps.
pub open spec fn plays_now(line: ComboReachability, candidate: GameAction) -> bool {
    match line {
        ComboReachability::ReachableThisTurn { missing_mana, required_actions } => missing_mana
            == 0 && exists|i: int|
            0 <= i < required_actions@.len() && same_step(
                candidate,
                #[trigger] required_actions@[i],
            ),
        _ => false,
    }
}

/// Whether a line lacks a piece or a turn, and the candidate is a spell or an
/// ability, which may find it.
pub open spec fn prepares(line: ComboReachability, candidate: GameAction) -> bool {
    line is ReachableNextTurn && (candidate is CastSpell || candidate is ActivateAbility)
}

/// The first line that a candidate serves decides: the bonus of this turn for
/// a step of a line that can be paid for, the bonus of the next for a spell or
/// ability while a piece is missing, nothing where it serves no line.
pub proof fn law_first_served_line_decides(
    lines: Seq<ComboReachability>,
    candidate: GameAction,
    this_turn: int,
    next_turn: int,
    n: int,
)
    requires
        0 <= n <= lines.len(),
        forall|i: int|
            0 <= i < n ==> !plays_now(#[trigger] lines[i], candidate) && !prepares(
                lines[i],
                candidate,
            ),
    ensures
        ({
            let worth = combo_ruling(lines, candidate, this_turn, next_turn).worth();
            &&& n < lines.len() && plays_now(lines[n], candidate) ==> worth == Some(this_turn)
            &&& n < lines.len() && prepares(lines[n], candidate) ==> worth == Some(next_turn)
            &&& n == lines.len() ==> worth == Some(0int)
        }),
    decreases n,
{
    if lines.len() > 0 {
        lemma_plays_now(lines[0], candidate);
        if n > 0 {
            let rest = lines.drop_first();
            assert(!plays_now(lines[0], candidate) && !prepares(lines[0], candidate));
            assert forall|i: int| 0 <= i < n - 1 implies !plays_now(#[trigger] rest[i], candidate)
                && !prepares(rest[i], candidate) by {
                assert(rest[i] == lines[i + 1]);
            }
            law_first_served_line_decides(rest, candidate, this_turn, next_turn, n - 1);
        }
    }
}

/// A line that can be played now has the candidate among its steps.
proof fn lemma_plays_now(line: ComboReachability, candidate: GameAction)
    ensures
        plays_now(line, candidate) == (match line {
            ComboReachability::ReachableThisTurn { missing_mana, required_actions } => missing_mana
                == 0 && seqs::any(required_actions@, is_step(candidate)),
            _ => false,
        }),
{
    if let ComboReachability::ReachableThisTurn { missing_mana, required_actions } = line {
        let s = required_actions@;
        if seqs::any(s, is_step(candidate)) {
            let i = choose|i: int| 0 <= i < s.len() && is_step(candidate)(#[trigger] s[i]);
            assert(same_step(candidate, s[i]));
        }
        if exists|i: int| 0 <= i < s.len() && same_step(candidate, #[trigger] s[i]) {
            let i = choose|i: int| 0 <= i < s.len() && same_step(candidate, #[trigger] s[i]);
            assert(is_step(candidate)(s[i]));
        }
    }
}

/// The bonuses are those of the settings, and the lines those that the AI
/// tracks.
pub proof fn law_combo_bonuses_come_from_the_settings(ctx: PolicyContext<'_>)
    ensures
        ctx.context.combo_lines@.len() > 0 && plays_now(
            ctx.context.combo_lines@[0],
            ctx.candidate.action,
        ) ==> ComboLinePolicy.ruling(ctx).worth() == Some(
            ctx.config.policy_penalties.combo_progress_this_turn_bonus as int,
        ),
        ctx.context.combo_lines@.len() > 0 && prepares(
            ctx.context.combo_lines@[0],
            ctx.candidate.action,
        ) ==> ComboLinePolicy.ruling(ctx).worth() == Some(
            ctx.config.policy_penalties.combo_progress_next_turn_bonus as int,
        ),
        ctx.context.combo_lines@.len() == 0 ==> ComboLinePolicy.ruling(ctx).worth() == Some(0int),
{
    if ctx.context.combo_lines@.len() > 0 {
        lemma_plays_now(ctx.context.combo_lines@[0], ctx.candidate.action);
    }
}

} // verus!
