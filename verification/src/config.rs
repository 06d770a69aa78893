//! Settings of an AI seat: difficulty, search limits, penalties.

use vstd::prelude::*;

use crate::text;
use crate::text::{eq_ignore_case, trim};

verus! {

/// How well a seat plays.
#[derive(Debug, Clone, Copy, PartialEq, Eq, Structural, Hash)]
pub enum AiDifficulty {
    VeryEasy,
    Easy,
    Medium,
    Hard,
    VeryHard,
    CEDH,
}

/// The difficulty that a label names, whatever its case and the white space
/// around it.
pub open spec fn labelled(label: Seq<char>) -> Option<AiDifficulty> {
    let l = text::trimmed(label);
    if text::same_but_case(l, "VeryEasy"@) {
        Some(AiDifficulty::VeryEasy)
    } else if text::same_but_case(l, "Easy"@) {
        Some(AiDifficulty::Easy)
    } else if text::same_but_case(l, "Medium"@) {
        Some(AiDifficulty::Medium)
    } else if text::same_but_case(l, "Hard"@) {
        Some(AiDifficulty::Hard)
    } else if text::same_but_case(l, "VeryHard"@) {
        Some(AiDifficulty::VeryHard)
    } else if text::same_but_case(l, "CEDH"@) {
        Some(AiDifficulty::CEDH)
    } else {
        None
    }
}

impl AiDifficulty {
    /// The label of a difficulty.
    pub open spec fn name(self) -> Seq<char> {
        match self {
            AiDifficulty::VeryEasy => "VeryEasy"@,
            AiDifficulty::Easy => "Easy"@,
            AiDifficulty::Medium => "Medium"@,
            AiDifficulty::Hard => "Hard"@,
            AiDifficulty::VeryHard => "VeryHard"@,
            AiDifficulty::CEDH => "CEDH"@,
        }
    }

    /// The label of a difficulty.
    pub fn label(self) -> (r: &'static str)
        ensures
            r@ == self.name(),
    {
        match self {
            AiDifficulty::VeryEasy => "VeryEasy",
            AiDifficulty::Easy => "Easy",
            AiDifficulty::Medium => "Medium",
            AiDifficulty::Hard => "Hard",
            AiDifficulty::VeryHard => "VeryHard",
            AiDifficulty::CEDH => "CEDH",
        }
    }

    /// The difficulty that a label names, `None` for an unknown label.
    pub fn accepted(label: &str) -> (r: Option<AiDifficulty>)
        ensures
            r == labelled(label@),
    {
        let l = trim(label);
        if eq_ignore_case(l, "VeryEasy") {
            Some(AiDifficulty::VeryEasy)
        } else if eq_ignore_case(l, "Easy") {
            Some(AiDifficulty::Easy)
        } else if eq_ignore_case(l, "Medium") {
            Some(AiDifficulty::Medium)
        } else if eq_ignore_case(l, "Hard") {
            Some(AiDifficulty::Hard)
        } else if eq_ignore_case(l, "VeryHard") {
            Some(AiDifficulty::VeryHard)
        } else if eq_ignore_case(l, "CEDH") {
            Some(AiDifficulty::CEDH)
        } else {
            None
        }
    }

    /// The difficulty that a label names; an unknown label means medium.
    pub fn from_label(label: &str) -> (r: AiDifficulty)
        ensures
            r == match labelled(label@) {
                Some(d) => d,
                None => AiDifficulty::Medium,
            },
    {
        match AiDifficulty::accepted(label) {
            Some(d) => d,
            None => AiDifficulty::Medium,
        }
    }
}

/// Every difficulty is named by its own label.
pub proof fn law_labels_name_their_difficulty(d: AiDifficulty)
    ensures
        labelled(d.name()) == Some(d),
{
    reveal_strlit("VeryEasy");
    reveal_strlit("Easy");
    reveal_strlit("Medium");
    reveal_strlit("Hard");
    reveal_strlit("VeryHard");
    reveal_strlit("CEDH");
    let n = d.name();
    assert(!text::is_white(n[0]));
    assert(!text::is_white(n.last()));
    assert(text::trimmed(n) == n);
    match d {
        AiDifficulty::Hard => {
            assert(text::lowered(n[0]) != text::lowered("Easy"@[0]));
        },
        AiDifficulty::VeryHard => {
            assert(text::lowered(n[4]) != text::lowered("VeryEasy"@[4]));
        },
        AiDifficulty::CEDH => {
            assert(text::lowered(n[0]) != text::lowered("Easy"@[0]));
            assert(text::lowered(n[0]) != text::lowered("Hard"@[0]));
        },
        _ => {},
    }
}

/// What the tactical policies add or take away, in millionths.
#[derive(Debug, Clone, Copy, PartialEq, Eq, Structural)]
pub struct PolicyPenalties {
    pub sacrifice_land_penalty: i32,
    pub sacrifice_token_cost: i32,
    pub evasion_removal_bonus_mult: i32,
    pub protect_spell_bonus_mult: i32,
    pub lethality_tapout_penalty: i32,
    pub low_life_defensive_bonus: i32,
    pub low_life_aggro_penalty: i32,
    pub recursion_destroy_penalty: i32,
    pub recursion_exile_bonus: i32,
    pub death_trigger_destroy_penalty: i32,
    pub cycling_needed_land_penalty: i32,
    pub cycling_patience_penalty: i32,
    pub combo_progress_this_turn_bonus: i32,
    pub combo_progress_next_turn_bonus: i32,
    pub loop_shortcut_winning_declare_bonus: i32,
}

/// Limits of the search.
#[derive(Debug, Clone, Copy, PartialEq, Eq, Structural)]
pub struct SearchConfig {
    pub enabled: bool,
    /// What must be left of the time budget for a projection; zero asks for
    /// nothing.
    pub projection_min_budget_ms: u128,
}

/// The largest magnitude of a score in each band, in millionths.
#[derive(Debug, Clone, Copy, PartialEq, Eq, Structural)]
pub struct ScoreBands {
    pub nudge_max: u32,
    pub preference_max: u32,
    pub strong_max: u32,
    pub critical_max: u32,
}

/// The settings of a seat.
#[derive(Debug, Clone, Copy, PartialEq, Eq, Structural)]
pub struct AiConfig {
    pub policy_penalties: PolicyPenalties,
    pub search: SearchConfig,
    pub bands: ScoreBands,
    /// How readily a seat keeps interaction back, in millionths.
    pub interaction_patience: i32,
}

/// Labels are told apart by their letters alone: two texts that are equal but
/// for case and the white space around them name the same difficulty, and a
/// difficulty is named only by its own label.
pub proof fn law_labels_ignore_case_and_space(label: &str, r: Option<AiDifficulty>)
    requires
        call_ensures(AiDifficulty::accepted, (label,), r),
    ensures
        r matches Some(d) ==> text::same_but_case(text::trimmed(label@), d.name()),
        r is None ==> forall|d: AiDifficulty|
            !text::same_but_case(text::trimmed(label@), #[trigger] d.name()),
{
}

/// An unknown label means medium, a known one its difficulty; and the label of
/// a difficulty is its name.
pub proof fn law_unknown_labels_mean_medium(
    label: &str,
    known: Option<AiDifficulty>,
    r: AiDifficulty,
    d: AiDifficulty,
    name: &'static str,
)
    requires
        call_ensures(AiDifficulty::accepted, (label,), known),
        call_ensures(AiDifficulty::from_label, (label,), r),
        call_ensures(AiDifficulty::label, (d,), name),
    ensures
        known matches Some(k) ==> r == k,
        known is None ==> r is Medium,
        name@ == d.name(),
        labelled(name@) == Some(d),
{
    law_labels_name_their_difficulty(d);
}

} // verus!
