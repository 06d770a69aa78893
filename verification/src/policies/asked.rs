//! Which policies are asked about which decisions, and how much they count.

use vstd::prelude::*;

use crate::features::DeckFeatures;
use crate::model::GameState;

use super::anthem_priority::AnthemPriorityPolicy;
use super::blight_value::BlightValuePolicy;
use super::combat_tax::CombatTaxPaymentPolicy;
use super::combo_line::ComboLinePolicy;
use super::condition_gated_activation::ConditionGatedActivationPolicy;
use super::control_change_awareness::ControlChangeAwarenessPolicy;
use super::cycling_discipline::CyclingDisciplinePolicy;
use super::effect_timing::EffectTimingPolicy;
use super::evasion_removal_priority::EvasionRemovalPriorityPolicy;
use super::fetch_land_patience::FetchLandPatiencePolicy;
use super::hand_disruption::HandDisruptionPolicy;
use super::hold_mana_up::HoldManaUpForInteractionPolicy;
use super::land_sequencing::LandSequencingPolicy;
use super::lethality_awareness::LethalityAwarenessPolicy;
use super::life_total_resource::LifeTotalResourcePolicy;
use super::loop_shortcut::LoopShortcutPolicy;
use super::plus_one_counters::PlusOneCountersPolicy;
use super::ramp_timing::RampTimingPolicy;
use super::recursion_awareness::RecursionAwarenessPolicy;
use super::sacrifice_land_protection::SacrificeLandProtectionPolicy;
use super::sacrifice_value::SacrificeValuePolicy;
use super::separate_piles_timing::SeparatePilesTimingPolicy;
use super::spellskite_priority::SpellskitePriorityPolicy;
use super::registry::{DecisionKind, PolicyId, TacticalPolicy};

verus! {

/// The anthem priority policy is asked about spells, and counts by the
/// commitment to going wide, from three tenths on.
pub proof fn law_anthem_priority_is_asked(
    kind: DecisionKind,
    features: DeckFeatures,
    state: GameState,
)
    ensures
        ({
            let policy = AnthemPriorityPolicy;
            &&& policy.identity() == PolicyId::AnthemPriority
            &&& policy.kinds().contains(kind) <==> kind is CastSpell
            &&& features.tokens_wide.commitment >= 300_000
                ==> policy.weight(features, state) == Some(features.tokens_wide.commitment as int)
            &&& features.tokens_wide.commitment < 300_000
                ==> policy.weight(features, state) is None
        }),
{
    let policy = AnthemPriorityPolicy;
    assert(policy.kinds()[0] is CastSpell);
}

/// The blight value policy is asked about abilities, and always counts in
/// full.
pub proof fn law_blight_value_is_asked(
    kind: DecisionKind,
    features: DeckFeatures,
    state: GameState,
)
    ensures
        ({
            let policy = BlightValuePolicy;
            &&& policy.identity() == PolicyId::BlightValue
            &&& policy.kinds().contains(kind) <==> kind is ActivateAbility
            &&& policy.weight(features, state) == Some(1_000_000int)
        }),
{
    let policy = BlightValuePolicy;
    assert(policy.kinds()[0] is ActivateAbility);
}

/// The combat tax policy is asked about attackers and blockers, and always
/// counts in full.
pub proof fn law_combat_tax_is_asked(
    kind: DecisionKind,
    features: DeckFeatures,
    state: GameState,
)
    ensures
        ({
            let policy = CombatTaxPaymentPolicy;
            &&& policy.identity() == PolicyId::CombatTaxPayment
            &&& policy.kinds().contains(kind) <==> kind is DeclareAttackers
                || kind is DeclareBlockers
            &&& policy.weight(features, state) == Some(1_000_000int)
        }),
{
    let policy = CombatTaxPaymentPolicy;
    assert(policy.kinds()[0] is DeclareAttackers);
    assert(policy.kinds()[1] is DeclareBlockers);
}

/// The combo line policy is asked about spells and abilities, and counts in
/// full, for a deck of the highest bracket alone.
pub proof fn law_combo_line_is_asked(
    kind: DecisionKind,
    features: DeckFeatures,
    state: GameState,
)
    ensures
        ({
            let policy = ComboLinePolicy;
            &&& policy.identity() == PolicyId::ComboLineProgress
            &&& policy.kinds().contains(kind) <==> kind is CastSpell || kind is ActivateAbility
            &&& features.bracket_tier is Cedh
                ==> policy.weight(features, state) == Some(1_000_000int)
            &&& !(features.bracket_tier is Cedh) ==> policy.weight(features, state) is None
        }),
{
    let policy = ComboLinePolicy;
    assert(policy.kinds()[0] is CastSpell);
    assert(policy.kinds()[1] is ActivateAbility);
}

/// The condition gated activation policy is asked about abilities, and
/// always counts in full.
pub proof fn law_condition_gated_activation_is_asked(
    kind: DecisionKind,
    features: DeckFeatures,
    state: GameState,
)
    ensures
        ({
            let policy = ConditionGatedActivationPolicy;
            &&& policy.identity() == PolicyId::ConditionGatedActivation
            &&& policy.kinds().contains(kind) <==> kind is ActivateAbility
            &&& policy.weight(features, state) == Some(1_000_000int)
        }),
{
    let policy = ConditionGatedActivationPolicy;
    assert(policy.kinds()[0] is ActivateAbility);
}

/// The control change awareness policy is asked about abilities and
/// targets, and always counts in full.
pub proof fn law_control_change_awareness_is_asked(
    kind: DecisionKind,
    features: DeckFeatures,
    state: GameState,
)
    ensures
        ({
            let policy = ControlChangeAwarenessPolicy;
            &&& policy.identity() == PolicyId::ControlChangeAwareness
            &&& policy.kinds().contains(kind) <==> kind is ActivateAbility || kind is SelectTarget
            &&& policy.weight(features, state) == Some(1_000_000int)
        }),
{
    let policy = ControlChangeAwarenessPolicy;
    assert(policy.kinds()[0] is ActivateAbility);
    assert(policy.kinds()[1] is SelectTarget);
}

/// The cycling discipline policy is asked about abilities, and always
/// counts in full.
pub proof fn law_cycling_discipline_is_asked(
    kind: DecisionKind,
    features: DeckFeatures,
    state: GameState,
)
    ensures
        ({
            let policy = CyclingDisciplinePolicy;
            &&& policy.identity() == PolicyId::CyclingDiscipline
            &&& policy.kinds().contains(kind) <==> kind is ActivateAbility
            &&& policy.weight(features, state) == Some(1_000_000int)
        }),
{
    let policy = CyclingDisciplinePolicy;
    assert(policy.kinds()[0] is ActivateAbility);
}

/// The effect timing policy is asked about land drops, spells and
/// abilities, and counts by the stage of the game.
pub proof fn law_effect_timing_is_asked(
    kind: DecisionKind,
    features: DeckFeatures,
    state: GameState,
)
    ensures
        ({
            let policy = EffectTimingPolicy;
            &&& policy.identity() == PolicyId::EffectTiming
            &&& policy.kinds().contains(kind) <==> kind is PlayLand || kind is CastSpell
                || kind is ActivateAbility
            &&& policy.weight(features, state) == Some(features.turn_multiplier as int)
        }),
{
    let policy = EffectTimingPolicy;
    assert(policy.kinds()[0] is PlayLand);
    assert(policy.kinds()[1] is CastSpell);
    assert(policy.kinds()[2] is ActivateAbility);
}

/// The evasion removal priority policy is asked about targets, and counts
/// by the stage of the game.
pub proof fn law_evasion_removal_priority_is_asked(
    kind: DecisionKind,
    features: DeckFeatures,
    state: GameState,
)
    ensures
        ({
            let policy = EvasionRemovalPriorityPolicy;
            &&& policy.identity() == PolicyId::EvasionRemovalPriority
            &&& policy.kinds().contains(kind) <==> kind is SelectTarget
            &&& policy.weight(features, state) == Some(features.turn_multiplier as int)
        }),
{
    let policy = EvasionRemovalPriorityPolicy;
    assert(policy.kinds()[0] is SelectTarget);
}

/// The fetch land patience policy is asked about abilities, and always
/// counts in full.
pub proof fn law_fetch_land_patience_is_asked(
    kind: DecisionKind,
    features: DeckFeatures,
    state: GameState,
)
    ensures
        ({
            let policy = FetchLandPatiencePolicy;
            &&& policy.identity() == PolicyId::FetchLandPatience
            &&& policy.kinds().contains(kind) <==> kind is ActivateAbility
            &&& policy.weight(features, state) == Some(1_000_000int)
        }),
{
    let policy = FetchLandPatiencePolicy;
    assert(policy.kinds()[0] is ActivateAbility);
}

/// The hand disruption policy is asked about spells and targets, and counts
/// by the stage of the game.
pub proof fn law_hand_disruption_is_asked(
    kind: DecisionKind,
    features: DeckFeatures,
    state: GameState,
)
    ensures
        ({
            let policy = HandDisruptionPolicy;
            &&& policy.identity() == PolicyId::HandDisruption
            &&& policy.kinds().contains(kind) <==> kind is CastSpell || kind is SelectTarget
            &&& policy.weight(features, state) == Some(features.turn_multiplier as int)
        }),
{
    let policy = HandDisruptionPolicy;
    assert(policy.kinds()[0] is CastSpell);
    assert(policy.kinds()[1] is SelectTarget);
}

/// The hold mana up policy is asked about spells and abilities, and counts
/// by the reactive tempo of the deck, from its floor on.
pub proof fn law_hold_mana_up_is_asked(
    kind: DecisionKind,
    features: DeckFeatures,
    state: GameState,
)
    ensures
        ({
            let policy = HoldManaUpForInteractionPolicy;
            &&& policy.identity() == PolicyId::HoldManaUpForInteraction
            &&& policy.kinds().contains(kind) <==> kind is CastSpell || kind is ActivateAbility
            &&& features.control.reactive_tempo >= features.control.reactive_tempo_floor
                ==> policy.weight(features, state) == Some(features.control.reactive_tempo as int)
            &&& features.control.reactive_tempo < features.control.reactive_tempo_floor
                ==> policy.weight(features, state) is None
        }),
{
    let policy = HoldManaUpForInteractionPolicy;
    assert(policy.kinds()[0] is CastSpell);
    assert(policy.kinds()[1] is ActivateAbility);
}

/// The land sequencing policy is asked about land drops, and always counts
/// in full.
pub proof fn law_land_sequencing_is_asked(
    kind: DecisionKind,
    features: DeckFeatures,
    state: GameState,
)
    ensures
        ({
            let policy = LandSequencingPolicy;
            &&& policy.identity() == PolicyId::LandSequencing
            &&& policy.kinds().contains(kind) <==> kind is PlayLand
            &&& policy.weight(features, state) == Some(1_000_000int)
        }),
{
    let policy = LandSequencingPolicy;
    assert(policy.kinds()[0] is PlayLand);
}

/// The lethality awareness policy is asked about spells and abilities, and
/// counts by the stage of the game, half as much again for an aggressive
/// deck.
pub proof fn law_lethality_awareness_is_asked(
    kind: DecisionKind,
    features: DeckFeatures,
    state: GameState,
)
    ensures
        ({
            let policy = LethalityAwarenessPolicy;
            &&& policy.identity() == PolicyId::LethalityAwareness
            &&& policy.kinds().contains(kind) <==> kind is CastSpell || kind is ActivateAbility
            &&& policy.weight(features, state) matches Some(w) && (if features.archetype is Aggro {
                2 * w <= 3 * features.turn_multiplier < 2 * (w + 1)
            } else {
                w == features.turn_multiplier
            })
        }),
{
    let policy = LethalityAwarenessPolicy;
    assert(policy.kinds()[0] is CastSpell);
    assert(policy.kinds()[1] is ActivateAbility);
}

/// The life total resource policy is asked about spells and abilities, and
/// counts by the stage of the game, three tenths more for an aggressive
/// deck and two tenths less for a controlling one.
pub proof fn law_life_total_resource_is_asked(
    kind: DecisionKind,
    features: DeckFeatures,
    state: GameState,
)
    ensures
        ({
            let policy = LifeTotalResourcePolicy;
            &&& policy.identity() == PolicyId::LifeTotalResource
            &&& policy.kinds().contains(kind) <==> kind is CastSpell || kind is ActivateAbility
            &&& policy.weight(features, state) matches Some(w) && (if features.archetype is Aggro {
                10 * w <= 13 * features.turn_multiplier < 10 * (w + 1)
            } else if features.archetype is Control {
                5 * w <= 4 * features.turn_multiplier < 5 * (w + 1)
            } else {
                w == features.turn_multiplier
            })
        }),
{
    let policy = LifeTotalResourcePolicy;
    assert(policy.kinds()[0] is CastSpell);
    assert(policy.kinds()[1] is ActivateAbility);
}

/// The loop shortcut policy is asked about abilities, and always counts in
/// full.
pub proof fn law_loop_shortcut_is_asked(
    kind: DecisionKind,
    features: DeckFeatures,
    state: GameState,
)
    ensures
        ({
            let policy = LoopShortcutPolicy;
            &&& policy.identity() == PolicyId::LoopShortcut
            &&& policy.kinds().contains(kind) <==> kind is ActivateAbility
            &&& policy.weight(features, state) == Some(1_000_000int)
        }),
{
    let policy = LoopShortcutPolicy;
    assert(policy.kinds()[0] is ActivateAbility);
}

/// The plus one counters policy is asked about spells and abilities, and
/// counts by the commitment to counters, from its floor on.
pub proof fn law_plus_one_counters_is_asked(
    kind: DecisionKind,
    features: DeckFeatures,
    state: GameState,
)
    ensures
        ({
            let policy = PlusOneCountersPolicy;
            &&& policy.identity() == PolicyId::PlusOneCountersTactical
            &&& policy.kinds().contains(kind) <==> kind is CastSpell || kind is ActivateAbility
            &&& features.plus_one_counters.commitment >= features.plus_one_counters.commitment_floor
                ==> policy.weight(features, state)
                == Some(features.plus_one_counters.commitment as int)
            &&& features.plus_one_counters.commitment < features.plus_one_counters.commitment_floor
                ==> policy.weight(features, state) is None
        }),
{
    let policy = PlusOneCountersPolicy;
    assert(policy.kinds()[0] is CastSpell);
    assert(policy.kinds()[1] is ActivateAbility);
}

/// The ramp timing policy is asked about spells, mana abilities and
/// abilities, and counts by the commitment to ramp, from one tenth on and
/// up to turn four.
pub proof fn law_ramp_timing_is_asked(
    kind: DecisionKind,
    features: DeckFeatures,
    state: GameState,
)
    ensures
        ({
            let policy = RampTimingPolicy;
            &&& policy.identity() == PolicyId::RampTiming
            &&& policy.kinds().contains(kind) <==> kind is CastSpell
                || kind is ActivateManaAbility || kind is ActivateAbility
            &&& features.mana_ramp.commitment >= 100_000 && state.turn_number <= 4
                ==> policy.weight(features, state) == Some(features.mana_ramp.commitment as int)
            &&& features.mana_ramp.commitment < 100_000 || state.turn_number > 4
                ==> policy.weight(features, state) is None
        }),
{
    let policy = RampTimingPolicy;
    assert(policy.kinds()[0] is CastSpell);
    assert(policy.kinds()[1] is ActivateManaAbility);
    assert(policy.kinds()[2] is ActivateAbility);
}

/// The recursion awareness policy is asked about targets, and counts by the
/// stage of the game.
pub proof fn law_recursion_awareness_is_asked(
    kind: DecisionKind,
    features: DeckFeatures,
    state: GameState,
)
    ensures
        ({
            let policy = RecursionAwarenessPolicy;
            &&& policy.identity() == PolicyId::RecursionAwareness
            &&& policy.kinds().contains(kind) <==> kind is SelectTarget
            &&& policy.weight(features, state) == Some(features.turn_multiplier as int)
        }),
{
    let policy = RecursionAwarenessPolicy;
    assert(policy.kinds()[0] is SelectTarget);
}

/// The sacrifice land protection policy is asked about abilities, and
/// always counts in full.
pub proof fn law_sacrifice_land_protection_is_asked(
    kind: DecisionKind,
    features: DeckFeatures,
    state: GameState,
)
    ensures
        ({
            let policy = SacrificeLandProtectionPolicy;
            &&& policy.identity() == PolicyId::SacrificeLandProtection
            &&& policy.kinds().contains(kind) <==> kind is ActivateAbility
            &&& policy.weight(features, state) == Some(1_000_000int)
        }),
{
    let policy = SacrificeLandProtectionPolicy;
    assert(policy.kinds()[0] is ActivateAbility);
}

/// The sacrifice value policy is asked about abilities, and always counts
/// in full.
pub proof fn law_sacrifice_value_is_asked(
    kind: DecisionKind,
    features: DeckFeatures,
    state: GameState,
)
    ensures
        ({
            let policy = SacrificeValuePolicy;
            &&& policy.identity() == PolicyId::SacrificeValue
            &&& policy.kinds().contains(kind) <==> kind is ActivateAbility
            &&& policy.weight(features, state) == Some(1_000_000int)
        }),
{
    let policy = SacrificeValuePolicy;
    assert(policy.kinds()[0] is ActivateAbility);
}

/// The separate piles timing policy is asked about spells, and always
/// counts in full.
pub proof fn law_separate_piles_timing_is_asked(
    kind: DecisionKind,
    features: DeckFeatures,
    state: GameState,
)
    ensures
        ({
            let policy = SeparatePilesTimingPolicy;
            &&& policy.identity() == PolicyId::SeparatePilesTiming
            &&& policy.kinds().contains(kind) <==> kind is CastSpell
            &&& policy.weight(features, state) == Some(1_000_000int)
        }),
{
    let policy = SeparatePilesTimingPolicy;
    assert(policy.kinds()[0] is CastSpell);
}

/// The spellskite priority policy is asked about abilities, and always
/// counts in full.
pub proof fn law_spellskite_priority_is_asked(
    kind: DecisionKind,
    features: DeckFeatures,
    state: GameState,
)
    ensures
        ({
            let policy = SpellskitePriorityPolicy;
            &&& policy.identity() == PolicyId::SpellskitePriority
            &&& policy.kinds().contains(kind) <==> kind is ActivateAbility
            &&& policy.weight(features, state) == Some(1_000_000int)
        }),
{
    let policy = SpellskitePriorityPolicy;
    assert(policy.kinds()[0] is ActivateAbility);
}

} // verus!
