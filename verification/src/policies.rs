//! Tactical policies: each looks at one candidate action and says how much it
//! likes it.

pub mod registry;
pub mod context;
pub mod strategy_helpers;
pub mod activation;
pub mod anthem_priority;
pub mod blight_value;
pub mod condition_gated_activation;
pub mod control_change_awareness;
pub mod cycling_discipline;
pub mod fetch_land_patience;
pub mod hold_mana_up;
pub mod land_sequencing;
pub mod lethality_awareness;
pub mod life_total_resource;
pub mod loop_shortcut;
pub mod ramp_timing;
pub mod recursion_awareness;
pub mod sacrifice_land_protection;
pub mod sacrifice_value;
pub mod separate_piles_timing;
pub mod spellskite_priority;
pub mod combo_line;
pub mod plus_one_counters;
pub mod combat_tax;
pub mod hand_disruption;
pub mod effect_timing;
pub mod evasion_removal_priority;
pub mod asked;
