//! The colors that a land makes.

use phase_ai::mana_colors::{
    collect_mana_production_colors, demand_aware_single_color, land_produced_color_types,
    land_subtype_to_mana_type, mana_color_to_type,
};
use phase_ai::model::{
    AbilityDefinition, AbilityKind, ColorDemand, Effect, EffectKind, EffectPolarity, GameState,
    ManaColor, ManaProduction, ManaType, Phase, Player, PlayerId, WaitingFor,
};

fn state_with_demand(demand: Option<ColorDemand>) -> GameState {
    GameState {
        players: Vec::<Player>::new(),
        objects: Vec::new(),
        battlefield: Vec::new(),
        stack: Vec::new(),
        revealed_cards: Vec::new(),
        turn_number: 0,
        phase: Phase::PreCombatMain,
        active_player: PlayerId(0),
        turn_decision_maker: PlayerId(0),
        in_combat: false,
        waiting_for: WaitingFor::Priority { player: PlayerId(0) },
        pending_cast_demand: demand,
        pending_trigger: None,
        optional_effect: None,
        starting_life: 20,
        commander_damage_threshold: None,
        commander_headroom: Vec::new(),
        legal_blocks: Vec::new(),
    }
}

fn demand(blue: u32) -> Option<ColorDemand> {
    Some(ColorDemand { white: 0, blue, black: 0, red: 0, green: 0 })
}

#[test]
fn picks_demanded_blue_over_first_red() {
    let state = state_with_demand(demand(1));
    assert_eq!(
        demand_aware_single_color(&[ManaType::Red, ManaType::Blue], &state),
        Some(ManaType::Blue)
    );
}

#[test]
fn generic_only_cost_falls_back_to_first() {
    let state = state_with_demand(demand(0));
    assert_eq!(
        demand_aware_single_color(&[ManaType::Red, ManaType::Blue], &state),
        Some(ManaType::Red)
    );
}

#[test]
fn no_pending_cast_falls_back_to_first() {
    let state = state_with_demand(None);
    assert!(state.pending_cast_demand.is_none());
    assert_eq!(
        demand_aware_single_color(&[ManaType::Red, ManaType::Blue], &state),
        Some(ManaType::Red)
    );
}

#[test]
fn empty_options_returns_none() {
    let state = state_with_demand(demand(1));
    assert_eq!(demand_aware_single_color(&[], &state), None);
}

fn mana_ability(produced: ManaProduction) -> AbilityDefinition {
    AbilityDefinition {
        kind: AbilityKind::Activated,
        effect: Effect {
            kind: EffectKind::Mana { produced },
            polarity: EffectPolarity::Contextual,
            creature_target: None,
        },
        sub_ability: None,
        cost: None,
        ability_tag: None,
        is_mana_ability: true,
        proliferates: false,
        places_plus_one_counter: false,
        condition_currently_met: None,
        land_sacrifice_protection: None,
    }
}

#[test]
fn basic_land_types_make_their_color() {
    for (subtype, mana) in [
        ("Plains", Some(ManaType::White)),
        ("Island", Some(ManaType::Blue)),
        ("Swamp", Some(ManaType::Black)),
        ("Mountain", Some(ManaType::Red)),
        ("Forest", Some(ManaType::Green)),
        ("Desert", None),
    ] {
        assert_eq!(land_subtype_to_mana_type(&subtype.to_string()), mana);
    }
    assert_eq!(mana_color_to_type(ManaColor::Green), ManaType::Green);
}

#[test]
fn produced_colors_are_listed_once_in_order() {
    let subtypes = vec!["Island".to_string(), "Desert".to_string(), "Swamp".to_string()];
    let abilities = vec![
        mana_ability(ManaProduction::Fixed { colors: vec![ManaColor::Black, ManaColor::Red] }),
        mana_ability(ManaProduction::Colorless),
        mana_ability(ManaProduction::ChoiceAmongCombinations {
            options: vec![vec![ManaColor::Red], vec![ManaColor::Green, ManaColor::Blue]],
        }),
    ];
    assert_eq!(
        land_produced_color_types(&subtypes, &abilities),
        vec![ManaType::Blue, ManaType::Black, ManaType::Red, ManaType::Green]
    );
}

#[test]
fn collected_colors_are_added_to_what_is_there() {
    let mut colors = vec![ManaType::Red];
    collect_mana_production_colors(
        &mut colors,
        &ManaProduction::AnyOneColor { color_options: vec![ManaColor::Red, ManaColor::White] },
    );
    assert_eq!(colors, vec![ManaType::Red, ManaType::White]);
    collect_mana_production_colors(&mut colors, &ManaProduction::OpponentLandColors);
    assert_eq!(colors, vec![ManaType::Red, ManaType::White]);
}

#[test]
fn only_listed_colors_are_produced() {
    let subtypes = vec!["Forest".to_string(), "Gate".to_string()];
    let mut triggered = mana_ability(ManaProduction::Fixed { colors: vec![ManaColor::Black] });
    triggered.kind = AbilityKind::Triggered;
    let abilities = vec![
        mana_ability(ManaProduction::AnyOneColor { color_options: vec![ManaColor::Red] }),
        mana_ability(ManaProduction::ChosenColor),
        triggered,
    ];
    let produced = land_produced_color_types(&subtypes, &abilities);
    assert!(produced.contains(&ManaType::Green));
    assert!(produced.contains(&ManaType::Red));
    assert!(!produced.contains(&ManaType::Black));
    assert!(!produced.contains(&ManaType::White));
    assert_eq!(produced.len(), 2);
}
