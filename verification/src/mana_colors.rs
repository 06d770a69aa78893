//! Which colors of mana a land can produce, and which to produce.

use vstd::prelude::*;

use crate::model::{
    AbilityDefinition, AbilityKind, ColorDemand, EffectKind, GameState, ManaColor, ManaProduction,
    ManaType,
};

verus! {

/// The mana of a color.
pub open spec fn mana_of(color: ManaColor) -> ManaType {
    match color {
        ManaColor::White => ManaType::White,
        ManaColor::Blue => ManaType::Blue,
        ManaColor::Black => ManaType::Black,
        ManaColor::Red => ManaType::Red,
        ManaColor::Green => ManaType::Green,
    }
}

/// The mana of a color.
pub fn mana_color_to_type(color: ManaColor) -> (r: ManaType)
    ensures
        r == mana_of(color),
{
    match color {
        ManaColor::White => ManaType::White,
        ManaColor::Blue => ManaType::Blue,
        ManaColor::Black => ManaType::Black,
        ManaColor::Red => ManaType::Red,
        ManaColor::Green => ManaType::Green,
    }
}

/// The mana that a basic land type makes.
pub open spec fn subtype_mana(subtype: Seq<char>) -> Option<ManaType> {
    if subtype == "Plains"@ {
        Some(ManaType::White)
    } else if subtype == "Island"@ {
        Some(ManaType::Blue)
    } else if subtype == "Swamp"@ {
        Some(ManaType::Black)
    } else if subtype == "Mountain"@ {
        Some(ManaType::Red)
    } else if subtype == "Forest"@ {
        Some(ManaType::Green)
    } else {
        None
    }
}

/// The mana that a basic land type makes.
pub fn land_subtype_to_mana_type(subtype: &String) -> (r: Option<ManaType>)
    ensures
        r == subtype_mana(subtype@),
{
    if *subtype == "Plains".to_owned() {
        Some(ManaType::White)
    } else if *subtype == "Island".to_owned() {
        Some(ManaType::Blue)
    } else if *subtype == "Swamp".to_owned() {
        Some(ManaType::Black)
    } else if *subtype == "Mountain".to_owned() {
        Some(ManaType::Red)
    } else if *subtype == "Forest".to_owned() {
        Some(ManaType::Green)
    } else {
        None
    }
}

/// `colors` with one more type of mana, unless it is colorless or there
/// already.
pub open spec fn with_color(colors: Seq<ManaType>, t: ManaType) -> Seq<ManaType> {
    if t == ManaType::Colorless || colors.contains(t) {
        colors
    } else {
        colors.push(t)
    }
}

/// `colors` with the mana of `more`, in order.
pub open spec fn with_colors(colors: Seq<ManaType>, more: Seq<ManaColor>) -> Seq<ManaType>
    decreases more.len(),
{
    if more.len() == 0 {
        colors
    } else {
        with_color(with_colors(colors, more.drop_last()), mana_of(more.last()))
    }
}

/// `colors` with the mana of each combination, in order.
pub open spec fn with_combinations(
    colors: Seq<ManaType>,
    options: Seq<Vec<ManaColor>>,
) -> Seq<ManaType>
    decreases options.len(),
{
    if options.len() == 0 {
        colors
    } else {
        with_colors(with_combinations(colors, options.drop_last()), options.last()@)
    }
}

/// `colors` with the mana that a production is known to add. Productions whose
/// colors depend on the game add nothing.
pub open spec fn with_production(colors: Seq<ManaType>, p: ManaProduction) -> Seq<ManaType> {
    match p {
        ManaProduction::Fixed { colors: more } => with_colors(colors, more@),
        ManaProduction::Mixed { colors: more } => with_colors(colors, more@),
        ManaProduction::AnyOneColor { color_options } => with_colors(colors, color_options@),
        ManaProduction::AnyCombination { color_options } => with_colors(colors, color_options@),
        ManaProduction::ChoiceAmongCombinations { options } => with_combinations(
            colors,
            options@,
        ),
        _ => colors,
    }
}

/// `colors` with the mana of each basic land type, in order.
pub open spec fn with_subtypes(colors: Seq<ManaType>, subtypes: Seq<String>) -> Seq<ManaType>
    decreases subtypes.len(),
{
    if subtypes.len() == 0 {
        colors
    } else {
        let rest = with_subtypes(colors, subtypes.drop_last());
        match subtype_mana(subtypes.last()@) {
            Some(t) => with_color(rest, t),
            None => rest,
        }
    }
}

/// `colors` with the mana of each activated mana ability, in order.
pub open spec fn with_abilities(
    colors: Seq<ManaType>,
    abilities: Seq<AbilityDefinition>,
) -> Seq<ManaType>
    decreases abilities.len(),
{
    if abilities.len() == 0 {
        colors
    } else {
        let rest = with_abilities(colors, abilities.drop_last());
        let last = abilities.last();
        match last.effect.kind {
            EffectKind::Mana { produced } => if last.kind == AbilityKind::Activated {
                with_production(rest, produced)
            } else {
                rest
            },
            _ => rest,
        }
    }
}

/// The colored mana that a land with the given types and abilities can
/// produce.
pub open spec fn produced_colors(
    subtypes: Seq<String>,
    abilities: Seq<AbilityDefinition>,
) -> Seq<ManaType> {
    with_abilities(with_subtypes(Seq::empty(), subtypes), abilities)
}

/// Whether `colors` lists colored mana, each type once.
pub open spec fn distinct_colors(colors: Seq<ManaType>) -> bool {
    colors.no_duplicates() && !colors.contains(ManaType::Colorless)
}

proof fn lemma_with_color(colors: Seq<ManaType>, t: ManaType)
    requires
        distinct_colors(colors),
    ensures
        distinct_colors(with_color(colors, t)),
{
    let r = with_color(colors, t);
    if r.contains(ManaType::Colorless) {
        let i = r.index_of(ManaType::Colorless);
        assert(r[i] == ManaType::Colorless);
        if i < colors.len() {
            assert(colors[i] == ManaType::Colorless);
        }
    }
    assert(distinct_colors(r));
}

proof fn lemma_with_colors(colors: Seq<ManaType>, more: Seq<ManaColor>)
    requires
        distinct_colors(colors),
    ensures
        distinct_colors(with_colors(colors, more)),
    decreases more.len(),
{
    if more.len() > 0 {
        lemma_with_colors(colors, more.drop_last());
        lemma_with_color(with_colors(colors, more.drop_last()), mana_of(more.last()));
    }
}

proof fn lemma_with_combinations(colors: Seq<ManaType>, options: Seq<Vec<ManaColor>>)
    requires
        distinct_colors(colors),
    ensures
        distinct_colors(with_combinations(colors, options)),
    decreases options.len(),
{
    if options.len() > 0 {
        lemma_with_combinations(colors, options.drop_last());
        lemma_with_colors(with_combinations(colors, options.drop_last()), options.last()@);
    }
}

proof fn lemma_with_production(colors: Seq<ManaType>, p: ManaProduction)
    requires
        distinct_colors(colors),
    ensures
        distinct_colors(with_production(colors, p)),
{
    match p {
        ManaProduction::Fixed { colors: more } => lemma_with_colors(colors, more@),
        ManaProduction::Mixed { colors: more } => lemma_with_colors(colors, more@),
        ManaProduction::AnyOneColor { color_options } => lemma_with_colors(colors, color_options@),
        ManaProduction::AnyCombination { color_options } => lemma_with_colors(
            colors,
            color_options@,
        ),
        ManaProduction::ChoiceAmongCombinations { options } => lemma_with_combinations(
            colors,
            options@,
        ),
        _ => {},
    }
}

proof fn lemma_with_subtypes(colors: Seq<ManaType>, subtypes: Seq<String>)
    requires
        distinct_colors(colors),
    ensures
        distinct_colors(with_subtypes(colors, subtypes)),
    decreases subtypes.len(),
{
    if subtypes.len() > 0 {
        lemma_with_subtypes(colors, subtypes.drop_last());
        if let Some(t) = subtype_mana(subtypes.last()@) {
            lemma_with_color(with_subtypes(colors, subtypes.drop_last()), t);
        }
    }
}

proof fn lemma_with_abilities(colors: Seq<ManaType>, abilities: Seq<AbilityDefinition>)
    requires
        distinct_colors(colors),
    ensures
        distinct_colors(with_abilities(colors, abilities)),
    decreases abilities.len(),
{
    if abilities.len() > 0 {
        lemma_with_abilities(colors, abilities.drop_last());
        if let EffectKind::Mana { produced } = abilities.last().effect.kind {
            lemma_with_production(with_abilities(colors, abilities.drop_last()), produced);
        }
    }
}

/// A land's colors are listed once each and colorless never counts, so that
/// the length of the list is the number of colors.
pub proof fn law_produced_colors_are_distinct(
    subtypes: Seq<String>,
    abilities: Seq<AbilityDefinition>,
)
    ensures
        distinct_colors(produced_colors(subtypes, abilities)),
{
    lemma_with_subtypes(Seq::empty(), subtypes);
    lemma_with_abilities(with_subtypes(Seq::empty(), subtypes), abilities);
}

/// Whether one of `colors` makes mana of type `t`.
pub open spec fn lists_color(colors: Seq<ManaColor>, t: ManaType) -> bool {
    exists|i: int| 0 <= i < colors.len() && mana_of(#[trigger] colors[i]) == t
}

/// Whether one of `options` makes mana of type `t`.
pub open spec fn lists_among(options: Seq<Vec<ManaColor>>, t: ManaType) -> bool {
    exists|i: int| 0 <= i < options.len() && lists_color((#[trigger] options[i])@, t)
}

/// Whether a production is known to add mana of type `t`.
pub open spec fn production_lists(p: ManaProduction, t: ManaType) -> bool {
    match p {
        ManaProduction::Fixed { colors } => lists_color(colors@, t),
        ManaProduction::Mixed { colors } => lists_color(colors@, t),
        ManaProduction::AnyOneColor { color_options } => lists_color(color_options@, t),
        ManaProduction::AnyCombination { color_options } => lists_color(color_options@, t),
        ManaProduction::ChoiceAmongCombinations { options } => lists_among(options@, t),
        _ => false,
    }
}

/// Whether one of `subtypes` makes mana of type `t`.
pub open spec fn subtypes_list(subtypes: Seq<String>, t: ManaType) -> bool {
    exists|i: int| 0 <= i < subtypes.len() && subtype_mana((#[trigger] subtypes[i])@) == Some(t)
}

/// Whether an ability is an activated one that is known to add mana of type
/// `t`.
pub open spec fn ability_lists(a: AbilityDefinition, t: ManaType) -> bool {
    a.kind == AbilityKind::Activated && match a.effect.kind {
        EffectKind::Mana { produced } => production_lists(produced, t),
        _ => false,
    }
}

/// Whether one of `abilities` is an activated one that is known to add mana of
/// type `t`.
pub open spec fn abilities_list(abilities: Seq<AbilityDefinition>, t: ManaType) -> bool {
    exists|i: int| 0 <= i < abilities.len() && ability_lists(#[trigger] abilities[i], t)
}

proof fn lemma_color_is_added(colors: Seq<ManaType>, more: ManaType, t: ManaType)
    requires
        more != ManaType::Colorless,
    ensures
        with_color(colors, more).contains(t) == (colors.contains(t) || more == t),
{
    let r = with_color(colors, more);
    if !colors.contains(more) {
        assert(r[colors.len() as int] == more);
        if colors.contains(t) {
            assert(r[colors.index_of(t)] == t);
        }
        if r.contains(t) {
            let i = r.index_of(t);
            if i < colors.len() {
                assert(colors[i] == t);
            }
        }
    }
}

proof fn lemma_colors_are_added(colors: Seq<ManaType>, more: Seq<ManaColor>, t: ManaType)
    ensures
        with_colors(colors, more).contains(t) == (colors.contains(t) || lists_color(more, t)),
    decreases more.len(),
{
    if more.len() > 0 {
        let d = more.drop_last();
        lemma_colors_are_added(colors, d, t);
        lemma_color_is_added(with_colors(colors, d), mana_of(more.last()), t);
        if lists_color(d, t) {
            let i = choose|i: int| 0 <= i < d.len() && mana_of(#[trigger] d[i]) == t;
            assert(mana_of(more[i]) == t);
        }
        if lists_color(more, t) && mana_of(more.last()) != t {
            let i = choose|i: int| 0 <= i < more.len() && mana_of(#[trigger] more[i]) == t;
            assert(mana_of(d[i]) == t);
        }
        if mana_of(more.last()) == t {
            assert(mana_of(more[more.len() - 1]) == t);
        }
    }
}

proof fn lemma_combinations_are_added(
    colors: Seq<ManaType>,
    options: Seq<Vec<ManaColor>>,
    t: ManaType,
)
    ensures
        with_combinations(colors, options).contains(t) == (colors.contains(t) || lists_among(
            options,
            t,
        )),
    decreases options.len(),
{
    if options.len() > 0 {
        let d = options.drop_last();
        lemma_combinations_are_added(colors, d, t);
        lemma_colors_are_added(with_combinations(colors, d), options.last()@, t);
        if lists_among(d, t) {
            let i = choose|i: int| 0 <= i < d.len() && lists_color((#[trigger] d[i])@, t);
            assert(lists_color(options[i]@, t));
        }
        if lists_among(options, t) && !lists_color(options.last()@, t) {
            let i = choose|i: int|
                0 <= i < options.len() && lists_color((#[trigger] options[i])@, t);
            assert(lists_color(d[i]@, t));
        }
        if lists_color(options.last()@, t) {
            assert(lists_color(options[options.len() - 1]@, t));
        }
    }
}

proof fn lemma_production_is_added(colors: Seq<ManaType>, p: ManaProduction, t: ManaType)
    ensures
        with_production(colors, p).contains(t) == (colors.contains(t) || production_lists(p, t)),
{
    match p {
        ManaProduction::Fixed { colors: more } => lemma_colors_are_added(colors, more@, t),
        ManaProduction::Mixed { colors: more } => lemma_colors_are_added(colors, more@, t),
        ManaProduction::AnyOneColor { color_options } => lemma_colors_are_added(
            colors,
            color_options@,
            t,
        ),
        ManaProduction::AnyCombination { color_options } => lemma_colors_are_added(
            colors,
            color_options@,
            t,
        ),
        ManaProduction::ChoiceAmongCombinations { options } => lemma_combinations_are_added(
            colors,
            options@,
            t,
        ),
        _ => {},
    }
}

proof fn lemma_subtypes_are_added(colors: Seq<ManaType>, subtypes: Seq<String>, t: ManaType)
    ensures
        with_subtypes(colors, subtypes).contains(t) == (colors.contains(t) || subtypes_list(
            subtypes,
            t,
        )),
    decreases subtypes.len(),
{
    if subtypes.len() > 0 {
        let d = subtypes.drop_last();
        lemma_subtypes_are_added(colors, d, t);
        let last = subtype_mana(subtypes.last()@);
        if let Some(more) = last {
            lemma_color_is_added(with_subtypes(colors, d), more, t);
        }
        if subtypes_list(d, t) {
            let i = choose|i: int|
                0 <= i < d.len() && subtype_mana((#[trigger] d[i])@) == Some(t);
            assert(subtype_mana(subtypes[i]@) == Some(t));
        }
        if subtypes_list(subtypes, t) && last != Some(t) {
            let i = choose|i: int|
                0 <= i < subtypes.len() && subtype_mana((#[trigger] subtypes[i])@) == Some(t);
            assert(subtype_mana(d[i]@) == Some(t));
        }
        if last == Some(t) {
            assert(subtype_mana(subtypes[subtypes.len() - 1]@) == Some(t));
        }
    }
}

proof fn lemma_abilities_are_added(
    colors: Seq<ManaType>,
    abilities: Seq<AbilityDefinition>,
    t: ManaType,
)
    ensures
        with_abilities(colors, abilities).contains(t) == (colors.contains(t) || abilities_list(
            abilities,
            t,
        )),
    decreases abilities.len(),
{
    if abilities.len() > 0 {
        let d = abilities.drop_last();
        let last = abilities.last();
        lemma_abilities_are_added(colors, d, t);
        if let EffectKind::Mana { produced } = last.effect.kind {
            lemma_production_is_added(with_abilities(colors, d), produced, t);
        }
        if abilities_list(d, t) {
            let i = choose|i: int| 0 <= i < d.len() && ability_lists(#[trigger] d[i], t);
            assert(ability_lists(abilities[i], t));
        }
        if abilities_list(abilities, t) && !ability_lists(last, t) {
            let i = choose|i: int|
                0 <= i < abilities.len() && ability_lists(#[trigger] abilities[i], t);
            assert(ability_lists(d[i], t));
        }
        if ability_lists(last, t) {
            assert(ability_lists(abilities[abilities.len() - 1], t));
        }
    }
}

/// A land produces a color exactly where one of its basic land types makes it,
/// or one of its activated mana abilities is known to add it.
pub proof fn law_produced_colors_are_those_listed(
    subtypes: Seq<String>,
    abilities: Seq<AbilityDefinition>,
    t: ManaType,
)
    ensures
        produced_colors(subtypes, abilities).contains(t) == (subtypes_list(subtypes, t)
            || abilities_list(abilities, t)),
{
    lemma_subtypes_are_added(Seq::empty(), subtypes, t);
    lemma_abilities_are_added(with_subtypes(Seq::empty(), subtypes), abilities, t);
}

/// Adds a type of mana to `colors`, unless it is colorless or there already.
fn push_color(colors: &mut Vec<ManaType>, mana_type: ManaType)
    ensures
        final(colors)@ == with_color(old(colors)@, mana_type),
{
    if mana_type == ManaType::Colorless {
        return;
    }
    let mut i: usize = 0;
    while i < colors.len()
        invariant
            i <= colors.len(),
            colors@ == old(colors)@,
            mana_type != ManaType::Colorless,
            forall|j: int| 0 <= j < i ==> colors[j] != mana_type,
        decreases colors.len() - i,
    {
        if colors[i] == mana_type {
            assert(colors@[i as int] == mana_type);
            return;
        }
        i += 1;
    }
    assert(!colors@.contains(mana_type));
    colors.push(mana_type);
}

/// Adds the mana of `more` to `colors`.
fn push_colors(colors: &mut Vec<ManaType>, more: &Vec<ManaColor>)
    ensures
        final(colors)@ == with_colors(old(colors)@, more@),
{
    let mut i: usize = 0;
    while i < more.len()
        invariant
            i <= more.len(),
            colors@ == with_colors(old(colors)@, more@.take(i as int)),
        decreases more.len() - i,
    {
        assert(more@.take(i + 1).drop_last() =~= more@.take(i as int));
        push_color(colors, mana_color_to_type(more[i]));
        i += 1;
    }
    assert(more@.take(more.len() as int) =~= more@);
}

/// Adds the mana that a production is known to add to `colors`.
pub fn collect_mana_production_colors(colors: &mut Vec<ManaType>, produced: &ManaProduction)
    ensures
        final(colors)@ == with_production(old(colors)@, *produced),
{
    match produced {
        ManaProduction::Fixed { colors: more } => push_colors(colors, more),
        ManaProduction::Mixed { colors: more } => push_colors(colors, more),
        ManaProduction::AnyOneColor { color_options } => push_colors(colors, color_options),
        ManaProduction::AnyCombination { color_options } => push_colors(colors, color_options),
        ManaProduction::ChoiceAmongCombinations { options } => {
            let mut i: usize = 0;
            while i < options.len()
                invariant
                    i <= options.len(),
                    colors@ == with_combinations(old(colors)@, options@.take(i as int)),
                decreases options.len() - i,
            {
                assert(options@.take(i + 1).drop_last() =~= options@.take(i as int));
                push_colors(colors, &options[i]);
                i += 1;
            }
            assert(options@.take(options.len() as int) =~= options@);
        },
        _ => {},
    }
}

/// The colored mana that a land can produce: that of its basic land types, and
/// that of its activated mana abilities. Two or more make it a fixing land.
pub fn land_produced_color_types(
    subtypes: &[String],
    abilities: &[AbilityDefinition],
) -> (r: Vec<ManaType>)
    ensures
        r@ == produced_colors(subtypes@, abilities@),
{
    let mut colors: Vec<ManaType> = Vec::new();
    let mut i: usize = 0;
    while i < subtypes.len()
        invariant
            i <= subtypes@.len(),
            colors@ == with_subtypes(Seq::empty(), subtypes@.take(i as int)),
        decreases subtypes@.len() - i,
    {
        assert(subtypes@.take(i + 1).drop_last() =~= subtypes@.take(i as int));
        if let Some(mana_type) = land_subtype_to_mana_type(&subtypes[i]) {
            push_color(&mut colors, mana_type);
        }
        i += 1;
    }
    assert(subtypes@.take(subtypes@.len() as int) =~= subtypes@);
    let ghost typed = colors@;
    let mut i: usize = 0;
    while i < abilities.len()
        invariant
            i <= abilities@.len(),
            colors@ == with_abilities(typed, abilities@.take(i as int)),
        decreases abilities@.len() - i,
    {
        assert(abilities@.take(i + 1).drop_last() =~= abilities@.take(i as int));
        let ability = &abilities[i];
        if ability.kind == AbilityKind::Activated {
            if let EffectKind::Mana { produced } = &ability.effect.kind {
                collect_mana_production_colors(&mut colors, produced);
            }
        }
        i += 1;
    }
    assert(abilities@.take(abilities@.len() as int) =~= abilities@);
    colors
}

/// Whether the spell being cast asks for a color of mana. Colorless mana never
/// pays for a colored pip.
pub open spec fn demanded(demand: Option<ColorDemand>, t: ManaType) -> bool {
    match demand {
        None => false,
        Some(d) => match t {
            ManaType::White => d.white > 0,
            ManaType::Blue => d.blue > 0,
            ManaType::Black => d.black > 0,
            ManaType::Red => d.red > 0,
            ManaType::Green => d.green > 0,
            ManaType::Colorless => false,
        },
    }
}

/// The first option that is asked for.
pub open spec fn first_demanded(
    options: Seq<ManaType>,
    demand: Option<ColorDemand>,
) -> Option<ManaType>
    decreases options.len(),
{
    if options.len() == 0 {
        None
    } else if demanded(demand, options[0]) {
        Some(options[0])
    } else {
        first_demanded(options.drop_first(), demand)
    }
}

/// The color to produce: the first option that the spell being cast asks for,
/// else the first option.
pub open spec fn best_color(
    options: Seq<ManaType>,
    demand: Option<ColorDemand>,
) -> Option<ManaType> {
    match first_demanded(options, demand) {
        Some(t) => Some(t),
        None => if options.len() > 0 {
            Some(options[0])
        } else {
            None
        },
    }
}

/// Whether the spell being cast asks for a color of mana.
fn is_demanded(demand: Option<ColorDemand>, t: ManaType) -> (r: bool)
    ensures
        r == demanded(demand, t),
{
    match demand {
        None => false,
        Some(d) => match t {
            ManaType::White => d.white > 0,
            ManaType::Blue => d.blue > 0,
            ManaType::Black => d.black > 0,
            ManaType::Red => d.red > 0,
            ManaType::Green => d.green > 0,
            ManaType::Colorless => false,
        },
    }
}

/// Which of the offered colors a flexible source should produce.
pub fn demand_aware_single_color(options: &[ManaType], state: &GameState) -> (r: Option<ManaType>)
    ensures
        r == best_color(options@, state.pending_cast_demand),
{
    let demand = state.pending_cast_demand;
    let mut i: usize = 0;
    assert(options@.skip(0) =~= options@);
    while i < options.len()
        invariant
            demand == state.pending_cast_demand,
            i <= options@.len(),
            first_demanded(options@.skip(i as int), demand) == first_demanded(options@, demand),
        decreases options@.len() - i,
    {
        assert(options@.skip(i as int).drop_first() =~= options@.skip(i + 1));
        if is_demanded(demand, options[i]) {
            return Some(options[i]);
        }
        i += 1;
    }
    if options.len() > 0 {
        Some(options[0])
    } else {
        None
    }
}

proof fn lemma_first_demanded(options: Seq<ManaType>, demand: Option<ColorDemand>)
    ensures
        match first_demanded(options, demand) {
            Some(t) => options.contains(t) && demanded(demand, t),
            None => forall|i: int|
                0 <= i < options.len() ==> !demanded(demand, #[trigger] options[i]),
        },
    decreases options.len(),
{
    if options.len() > 0 {
        let rest = options.drop_first();
        lemma_first_demanded(rest, demand);
        if demanded(demand, options[0]) {
            assert(options.contains(options[0]));
        } else {
            match first_demanded(rest, demand) {
                Some(t) => {
                    let i = rest.index_of(t);
                    assert(options[i + 1] == t);
                },
                None => {
                    assert forall|i: int| 0 <= i < options.len() implies !demanded(
                        demand,
                        #[trigger] options[i],
                    ) by {
                        if i > 0 {
                            assert(rest[i - 1] == options[i]);
                        }
                    }
                },
            }
        }
    }
}

/// The chosen color is always one that was offered, and it is one that the
/// spell asks for whenever such a color is on offer.
pub proof fn law_demanded_color_is_produced(options: Seq<ManaType>, demand: Option<ColorDemand>)
    ensures
        best_color(options, demand) is Some == (options.len() > 0),
        best_color(options, demand) matches Some(t) ==> options.contains(t),
        (exists|i: int| 0 <= i < options.len() && demanded(demand, #[trigger] options[i])) ==> (
        best_color(options, demand) matches Some(t) && demanded(demand, t)),
{
    lemma_first_demanded(options, demand);
    if options.len() > 0 {
        assert(options.contains(options[0]));
    }
}

/// A color makes the mana of its name, and never colorless mana.
pub proof fn law_colors_make_their_mana(color: ManaColor, r: ManaType)
    requires
        call_ensures(mana_color_to_type, (color,), r),
    ensures
        color is White <==> r is White,
        color is Blue <==> r is Blue,
        color is Black <==> r is Black,
        color is Red <==> r is Red,
        color is Green <==> r is Green,
        !(r is Colorless),
{
}

/// Each basic land type makes one color, and nothing else makes any.
pub proof fn law_basic_land_types_make_one_color(subtype: &String, r: Option<ManaType>)
    requires
        call_ensures(land_subtype_to_mana_type, (subtype,), r),
    ensures
        r == Some(ManaType::White) <==> subtype@ == "Plains"@,
        r == Some(ManaType::Blue) <==> subtype@ == "Island"@,
        r == Some(ManaType::Black) <==> subtype@ == "Swamp"@,
        r == Some(ManaType::Red) <==> subtype@ == "Mountain"@,
        r == Some(ManaType::Green) <==> subtype@ == "Forest"@,
        r != Some(ManaType::Colorless),
{
    reveal_strlit("Plains");
    reveal_strlit("Island");
    reveal_strlit("Swamp");
    reveal_strlit("Mountain");
    reveal_strlit("Forest");
    assert("Plains"@[0] == 'P');
    assert("Island"@[0] == 'I');
    assert("Forest"@[0] == 'F');
    assert("Swamp"@.len() == 5);
    assert("Mountain"@.len() == 8);
}

/// What `land_produced_color_types` returns lists a color exactly where a basic
/// land type or an activated mana ability makes it, each once, and never
/// colorless mana.
pub proof fn law_lands_list_what_they_make(
    subtypes: &[String],
    abilities: &[AbilityDefinition],
    r: Vec<ManaType>,
    t: ManaType,
)
    requires
        call_ensures(land_produced_color_types, (subtypes, abilities), r),
    ensures
        r@.contains(t) <==> subtypes_list(subtypes@, t) || abilities_list(abilities@, t),
        r@.no_duplicates(),
        !r@.contains(ManaType::Colorless),
{
    law_produced_colors_are_those_listed(subtypes@, abilities@, t);
    law_produced_colors_are_distinct(subtypes@, abilities@);
}

/// What `collect_mana_production_colors` adds are the colors that the
/// production lists; what was there stays.
pub proof fn law_productions_add_what_they_list(
    colors: &mut Vec<ManaType>,
    produced: &ManaProduction,
    t: ManaType,
)
    requires
        call_ensures(collect_mana_production_colors, (colors, produced), ()),
    ensures
        final(colors)@.contains(t) <==> old(colors)@.contains(t) || production_lists(*produced, t),
{
    lemma_production_is_added(old(colors)@, *produced, t);
}

/// A production lists the colors that it names; one whose colors depend on the
/// game lists none.
pub proof fn law_productions_list_their_colors(p: ManaProduction, t: ManaType, color: ManaColor)
    requires
        mana_of(color) == t,
    ensures
        match p {
            ManaProduction::Fixed { colors } => colors@.contains(color) ==> production_lists(p, t),
            ManaProduction::Mixed { colors } => colors@.contains(color) ==> production_lists(p, t),
            ManaProduction::AnyOneColor { color_options } => color_options@.contains(color)
                ==> production_lists(p, t),
            ManaProduction::AnyCombination { color_options } => color_options@.contains(color)
                ==> production_lists(p, t),
            ManaProduction::ChoiceAmongCombinations { options } => forall|i: int|
                0 <= i < options@.len() && (#[trigger] options@[i])@.contains(color)
                    ==> production_lists(p, t),
            _ => !production_lists(p, t),
        },
{
    match p {
        ManaProduction::Fixed { colors } => lemma_listed(colors@, color),
        ManaProduction::Mixed { colors } => lemma_listed(colors@, color),
        ManaProduction::AnyOneColor { color_options } => lemma_listed(color_options@, color),
        ManaProduction::AnyCombination { color_options } => lemma_listed(color_options@, color),
        ManaProduction::ChoiceAmongCombinations { options } => {
            assert forall|i: int|
                0 <= i < options@.len() && (#[trigger] options@[i])@.contains(
                    color,
                ) implies production_lists(p, t) by {
                lemma_listed(options@[i]@, color);
                assert(lists_color(options@[i]@, t));
            }
        },
        _ => {},
    }
}

/// A color that is there is listed.
proof fn lemma_listed(colors: Seq<ManaColor>, color: ManaColor)
    ensures
        colors.contains(color) ==> lists_color(colors, mana_of(color)),
{
    if colors.contains(color) {
        let i = choose|i: int| 0 <= i < colors.len() && colors[i] == color;
        assert(mana_of(colors[i]) == mana_of(color));
    }
}

/// A color is asked for exactly where the spell being cast has a pip of it;
/// colorless mana never is, and nothing is where no spell is being cast.
pub proof fn law_pips_ask_for_their_color(d: ColorDemand, t: ManaType)
    ensures
        demanded(Some(d), ManaType::White) <==> d.white > 0,
        demanded(Some(d), ManaType::Blue) <==> d.blue > 0,
        demanded(Some(d), ManaType::Black) <==> d.black > 0,
        demanded(Some(d), ManaType::Red) <==> d.red > 0,
        demanded(Some(d), ManaType::Green) <==> d.green > 0,
        !demanded(Some(d), ManaType::Colorless),
        !demanded(None, t),
{
}

/// What `demand_aware_single_color` returns is the first option that is asked
/// for, else the first option, and nothing only where there is no option.
pub proof fn law_first_demanded_option_is_produced(
    options: &[ManaType],
    state: &GameState,
    r: Option<ManaType>,
    n: int,
)
    requires
        call_ensures(demand_aware_single_color, (options, state), r),
        0 <= n <= options@.len(),
        forall|i: int|
            0 <= i < n ==> !demanded(state.pending_cast_demand, #[trigger] options@[i]),
    ensures
        n < options@.len() && demanded(state.pending_cast_demand, options@[n]) ==> r == Some(
            options@[n],
        ),
        n == options@.len() && n > 0 ==> r == Some(options@[0]),
        options@.len() == 0 <==> r is None,
{
    lemma_first_demanded_at(options@, state.pending_cast_demand, n);
}

/// Options that are not asked for are passed over.
proof fn lemma_first_demanded_at(
    options: Seq<ManaType>,
    demand: Option<ColorDemand>,
    n: int,
)
    requires
        0 <= n <= options.len(),
        forall|i: int| 0 <= i < n ==> !demanded(demand, #[trigger] options[i]),
    ensures
        n < options.len() && demanded(demand, options[n]) ==> first_demanded(options, demand)
            == Some(options[n]),
        n == options.len() ==> first_demanded(options, demand) is None,
    decreases n,
{
    if n > 0 {
        let rest = options.drop_first();
        assert(!demanded(demand, options[0]));
        assert forall|i: int| 0 <= i < n - 1 implies !demanded(demand, #[trigger] rest[i]) by {
            assert(rest[i] == options[i + 1]);
        }
        lemma_first_demanded_at(rest, demand, n - 1);
    }
}

} // verus!
