//! +1/+1 counters: what makes them, doubles them and profits from them.

use vstd::prelude::*;

use crate::board;
use crate::features::DeckFeatures;
use crate::model::{
    AbilityDefinition, CoreType, CounterPile, CounterType, Effect, EffectKind, GameAction,
    GameObject, GameState, ObjectId, PlayerId, ReplacementDefinition, StackEntry, Zone,
};
use crate::seqs;
use crate::text::same_text;

use super::context;
use super::context::{any_effect, collect_ability_effects, PolicyContext};
use super::registry;
use super::registry::{
    DecisionKind, PolicyId, PolicyReason, PolicyVerdict, Ruling, TacticalPolicy,
};

verus! {

/// Times proliferating, putting counters, and casting what profits from them.
#[derive(Debug)]
pub struct PlusOneCountersPolicy;

/// Whether there are counters in a pile.
pub open spec fn not_empty() -> spec_fn(CounterPile) -> bool {
    |c: CounterPile| c.count > 0
}

/// Whether there are +1/+1 counters in a pile.
pub open spec fn plus_ones() -> spec_fn(CounterPile) -> bool {
    |c: CounterPile| c.counter_type == CounterType::Plus1Plus1 && c.count > 0
}

/// The permanents with counters on them, whoever controls them.
pub open spec fn bears_counters() -> spec_fn(GameObject) -> bool {
    |o: GameObject| o.zone == Zone::Battlefield && seqs::any(o.counters@, not_empty())
}

/// The creatures of a player on the battlefield.
pub open spec fn creature_in_play(player: PlayerId) -> spec_fn(GameObject) -> bool {
    |o: GameObject|
        o.controller == player && o.zone == Zone::Battlefield && o.has_type(CoreType::Creature)
}

/// The creatures of a player with +1/+1 counters on them.
pub open spec fn grown_creature(player: PlayerId) -> spec_fn(GameObject) -> bool {
    |o: GameObject| creature_in_play(player)(o) && seqs::any(o.counters@, plus_ones())
}

/// Whether a replacement effect changes how many +1/+1 counters are put.
pub open spec fn modifies() -> spec_fn(ReplacementDefinition) -> bool {
    |r: ReplacementDefinition| r.modifies_plus_one_counters
}

/// The permanents of a player that change how many +1/+1 counters are put.
pub open spec fn doubler(player: PlayerId) -> spec_fn(GameObject) -> bool {
    |o: GameObject|
        o.controller == player && o.zone == Zone::Battlefield && seqs::any(
            o.replacement_definitions@,
            modifies(),
        )
}

/// Whether an effect puts a +1/+1 counter.
pub open spec fn puts_plus_one() -> spec_fn(Effect) -> bool {
    |e: Effect|
        match e.kind {
            EffectKind::PutCounter { counter_type } => counter_type == CounterType::Plus1Plus1,
            _ => false,
        }
}

/// What on the stack puts a +1/+1 counter, anywhere in its chain.
pub open spec fn pending_counter() -> spec_fn(StackEntry) -> bool {
    |e: StackEntry|
        match e.ability {
            Some(a) => seqs::any(context::resolved_effects(a), puts_plus_one()),
            None => false,
        }
}

/// Whether a card is a payoff of a deck that is committed to counters.
pub open spec fn is_payoff(features: Option<DeckFeatures>, name: Seq<char>) -> bool {
    match features {
        Some(f) => f.plus_one_counters.commitment >= f.plus_one_counters.committed_value_floor
            && seqs::any(f.plus_one_counters.payoff_names@, |n: String| n@ == name),
        None => false,
    }
}

/// The source and the ability of a candidate: the first ability of a spell.
pub open spec fn ability_of(ctx: PolicyContext<'_>) -> Option<(GameObject, AbilityDefinition)> {
    let (id, index) = match ctx.candidate.action {
        GameAction::ActivateAbility { source_id, ability_index } => (
            Some(source_id),
            ability_index as int,
        ),
        GameAction::CastSpell { object_id, .. } => (Some(object_id), 0),
        _ => (None, 0),
    };
    match id {
        Some(id) => match ctx.state.obj(id) {
            Some(o) => if index < o.abilities@.len() {
                Some((o, o.abilities@[index]))
            } else {
                None
            },
            None => None,
        },
        None => None,
    }
}

/// What the policy says of an ability.
pub open spec fn counters_value(
    ctx: PolicyContext<'_>,
    object: GameObject,
    ability: AbilityDefinition,
) -> Ruling {
    let b = ctx.state.battlefield@;
    let bearing = board::count(*ctx.state, b, bears_counters());
    let creatures = board::count(*ctx.state, b, creature_in_play(ctx.ai_player));
    if ability.proliferates {
        if bearing > 0 {
            registry::scores(
                2_000_000,
                registry::because("proliferate_with_targets"@).fact(
                    "things_with_counters"@,
                    bearing as int,
                ),
            )
        } else {
            registry::scores(-1_500_000, registry::because("proliferate_no_targets"@))
        }
    } else if ability.places_plus_one_counter {
        if creatures > 0 {
            registry::scores(
                1_500_000,
                registry::because("counter_generator_with_targets"@).fact(
                    "creatures_on_board"@,
                    creatures as int,
                ),
            )
        } else {
            registry::scores(-800_000, registry::because("counter_generator_no_targets"@))
        }
    } else if board::any(*ctx.state, b, doubler(ctx.ai_player)) && seqs::any(
        ctx.state.stack@,
        pending_counter(),
    ) {
        registry::scores(1_200_000, registry::because("doubler_active_with_pending_counter"@))
    } else if is_payoff(ctx.context.session.deck(ctx.ai_player), object.name@) && board::any(
        *ctx.state,
        b,
        grown_creature(ctx.ai_player),
    ) {
        registry::scores(1_000_000, registry::because("payoff_with_active_counters"@))
    } else {
        registry::neutrally(registry::because("plus_one_counters_na"@))
    }
}

/// What the policy says of a candidate.
pub open spec fn plus_one_ruling(ctx: PolicyContext<'_>) -> Ruling {
    match ability_of(ctx) {
        Some((object, ability)) => counters_value(ctx, object, ability),
        None => registry::neutrally(registry::because("plus_one_counters_na"@)),
    }
}

/// How many permanents have counters on them.
fn count_permanents_with_counters(state: &GameState) -> (r: usize)
    ensures
        r == board::count(*state, state.battlefield@, bears_counters()),
        r <= state.battlefield@.len(),
{
    let accepts = |o: &GameObject| -> (b: bool)
        ensures
            b == bears_counters()(*o),
        {
            let positive = |c: &CounterPile| -> (p: bool)
                ensures
                    p == not_empty()(*c),
                { c.count > 0 };
            o.zone == Zone::Battlefield && seqs::any_of(&o.counters, positive, Ghost(not_empty()))
        };
    board::count_where(state, &state.battlefield, accepts, Ghost(bears_counters()))
}

/// How many creatures a player has on the battlefield.
fn count_creatures_on_board(state: &GameState, player: PlayerId) -> (r: usize)
    ensures
        r == board::count(*state, state.battlefield@, creature_in_play(player)),
        r <= state.battlefield@.len(),
{
    let accepts = |o: &GameObject| -> (b: bool)
        ensures
            b == creature_in_play(player)(*o),
        { o.controller == player && o.zone == Zone::Battlefield && o.is_type(CoreType::Creature) };
    board::count_where(state, &state.battlefield, accepts, Ghost(creature_in_play(player)))
}

/// Whether something on the stack puts a +1/+1 counter.
fn stack_has_pending_counter_effect(state: &GameState) -> (r: bool)
    ensures
        r == seqs::any(state.stack@, pending_counter()),
{
    let accepts = |e: &StackEntry| -> (b: bool)
        ensures
            b == pending_counter()(*e),
        {
            match &e.ability {
                Some(a) => {
                    let puts = |e: &Effect| -> (p: bool)
                        ensures
                            p == puts_plus_one()(*e),
                        {
                            match &e.kind {
                                EffectKind::PutCounter { counter_type } => *counter_type
                                    == CounterType::Plus1Plus1,
                                _ => false,
                            }
                        };
                    any_effect(&collect_ability_effects(a), puts, Ghost(puts_plus_one()))
                },
                None => false,
            }
        };
    seqs::any_of(&state.stack, accepts, Ghost(pending_counter()))
}

/// Whether a permanent of a player changes how many +1/+1 counters are put.
pub fn any_doubler_on_battlefield(state: &GameState, player: PlayerId) -> (r: bool)
    ensures
        r == board::any(*state, state.battlefield@, doubler(player)),
{
    let accepts = |o: &GameObject| -> (b: bool)
        ensures
            b == doubler(player)(*o),
        {
            let changes = |r: &ReplacementDefinition| -> (c: bool)
                ensures
                    c == modifies()(*r),
                { r.modifies_plus_one_counters };
            o.controller == player && o.zone == Zone::Battlefield && seqs::any_of(
                &o.replacement_definitions,
                changes,
                Ghost(modifies()),
            )
        };
    board::any_where(state, &state.battlefield, accepts, Ghost(doubler(player)))
}

/// Whether a creature of a player has a +1/+1 counter on it.
fn any_creature_with_p1p1_on_board(state: &GameState, player: PlayerId) -> (r: bool)
    ensures
        r == board::any(*state, state.battlefield@, grown_creature(player)),
{
    let accepts = |o: &GameObject| -> (b: bool)
        ensures
            b == grown_creature(player)(*o),
        {
            let grown = |c: &CounterPile| -> (p: bool)
                ensures
                    p == plus_ones()(*c),
                { c.counter_type == CounterType::Plus1Plus1 && c.count > 0 };
            o.controller == player && o.zone == Zone::Battlefield && o.is_type(CoreType::Creature)
                && seqs::any_of(&o.counters, grown, Ghost(plus_ones()))
        };
    board::any_where(state, &state.battlefield, accepts, Ghost(grown_creature(player)))
}

/// Whether a card is a payoff of the AI's deck.
fn is_committed_payoff(features: Option<&DeckFeatures>, name: &String) -> (r: bool)
    ensures
        r == is_payoff(crate::model::deref_opt(features), name@),
{
    let f = match features {
        Some(f) => f,
        None => return false,
    };
    let ghost q = |n: String| n@ == name@;
    let accepts = |n: &String| -> (b: bool)
        ensures
            b == (n@ == name@),
        { same_text(n.as_str(), name.as_str()) };
    f.plus_one_counters.commitment >= f.plus_one_counters.committed_value_floor && seqs::any_of(
        &f.plus_one_counters.payoff_names,
        accepts,
        Ghost(q),
    )
}

impl TacticalPolicy for PlusOneCountersPolicy {
    open spec fn identity(&self) -> PolicyId {
        PolicyId::PlusOneCountersTactical
    }

    open spec fn kinds(&self) -> Seq<DecisionKind> {
        seq![DecisionKind::CastSpell, DecisionKind::ActivateAbility]
    }

    open spec fn weight(&self, features: DeckFeatures, state: GameState) -> Option<int> {
        if features.plus_one_counters.commitment < features.plus_one_counters.commitment_floor {
            None
        } else {
            Some(features.plus_one_counters.commitment as int)
        }
    }

    open spec fn ruling(&self, ctx: PolicyContext<'_>) -> Ruling {
        plus_one_ruling(ctx)
    }

    fn id(&self) -> PolicyId {
        PolicyId::PlusOneCountersTactical
    }

    fn decision_kinds(&self) -> Vec<DecisionKind> {
        vec![DecisionKind::CastSpell, DecisionKind::ActivateAbility]
    }

    fn activation(
        &self,
        features: &DeckFeatures,
        _state: &GameState,
        _player: PlayerId,
    ) -> Option<i128> {
        if features.plus_one_counters.commitment < features.plus_one_counters.commitment_floor {
            None
        } else {
            Some(features.plus_one_counters.commitment as i128)
        }
    }

    fn verdict(&self, ctx: &PolicyContext<'_>) -> PolicyVerdict {
        let (source_id, ability_index): (ObjectId, usize) = match &ctx.candidate.action {
            GameAction::ActivateAbility { source_id, ability_index } => (
                *source_id,
                *ability_index,
            ),
            GameAction::CastSpell { object_id, .. } => (*object_id, 0),
            _ => return PolicyVerdict::neutral(PolicyReason::new("plus_one_counters_na")),
        };
        let object = match ctx.state.object(source_id) {
            Some(o) => o,
            None => return PolicyVerdict::neutral(PolicyReason::new("plus_one_counters_na")),
        };
        if ability_index >= object.abilities.len() {
            return PolicyVerdict::neutral(PolicyReason::new("plus_one_counters_na"));
        }
        let ability = &object.abilities[ability_index];
        if ability.proliferates {
            let things: usize = count_permanents_with_counters(ctx.state);
            if things > 0 {
                return PolicyVerdict::Score {
                    delta: 2_000_000,
                    reason: PolicyReason::new("proliferate_with_targets").with_fact(
                        "things_with_counters",
                        things as i64,
                    ),
                };
            }
            return PolicyVerdict::Score {
                delta: -1_500_000,
                reason: PolicyReason::new("proliferate_no_targets"),
            };
        }
        if ability.places_plus_one_counter {
            let creatures: usize = count_creatures_on_board(ctx.state, ctx.ai_player);
            if creatures > 0 {
                return PolicyVerdict::Score {
                    delta: 1_500_000,
                    reason: PolicyReason::new("counter_generator_with_targets").with_fact(
                        "creatures_on_board",
                        creatures as i64,
                    ),
                };
            }
            return PolicyVerdict::Score {
                delta: -800_000,
                reason: PolicyReason::new("counter_generator_no_targets"),
            };
        }
        if any_doubler_on_battlefield(ctx.state, ctx.ai_player) && stack_has_pending_counter_effect(
            ctx.state,
        ) {
            return PolicyVerdict::Score {
                delta: 1_200_000,
                reason: PolicyReason::new("doubler_active_with_pending_counter"),
            };
        }
        let features = ctx.context.session.features_of(ctx.ai_player);
        if is_committed_payoff(features, &object.name) && any_creature_with_p1p1_on_board(
            ctx.state,
            ctx.ai_player,
        ) {
            return PolicyVerdict::Score {
                delta: 1_000_000,
                reason: PolicyReason::new("payoff_with_active_counters"),
            };
        }
        PolicyVerdict::neutral(PolicyReason::new("plus_one_counters_na"))
    }
}

/// Proliferating is rewarded exactly where some permanent has counters, and
/// putting a counter exactly where the AI has a creature; without, they are
/// discouraged. An ability that proliferates is judged by that alone.
pub proof fn law_counters_need_something_to_count_on(
    ctx: PolicyContext<'_>,
    object: GameObject,
    ability: AbilityDefinition,
)
    requires
        ability_of(ctx) == Some((object, ability)),
    ensures
        ({
            let b = ctx.state.battlefield@;
            let bearing = exists|i: int|
                0 <= i < b.len() && (match ctx.state.obj(#[trigger] b[i]) {
                    Some(o) => o.zone is Battlefield && has_counters(o),
                    None => false,
                });
            let creature = exists|i: int|
                0 <= i < b.len() && (match ctx.state.obj(#[trigger] b[i]) {
                    Some(o) => o.controller == ctx.ai_player && o.zone is Battlefield
                        && o.core_types@.contains(CoreType::Creature),
                    None => false,
                });
            let worth = PlusOneCountersPolicy.ruling(ctx).worth();
            &&& ability.proliferates && bearing ==> worth == Some(2_000_000int)
            &&& ability.proliferates && !bearing ==> worth == Some(-1_500_000int)
            &&& !ability.proliferates && ability.places_plus_one_counter && creature ==> worth
                == Some(1_500_000int)
            &&& !ability.proliferates && ability.places_plus_one_counter && !creature ==> worth
                == Some(-800_000int)
        }),
{
    let b = ctx.state.battlefield@;
    board::law_any_is_a_count_above_zero(*ctx.state, b, bears_counters());
    board::law_any_is_a_count_above_zero(*ctx.state, b, creature_in_play(ctx.ai_player));
    assert forall|o: GameObject| #[trigger] has_counters(o) == seqs::any(
        o.counters@,
        not_empty(),
    ) by {
        let c = o.counters@;
        if seqs::any(c, not_empty()) {
            let i = choose|i: int| 0 <= i < c.len() && not_empty()(#[trigger] c[i]);
            assert(c[i].count > 0);
        }
        if has_counters(o) {
            let i = choose|i: int| 0 <= i < c.len() && (#[trigger] c[i]).count > 0;
            assert(not_empty()(c[i]));
        }
    }
    if exists|i: int|
        0 <= i < b.len() && (match ctx.state.obj(#[trigger] b[i]) {
            Some(o) => o.zone is Battlefield && has_counters(o),
            None => false,
        }) {
        let i = choose|i: int|
            0 <= i < b.len() && (match ctx.state.obj(#[trigger] b[i]) {
                Some(o) => o.zone is Battlefield && has_counters(o),
                None => false,
            });
        assert(bears_counters()(ctx.state.obj(b[i])->Some_0));
    }
    if board::any(*ctx.state, b, bears_counters()) {
        let i = choose|i: int|
            0 <= i < b.len() && (match ctx.state.obj(#[trigger] b[i]) {
                Some(o) => bears_counters()(o),
                None => false,
            });
        assert(has_counters(ctx.state.obj(b[i])->Some_0));
    }
    if board::any(*ctx.state, b, creature_in_play(ctx.ai_player)) {
        let i = choose|i: int|
            0 <= i < b.len() && (match ctx.state.obj(#[trigger] b[i]) {
                Some(o) => creature_in_play(ctx.ai_player)(o),
                None => false,
            });
        assert(ctx.state.obj(b[i]) is Some);
    }
    if exists|i: int|
        0 <= i < b.len() && (match ctx.state.obj(#[trigger] b[i]) {
            Some(o) => o.controller == ctx.ai_player && o.zone is Battlefield
                && o.core_types@.contains(CoreType::Creature),
            None => false,
        }) {
        let i = choose|i: int|
            0 <= i < b.len() && (match ctx.state.obj(#[trigger] b[i]) {
                Some(o) => o.controller == ctx.ai_player && o.zone is Battlefield
                    && o.core_types@.contains(CoreType::Creature),
                None => false,
            });
        assert(creature_in_play(ctx.ai_player)(ctx.state.obj(b[i])->Some_0));
    }
}

/// Whether an object has counters of any kind.
pub open spec fn has_counters(o: GameObject) -> bool {
    exists|i: int| 0 <= i < o.counters@.len() && (#[trigger] o.counters@[i]).count > 0
}

/// An ability that does neither is worth one and a fifth where the AI has a
/// doubler and a counter is on its way, else one where it comes with a payoff
/// of a committed deck and a creature of the AI has grown, else nothing.
pub proof fn law_doublers_before_payoffs(
    ctx: PolicyContext<'_>,
    object: GameObject,
    ability: AbilityDefinition,
)
    requires
        ability_of(ctx) == Some((object, ability)),
        !ability.proliferates,
        !ability.places_plus_one_counter,
    ensures
        ({
            let b = ctx.state.battlefield@;
            let doubles = board::any(*ctx.state, b, doubler(ctx.ai_player)) && seqs::any(
                ctx.state.stack@,
                pending_counter(),
            );
            let pays = is_payoff(ctx.context.session.deck(ctx.ai_player), object.name@)
                && board::any(*ctx.state, b, grown_creature(ctx.ai_player));
            let worth = PlusOneCountersPolicy.ruling(ctx).worth();
            &&& doubles ==> worth == Some(1_200_000int)
            &&& !doubles && pays ==> worth == Some(1_000_000int)
            &&& !doubles && !pays ==> worth == Some(0int)
        }),
{
}

/// What a doubler, a grown creature and a pending counter are.
pub proof fn law_counter_vocabulary(player: PlayerId, o: GameObject, e: StackEntry, k: int)
    ensures
        doubler(player)(o) ==> o.controller == player && o.zone is Battlefield
            && o.replacement_definitions@.len() > 0,
        0 <= k < o.replacement_definitions@.len() && o.controller == player && o.zone is Battlefield
            && o.replacement_definitions@[k].modifies_plus_one_counters ==> doubler(player)(o),
        grown_creature(player)(o) ==> o.controller == player && o.zone is Battlefield
            && o.core_types@.contains(CoreType::Creature) && o.counters@.len() > 0,
        0 <= k < o.counters@.len() && o.controller == player && o.zone is Battlefield
            && o.core_types@.contains(CoreType::Creature) && o.counters@[k].counter_type
            is Plus1Plus1 && o.counters@[k].count > 0 ==> grown_creature(player)(o),
        (forall|i: int|
            0 <= i < o.counters@.len() ==> !((#[trigger] o.counters@[i]).counter_type is Plus1Plus1
                && o.counters@[i].count > 0)) ==> !grown_creature(player)(o),
        e.ability is None ==> !pending_counter()(e),
        (e.ability matches Some(a) && a.effect.kind == (EffectKind::PutCounter {
            counter_type: CounterType::Plus1Plus1,
        })) ==> pending_counter()(e),
{
    if 0 <= k < o.replacement_definitions@.len() {
        if modifies()(o.replacement_definitions@[k]) {
            assert(seqs::any(o.replacement_definitions@, modifies()));
        }
    }
    if 0 <= k < o.counters@.len() {
        if plus_ones()(o.counters@[k]) {
            assert(seqs::any(o.counters@, plus_ones()));
        }
    }
    if let Some(a) = e.ability {
        let effects = context::resolved_effects(a);
        assert(effects[0] == a.effect);
        if puts_plus_one()(effects[0]) {
            assert(seqs::any(effects, puts_plus_one()));
        }
    }
}

/// A card is a payoff exactly where the deck is committed enough and names it.
pub proof fn law_payoffs_are_named(features: Option<DeckFeatures>, name: Seq<char>)
    ensures
        features is None ==> !is_payoff(features, name),
        features matches Some(f) ==> (is_payoff(features, name) <==> (
        f.plus_one_counters.commitment >= f.plus_one_counters.committed_value_floor && exists|
            i: int,
        |
            0 <= i < f.plus_one_counters.payoff_names@.len() && (
            #[trigger] f.plus_one_counters.payoff_names@[i])@ == name)),
{
    if let Some(f) = features {
        let names = f.plus_one_counters.payoff_names@;
        let q = |n: String| n@ == name;
        if seqs::any(names, q) {
            let i = choose|i: int| 0 <= i < names.len() && q(#[trigger] names[i]);
            assert(names[i]@ == name);
        }
        if exists|i: int| 0 <= i < names.len() && (#[trigger] names[i])@ == name {
            let i = choose|i: int| 0 <= i < names.len() && (#[trigger] names[i])@ == name;
            assert(q(names[i]));
        }
    }
}

/// The ability that is judged is the first of a spell or the one activated; an
/// action without one is left alone.
pub proof fn law_judged_ability(ctx: PolicyContext<'_>)
    ensures
        ability_of(ctx) is None ==> PlusOneCountersPolicy.ruling(ctx).worth() == Some(0int),
        match ctx.candidate.action {
            GameAction::CastSpell { object_id, .. } => match ctx.state.obj(object_id) {
                Some(o) => if o.abilities@.len() > 0 {
                    ability_of(ctx) == Some((o, o.abilities@[0]))
                } else {
                    ability_of(ctx) is None
                },
                None => ability_of(ctx) is None,
            },
            GameAction::ActivateAbility { source_id, ability_index } => match ctx.state.obj(
                source_id,
            ) {
                Some(o) => if (ability_index as int) < o.abilities@.len() {
                    ability_of(ctx) == Some((o, o.abilities@[ability_index as int]))
                } else {
                    ability_of(ctx) is None
                },
                None => ability_of(ctx) is None,
            },
            _ => ability_of(ctx) is None,
        },
{
}

/// What `any_doubler_on_battlefield` returns is whether a permanent of the
/// player there changes how many +1/+1 counters are put.
pub proof fn law_doublers_are_found(state: &GameState, player: PlayerId, r: bool)
    requires
        call_ensures(any_doubler_on_battlefield, (state, player), r),
    ensures
        r <==> exists|i: int|
            0 <= i < state.battlefield@.len() && (match state.obj(
                #[trigger] state.battlefield@[i],
            ) {
                Some(o) => doubler(player)(o),
                None => false,
            }),
{
    board::law_any_is_a_count_above_zero(*state, state.battlefield@, doubler(player));
}

/// A counter is on its way exactly where some effect of an entry's chain puts a
/// +1/+1 counter, and a doubler is exactly a permanent of the player with a
/// replacement that changes such counters.
pub proof fn law_pending_counters_and_doublers(e: StackEntry, player: PlayerId, o: GameObject)
    ensures
        pending_counter()(e) <==> (e.ability is Some && exists|i: int|
            0 <= i < context::resolved_effects(e.ability->Some_0).len() && (
            #[trigger] context::resolved_effects(e.ability->Some_0)[i]).kind == (
            EffectKind::PutCounter { counter_type: CounterType::Plus1Plus1 })),
        doubler(player)(o) <==> o.controller == player && o.zone is Battlefield && exists|i: int|
            0 <= i < o.replacement_definitions@.len() && (
            #[trigger] o.replacement_definitions@[i]).modifies_plus_one_counters,
{
    if let Some(a) = e.ability {
        let effects = context::resolved_effects(a);
        let put = EffectKind::PutCounter { counter_type: CounterType::Plus1Plus1 };
        if seqs::any(effects, puts_plus_one()) {
            let i = choose|i: int| 0 <= i < effects.len() && puts_plus_one()(#[trigger] effects[i]);
            assert(effects[i].kind == put);
        }
        if exists|i: int| 0 <= i < effects.len() && (#[trigger] effects[i]).kind == put {
            let i = choose|i: int| 0 <= i < effects.len() && (#[trigger] effects[i]).kind == put;
            assert(puts_plus_one()(effects[i]));
        }
    }
    let rs = o.replacement_definitions@;
    if seqs::any(rs, modifies()) {
        let i = choose|i: int| 0 <= i < rs.len() && modifies()(#[trigger] rs[i]);
        assert(rs[i].modifies_plus_one_counters);
    }
    if exists|i: int| 0 <= i < rs.len() && (#[trigger] rs[i]).modifies_plus_one_counters {
        let i = choose|i: int| 0 <= i < rs.len() && (#[trigger] rs[i]).modifies_plus_one_counters;
        assert(modifies()(rs[i]));
    }
}

/// A verdict for proliferating says how many permanents have counters, one for
/// putting a counter how many creatures there are.
pub proof fn law_counter_verdicts_say_why(ctx: PolicyContext<'_>)
    ensures
        ({
            let r = PlusOneCountersPolicy.ruling(ctx);
            let b = ctx.state.battlefield@;
            &&& r.worth() == Some(2_000_000int) ==> r.kind() == "proliferate_with_targets"@
                && r.facts() == seq![
                ("things_with_counters"@, board::count(*ctx.state, b, bears_counters()) as int),
            ]
            &&& r.worth() == Some(1_500_000int) ==> r.kind() == "counter_generator_with_targets"@
                && r.facts() == seq![
                (
                    "creatures_on_board"@,
                    board::count(*ctx.state, b, creature_in_play(ctx.ai_player)) as int,
                ),
            ]
            &&& r.worth() == Some(-1_500_000int) ==> r.kind() == "proliferate_no_targets"@
            &&& r.worth() == Some(-800_000int) ==> r.kind() == "counter_generator_no_targets"@
            &&& r.worth() == Some(1_200_000int) ==> r.kind()
                == "doubler_active_with_pending_counter"@
            &&& r.worth() == Some(1_000_000int) ==> r.kind() == "payoff_with_active_counters"@
        }),
{
}

} // verus!
