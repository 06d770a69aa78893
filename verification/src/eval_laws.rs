//! What holds of every board evaluation.

use vstd::prelude::*;

use crate::eval;
use crate::eval::{
    CombatTraits, EvalFeatures, EvalWeightSet, EvalWeights, EvaluationBreakdown, KeywordBonuses,
    StrategicIntent, LOSS_SCORE, WIN_SCORE,
};
use crate::model;
use crate::model::{CoreType, GameObject, GameState, Keyword, ObjectId, PlayerId, Zone};
use crate::score;
use crate::seqs;

verus! {

// ---------------------------------------------------------------------------
// Board totals
// ---------------------------------------------------------------------------

/// A permanent that enters the battlefield adds to the totals of its
/// controller alone: a creature one creature, its power and its toughness, and
/// anything else that is no land one other permanent.
pub proof fn law_permanent_adds_to_its_controller(
    before: GameState,
    after: GameState,
    id: ObjectId,
    p: PlayerId,
)
    requires
        after.objects@ == before.objects@,
        after.battlefield@ == before.battlefield@.push(id),
    ensures
        match before.obj(id) {
            Some(o) => {
                let creature = o.core_types@.contains(CoreType::Creature);
                let land = o.core_types@.contains(CoreType::Land);
                let power = match o.power {
                    Some(n) => n as int,
                    None => 0,
                };
                let toughness = match o.toughness {
                    Some(n) => n as int,
                    None => 0,
                };
                if o.controller == p && creature {
                    &&& eval::creature_count(after, p) == eval::creature_count(before, p) + 1
                    &&& eval::total_power(after, p) == eval::total_power(before, p) + power
                    &&& eval::total_toughness(after, p) == eval::total_toughness(before, p)
                        + toughness
                    &&& eval::other_permanent_count(after, p) == eval::other_permanent_count(
                        before,
                        p,
                    )
                } else {
                    &&& eval::creature_count(after, p) == eval::creature_count(before, p)
                    &&& eval::total_power(after, p) == eval::total_power(before, p)
                    &&& eval::total_toughness(after, p) == eval::total_toughness(before, p)
                    &&& eval::other_permanent_count(after, p) == eval::other_permanent_count(
                        before,
                        p,
                    ) + if o.controller == p && !land {
                        1int
                    } else {
                        0int
                    }
                }
            },
            None => {
                &&& eval::creature_count(after, p) == eval::creature_count(before, p)
                &&& eval::total_power(after, p) == eval::total_power(before, p)
                &&& eval::total_toughness(after, p) == eval::total_toughness(before, p)
                &&& eval::other_permanent_count(after, p) == eval::other_permanent_count(before, p)
            },
        },
{
    let b = before.battlefield@;
    assert(eval::creature_of(after, p) =~= eval::creature_of(before, p));
    assert(eval::power_of(after, p) =~= eval::power_of(before, p));
    assert(eval::toughness_of(after, p) =~= eval::toughness_of(before, p));
    assert(eval::other_permanent_of(after, p) =~= eval::other_permanent_of(before, p));
    seqs::lemma_count_push(b, id, eval::creature_of(before, p));
    seqs::lemma_sum_push(b, id, eval::power_of(before, p));
    seqs::lemma_sum_push(b, id, eval::toughness_of(before, p));
    seqs::lemma_count_push(b, id, eval::other_permanent_of(before, p));
}

/// Nobody has anything on an empty battlefield.
pub proof fn law_empty_battlefield_has_no_totals(state: GameState, p: PlayerId)
    requires
        state.battlefield@.len() == 0,
    ensures
        eval::creature_count(state, p) == 0,
        eval::total_power(state, p) == 0,
        eval::total_toughness(state, p) == 0,
        eval::other_permanent_count(state, p) == 0,
{
}

/// A player with no creature on the battlefield has no creatures, no power and
/// no toughness there.
pub proof fn law_no_creature_no_power(state: GameState, p: PlayerId)
    requires
        without_creatures(state, p),
    ensures
        eval::creature_count(state, p) == 0,
        eval::total_power(state, p) == 0,
        eval::total_toughness(state, p) == 0,
{
    let b = state.battlefield@;
    seqs::lemma_count_none(b, eval::creature_of(state, p));
    seqs::lemma_sum_none(b, eval::power_of(state, p));
    seqs::lemma_sum_none(b, eval::toughness_of(state, p));
}

/// Whether nothing on the battlefield is a creature that `p` controls.
pub open spec fn without_creatures(state: GameState, p: PlayerId) -> bool {
    forall|i: int|
        0 <= i < state.battlefield@.len() ==> (match state.obj(#[trigger] state.battlefield@[i]) {
            Some(o) => !(o.controller == p && o.core_types@.contains(CoreType::Creature)),
            None => true,
        })
}

/// Whether two positions have the same objects on the same battlefield, the
/// same starting life and the same commander damage.
pub open spec fn same_board(a: GameState, b: GameState) -> bool {
    &&& a.objects@ == b.objects@
    &&& a.battlefield@ == b.battlefield@
    &&& a.starting_life == b.starting_life
    &&& a.commander_damage_threshold == b.commander_damage_threshold
    &&& a.commander_headroom@ == b.commander_headroom@
}

/// The same board gives everybody the same totals and the same commander share.
proof fn lemma_same_board(a: GameState, b: GameState, evaluator: PlayerId, p: PlayerId)
    requires
        same_board(a, b),
    ensures
        eval::creature_count(a, p) == eval::creature_count(b, p),
        eval::total_power(a, p) == eval::total_power(b, p),
        eval::total_toughness(a, p) == eval::total_toughness(b, p),
        eval::other_permanent_count(a, p) == eval::other_permanent_count(b, p),
        eval::commander_threat(a, evaluator, p) == eval::commander_threat(b, evaluator, p),
{
    assert(eval::creature_of(a, p) =~= eval::creature_of(b, p));
    assert(eval::power_of(a, p) =~= eval::power_of(b, p));
    assert(eval::toughness_of(a, p) =~= eval::toughness_of(b, p));
    assert(eval::other_permanent_of(a, p) =~= eval::other_permanent_of(b, p));
    if let Some(t) = a.commander_damage_threshold {
        assert(eval::commander_threat_of(a, evaluator, p, t as int) =~= eval::commander_threat_of(
            b,
            evaluator,
            p,
            t as int,
        ));
    }
}

// ---------------------------------------------------------------------------
// Creatures
// ---------------------------------------------------------------------------

/// Each point of power is worth one and a half on a creature without keywords,
/// and each point of toughness one.
pub proof fn law_plain_creature_is_worth_its_stats(
    power: int,
    toughness: int,
    b: KeywordBonuses,
)
    ensures
        2 * eval::combat_value(power, toughness, plain(), b) == 3_000_000 * power + 2_000_000
            * toughness,
{
    reveal(eval::power_bonus);
}

/// No combat trait at all.
pub open spec fn plain() -> CombatTraits {
    CombatTraits {
        flying: false,
        trample: false,
        deathtouch: false,
        lifelink: false,
        hexproof: false,
        indestructible: false,
        strikes_first: false,
        vigilance: false,
        menace: false,
    }
}

/// A point of toughness adds one to any creature's value, whatever its traits.
pub proof fn law_toughness_adds_one(
    power: int,
    toughness: int,
    more: int,
    t: CombatTraits,
    b: KeywordBonuses,
)
    ensures
        eval::combat_value(power, toughness + more, t, b) == eval::combat_value(
            power,
            toughness,
            t,
            b,
        ) + 1_000_000 * more,
{
}

/// Trample adds its bonus for each point of power, whatever else a creature
/// has.
pub proof fn law_trample_adds_its_bonus(
    power: int,
    toughness: int,
    t: CombatTraits,
    b: KeywordBonuses,
)
    ensures
        eval::combat_value(power, toughness, CombatTraits { trample: true, ..t }, b)
            == eval::combat_value(power, toughness, CombatTraits { trample: false, ..t }, b) + power
            * b.trample_mult,
{
    reveal(eval::power_bonus);
}

/// Deathtouch adds its bonus once, whatever else a creature has.
pub proof fn law_deathtouch_adds_its_bonus(
    power: int,
    toughness: int,
    t: CombatTraits,
    b: KeywordBonuses,
)
    ensures
        eval::combat_value(power, toughness, CombatTraits { deathtouch: true, ..t }, b)
            == eval::combat_value(power, toughness, CombatTraits { deathtouch: false, ..t }, b)
            + b.deathtouch_flat,
{
}

/// Lifelink adds its bonus for each point of power, whatever else a creature
/// has.
pub proof fn law_lifelink_adds_its_bonus(
    power: int,
    toughness: int,
    t: CombatTraits,
    b: KeywordBonuses,
)
    ensures
        eval::combat_value(power, toughness, CombatTraits { lifelink: true, ..t }, b)
            == eval::combat_value(power, toughness, CombatTraits { lifelink: false, ..t }, b)
            + power * b.lifelink_mult,
{
    reveal(eval::power_bonus);
}

/// Hexproof adds its bonus once, whatever else a creature has.
pub proof fn law_hexproof_adds_its_bonus(
    power: int,
    toughness: int,
    t: CombatTraits,
    b: KeywordBonuses,
)
    ensures
        eval::combat_value(power, toughness, CombatTraits { hexproof: true, ..t }, b)
            == eval::combat_value(power, toughness, CombatTraits { hexproof: false, ..t }, b)
            + b.hexproof_flat,
{
}

/// Being indestructible adds its bonus once, whatever else a creature has.
pub proof fn law_indestructible_adds_its_bonus(
    power: int,
    toughness: int,
    t: CombatTraits,
    b: KeywordBonuses,
)
    ensures
        eval::combat_value(power, toughness, CombatTraits { indestructible: true, ..t }, b)
            == eval::combat_value(power, toughness, CombatTraits { indestructible: false, ..t }, b)
            + b.indestructible_flat,
{
}

/// Striking first adds its bonus for each point of power, whatever else a
/// creature has.
pub proof fn law_striking_first_adds_its_bonus(
    power: int,
    toughness: int,
    t: CombatTraits,
    b: KeywordBonuses,
)
    ensures
        eval::combat_value(power, toughness, CombatTraits { strikes_first: true, ..t }, b)
            == eval::combat_value(power, toughness, CombatTraits { strikes_first: false, ..t }, b)
            + power * b.first_strike_mult,
{
    reveal(eval::power_bonus);
}

/// Vigilance adds its bonus once, whatever else a creature has.
pub proof fn law_vigilance_adds_its_bonus(
    power: int,
    toughness: int,
    t: CombatTraits,
    b: KeywordBonuses,
)
    ensures
        eval::combat_value(power, toughness, CombatTraits { vigilance: true, ..t }, b)
            == eval::combat_value(power, toughness, CombatTraits { vigilance: false, ..t }, b)
            + b.vigilance_flat,
{
}

/// Menace adds its bonus for each point of power, whatever else a creature has.
pub proof fn law_menace_adds_its_bonus(
    power: int,
    toughness: int,
    t: CombatTraits,
    b: KeywordBonuses,
)
    ensures
        eval::combat_value(power, toughness, CombatTraits { menace: true, ..t }, b)
            == eval::combat_value(power, toughness, CombatTraits { menace: false, ..t }, b) + power
            * b.menace_mult,
{
    reveal(eval::power_bonus);
}

/// Each keyword counts as the trait of its name, and first strike and double
/// strike count alike and once.
pub proof fn law_traits_are_named_by_keywords(held: spec_fn(Keyword) -> bool)
    ensures
        eval::traits_among(held).flying <==> held(Keyword::Flying),
        eval::traits_among(held).trample <==> held(Keyword::Trample),
        eval::traits_among(held).deathtouch <==> held(Keyword::Deathtouch),
        eval::traits_among(held).lifelink <==> held(Keyword::Lifelink),
        eval::traits_among(held).hexproof <==> held(Keyword::Hexproof),
        eval::traits_among(held).indestructible <==> held(Keyword::Indestructible),
        eval::traits_among(held).vigilance <==> held(Keyword::Vigilance),
        eval::traits_among(held).menace <==> held(Keyword::Menace),
        held(Keyword::FirstStrike) ==> eval::traits_among(held).strikes_first,
        held(Keyword::DoubleStrike) ==> eval::traits_among(held).strikes_first,
        !held(Keyword::FirstStrike) && !held(Keyword::DoubleStrike) ==> !eval::traits_among(
            held,
        ).strikes_first,
{
}

/// `amount` where an object has the keyword, else nothing.
pub open spec fn bonus_for(o: GameObject, k: Keyword, amount: int) -> int {
    if o.keywords@.contains(k) {
        amount
    } else {
        0
    }
}

/// What a creature is worth with the standard bonuses: per point of power one
/// and a half, one for flying, a half each for trample,
/// lifelink and menace and eight tenths for striking first; per point of
/// toughness one; and once each four for indestructible, three for deathtouch,
/// two for hexproof and one for vigilance, less one and a half where it is
/// tapped.
pub proof fn law_standard_value(state: GameState, id: ObjectId, o: GameObject)
    requires
        state.obj(id) == Some(o),
    ensures
        ({
            let p = match o.power {
                Some(n) => n as int,
                None => 0,
            };
            let t = match o.toughness {
                Some(n) => n as int,
                None => 0,
            };
            let first = o.keywords@.contains(Keyword::FirstStrike) || o.keywords@.contains(
                Keyword::DoubleStrike,
            );
            eval::creature_value(state, id, eval::standard_bonuses()) == 1_500_000 * p + 1_000_000
                * t + bonus_for(o, Keyword::Flying, 1_000_000 * p) + bonus_for(
                o,
                Keyword::Trample,
                500_000 * p,
            ) + bonus_for(o, Keyword::Lifelink, 500_000 * p) + bonus_for(
                o,
                Keyword::Menace,
                500_000 * p,
            ) + bonus_for(o, Keyword::Deathtouch, 3_000_000) + bonus_for(
                o,
                Keyword::Hexproof,
                2_000_000,
            ) + bonus_for(o, Keyword::Indestructible, 4_000_000) + bonus_for(
                o,
                Keyword::Vigilance,
                1_000_000,
            ) + (if first {
                800_000 * p
            } else {
                0
            }) - (if o.tapped {
                1_500_000int
            } else {
                0
            })
        }),
{
    reveal(eval::power_bonus);
}

/// What is no object is worth nothing.
pub proof fn law_missing_creature_is_worth_nothing(
    state: GameState,
    id: ObjectId,
    b: KeywordBonuses,
)
    requires
        forall|i: int| 0 <= i < state.objects@.len() ==> (#[trigger] state.objects@[i]).id != id,
    ensures
        eval::creature_value(state, id, b) == 0,
{
    model::law_lookup_finds_the_object(state.objects@, id);
    if let Some(o) = state.obj(id) {
        let i = choose|i: int|
            0 <= i < state.objects@.len() && #[trigger] state.objects@[i] == o && o.id == id;
        assert(state.objects@[i].id != id);
    }
}

// ---------------------------------------------------------------------------
// Threat
// ---------------------------------------------------------------------------

/// A quotient by the same number does not shrink where the dividend grows.
proof fn lemma_quotient_grows(a: int, b: int, d: int)
    requires
        a <= b,
        d > 0,
    ensures
        a / d <= b / d,
{
    assert(a / d <= b / d) by (nonlinear_arith)
        requires
            a <= b,
            d > 0,
    ;
}

/// Of two positions that differ in the life total of a player alone, the
/// player is at least as threatening in the one where they have more.
pub proof fn law_threat_grows_with_life(
    less: GameState,
    more: GameState,
    evaluator: PlayerId,
    target: PlayerId,
    power: int,
)
    requires
        same_board(less, more),
        less.seat(target).hand@.len() == more.seat(target).hand@.len(),
        less.seat(target).life <= more.seat(target).life,
    ensures
        eval::threat_with_power(less, evaluator, target, power) <= eval::threat_with_power(
            more,
            evaluator,
            target,
            power,
        ),
        eval::threat(less, evaluator, target) <= eval::threat(more, evaluator, target),
{
    lemma_same_board(less, more, evaluator, target);
    let start = score::greater(less.starting_life as int, 1);
    lemma_quotient_grows(
        score::clamped(less.seat(target).life as int, 0, 2 * start) * 100_000,
        score::clamped(more.seat(target).life as int, 0, 2 * start) * 100_000,
        start,
    );
}

/// Of two positions that differ in the hand of a player alone, the player is
/// at least as threatening in the one where they hold more cards.
pub proof fn law_threat_grows_with_the_hand(
    less: GameState,
    more: GameState,
    evaluator: PlayerId,
    target: PlayerId,
    power: int,
)
    requires
        same_board(less, more),
        less.seat(target).life == more.seat(target).life,
        less.seat(target).hand@.len() <= more.seat(target).hand@.len(),
    ensures
        eval::threat_with_power(less, evaluator, target, power) <= eval::threat_with_power(
            more,
            evaluator,
            target,
            power,
        ),
        eval::threat(less, evaluator, target) <= eval::threat(more, evaluator, target),
{
    lemma_same_board(less, more, evaluator, target);
}

/// One more creature, of power that is not negative, never makes its
/// controller less threatening, and never changes how threatening anybody else
/// is.
pub proof fn law_threat_grows_with_creatures(
    before: GameState,
    after: GameState,
    evaluator: PlayerId,
    target: PlayerId,
    id: ObjectId,
    o: GameObject,
)
    requires
        after.objects@ == before.objects@,
        after.battlefield@ == before.battlefield@.push(id),
        after.starting_life == before.starting_life,
        after.commander_damage_threshold == before.commander_damage_threshold,
        after.commander_headroom@ == before.commander_headroom@,
        after.seat(target).life == before.seat(target).life,
        after.seat(target).hand@.len() == before.seat(target).hand@.len(),
        before.obj(id) == Some(o),
        o.core_types@.contains(CoreType::Creature),
        o.power matches Some(n) ==> n >= 0,
    ensures
        eval::threat(before, evaluator, target) <= eval::threat(after, evaluator, target),
        o.controller != target ==> eval::threat(before, evaluator, target) == eval::threat(
            after,
            evaluator,
            target,
        ),
{
    law_permanent_adds_to_its_controller(before, after, id, target);
    if let Some(t) = before.commander_damage_threshold {
        assert(eval::commander_threat_of(before, evaluator, target, t as int)
            =~= eval::commander_threat_of(after, evaluator, target, t as int));
    }
}

/// A player without creatures, cards or a commander threatens by their life
/// alone: nothing where they have none, a tenth at the starting total, two
/// tenths at twice that and above.
pub proof fn law_threat_of_life_alone(state: GameState, evaluator: PlayerId, target: PlayerId)
    requires
        without_creatures(state, target),
        state.seat(target).hand@.len() == 0,
        state.commander_damage_threshold is None,
    ensures
        state.seat(target).life <= 0 ==> eval::threat(state, evaluator, target) == 0,
        state.seat(target).life == state.starting_life && state.starting_life > 0 ==> eval::threat(
            state,
            evaluator,
            target,
        ) == 100_000,
        state.seat(target).life >= 2 * state.starting_life && state.starting_life > 0
            ==> eval::threat(state, evaluator, target) == 200_000,
{
    law_no_creature_no_power(state, target);
    let s = state.starting_life as int;
    let start = score::greater(s, 1);
    assert((0int * 100_000) / start == 0) by (nonlinear_arith)
        requires
            start >= 1,
    ;
    assert((start * 100_000) / start == 100_000) by (nonlinear_arith)
        requires
            start >= 1,
    ;
    assert((2 * start * 100_000) / start == 200_000) by (nonlinear_arith)
        requires
            start >= 1,
    ;
}

/// A player without creatures, life or a commander threatens by their hand
/// alone: each card counts for a seventh of fifteen hundredths, up to seven.
pub proof fn law_threat_of_the_hand_alone(state: GameState, evaluator: PlayerId, target: PlayerId)
    requires
        without_creatures(state, target),
        state.seat(target).life <= 0,
        state.commander_damage_threshold is None,
    ensures
        ({
            let cards = state.seat(target).hand@.len();
            let t = eval::threat(state, evaluator, target);
            &&& cards <= 7 ==> 7 * t <= 150_000 * cards < 7 * (t + 1)
            &&& cards >= 7 ==> t == 150_000
        }),
{
    law_no_creature_no_power(state, target);
    lemma_no_life_share(state, target);
}

/// A player without life, cards or a commander threatens by their board alone:
/// twelve thousandths for each creature and twenty-eight for each point of
/// power, up to four tenths.
pub proof fn law_threat_of_the_board_alone(
    state: GameState,
    evaluator: PlayerId,
    target: PlayerId,
    power: int,
)
    requires
        state.seat(target).life <= 0,
        state.seat(target).hand@.len() == 0,
        state.commander_damage_threshold is None,
    ensures
        ({
            let points = 12_000 * eval::creature_count(state, target) + 28_000 * power;
            let t = eval::threat_with_power(state, evaluator, target, power);
            &&& 0 <= points <= 400_000 ==> t == points
            &&& points > 400_000 ==> t == 400_000
            &&& points < 0 ==> t == 0
        }),
{
    lemma_no_life_share(state, target);
}

/// Without life there is no share of it.
proof fn lemma_no_life_share(state: GameState, target: PlayerId)
    requires
        state.seat(target).life <= 0,
    ensures
        eval::life_threat(state.seat(target).life as int, state.starting_life as int) == 0,
{
    let start = score::greater(state.starting_life as int, 1);
    assert((0int * 100_000) / start == 0) by (nonlinear_arith)
        requires
            start >= 1,
    ;
}

/// A lookup of a commander's headroom gives an entry for the commander and the
/// defender, and nothing only where there is none.
pub proof fn law_headroom_is_that_of_the_pair(
    table: Seq<model::CommanderHeadroom>,
    commander: ObjectId,
    defender: PlayerId,
)
    ensures
        match eval::find_headroom(table, commander, defender) {
            Some(h) => exists|i: int|
                0 <= i < table.len() && (#[trigger] table[i]).commander == commander
                    && table[i].defender == defender && table[i].headroom == h,
            None => forall|i: int|
                0 <= i < table.len() ==> (#[trigger] table[i]).commander != commander
                    || table[i].defender != defender,
        },
    decreases table.len(),
{
    if table.len() > 0 {
        if table[0].commander == commander && table[0].defender == defender {
            assert(table[0].headroom == table[0].headroom);
        } else {
            let rest = table.drop_first();
            law_headroom_is_that_of_the_pair(rest, commander, defender);
            match eval::find_headroom(rest, commander, defender) {
                Some(h) => {
                    let k = choose|k: int|
                        0 <= k < rest.len() && (#[trigger] rest[k]).commander == commander
                            && rest[k].defender == defender && rest[k].headroom == h;
                    assert(table[k + 1] == rest[k]);
                },
                None => {
                    assert forall|i: int| 0 <= i < table.len() implies (
                    #[trigger] table[i]).commander != commander || table[i].defender
                        != defender by {
                        if i > 0 {
                            assert(rest[i - 1] == table[i]);
                        }
                    }
                },
            }
        }
    }
}

/// The commander share is that of the commander closest to defeating the
/// evaluator: at least the damage that each commander of the target has dealt,
/// as a part of the threshold, times a quarter; and exactly that of one of
/// them, unless it is nothing.
pub proof fn law_commander_share_is_the_closest(
    state: GameState,
    evaluator: PlayerId,
    target: PlayerId,
    threshold: u8,
)
    requires
        state.commander_damage_threshold == Some(threshold),
        threshold > 0,
    ensures
        ({
            let share = eval::commander_threat(state, evaluator, target);
            &&& forall|i: int|
                0 <= i < state.objects@.len() && is_rival_commander(
                    state,
                    evaluator,
                    target,
                    #[trigger] state.objects@[i],
                ) ==> 250_000 * (threshold - headroom_of(state, evaluator, state.objects@[i]))
                    < threshold * (share + 1)
            &&& share > 0 ==> exists|i: int|
                0 <= i < state.objects@.len() && is_rival_commander(
                    state,
                    evaluator,
                    target,
                    #[trigger] state.objects@[i],
                ) && threshold * share <= 250_000 * (threshold - headroom_of(
                    state,
                    evaluator,
                    state.objects@[i],
                )) < threshold * (share + 1)
        }),
{
    let f = eval::commander_threat_of(state, evaluator, target, threshold as int);
    let share = eval::commander_threat(state, evaluator, target);
    let t = threshold as int;
    seqs::lemma_largest_attained(state.objects@, 0, f);
    assert forall|i: int|
        0 <= i < state.objects@.len() && is_rival_commander(
            state,
            evaluator,
            target,
            #[trigger] state.objects@[i],
        ) implies 250_000 * (threshold - headroom_of(state, evaluator, state.objects@[i]))
        < threshold * (share + 1) by {
        let h = headroom_of(state, evaluator, state.objects@[i]);
        assert(f(state.objects@[i]) <= share);
        let dealt = score::greater(t - h, 0);
        let q = (dealt * 250_000) / t;
        assert(250_000 * dealt < t * (share + 1)) by (nonlinear_arith)
            requires
                q == (dealt * 250_000) / t,
                q <= share,
                t > 0,
        ;
    }
    if share > 0 {
        let i = choose|i: int| 0 <= i < state.objects@.len() && f(#[trigger] state.objects@[i])
            == share;
        let o = state.objects@[i];
        assert(is_rival_commander(state, evaluator, target, o));
        let h = headroom_of(state, evaluator, o);
        let dealt = score::greater(t - h, 0);
        assert(dealt > 0) by {
            if dealt == 0 {
                assert((0int * 250_000) / t == 0) by (nonlinear_arith)
                    requires
                        t > 0,
                ;
            }
        }
        assert(t * share <= 250_000 * dealt < t * (share + 1)) by (nonlinear_arith)
            requires
                share == (dealt * 250_000) / t,
                t > 0,
        ;
    }
}

/// Whether an object is a commander that `target` owns and whose damage to
/// `evaluator` is tracked.
pub open spec fn is_rival_commander(
    state: GameState,
    evaluator: PlayerId,
    target: PlayerId,
    o: GameObject,
) -> bool {
    o.is_commander && o.owner == target && eval::find_headroom(
        state.commander_headroom@,
        o.id,
        evaluator,
    ) is Some
}

/// How much more damage such a commander must deal to `evaluator`.
pub open spec fn headroom_of(state: GameState, evaluator: PlayerId, o: GameObject) -> int {
    match eval::find_headroom(state.commander_headroom@, o.id, evaluator) {
        Some(h) => h as int,
        None => 0,
    }
}

/// A player who has no commander that could deal damage, or plays where none
/// counts, has no commander share.
pub proof fn law_no_commander_no_share(state: GameState, evaluator: PlayerId, target: PlayerId)
    requires
        state.commander_damage_threshold is None || forall|i: int|
            0 <= i < state.objects@.len() ==> !is_rival_commander(
                state,
                evaluator,
                target,
                #[trigger] state.objects@[i],
            ),
    ensures
        eval::commander_threat(state, evaluator, target) == 0,
{
    if let Some(t) = state.commander_damage_threshold {
        let f = eval::commander_threat_of(state, evaluator, target, t as int);
        seqs::lemma_largest_attained(state.objects@, 0, f);
    }
}

/// Where a commander needs no damage at all to defeat a player, one that is
/// tracked fills its share.
pub proof fn law_commander_share_without_a_threshold(
    state: GameState,
    evaluator: PlayerId,
    target: PlayerId,
    commander: int,
)
    requires
        state.commander_damage_threshold == Some(0u8),
        0 <= commander < state.objects@.len(),
        is_rival_commander(state, evaluator, target, state.objects@[commander]),
    ensures
        eval::commander_threat(state, evaluator, target) == 250_000,
{
    let f = eval::commander_threat_of(state, evaluator, target, 0);
    seqs::lemma_largest_attained(state.objects@, 0, f);
    assert(f(state.objects@[commander]) == 250_000);
}

/// The four shares add up: a player with ten points of board, twice the
/// starting life, seven cards and a commander that needs no more damage is a
/// full threat.
pub proof fn law_full_shares_are_a_full_threat(
    state: GameState,
    evaluator: PlayerId,
    target: PlayerId,
    power: int,
    threshold: u8,
    commander: int,
)
    requires
        12_000 * eval::creature_count(state, target) + 28_000 * power >= 400_000,
        state.starting_life > 0,
        state.seat(target).life >= 2 * state.starting_life,
        state.seat(target).hand@.len() >= 7,
        state.commander_damage_threshold == Some(threshold),
        threshold > 0,
        0 <= commander < state.objects@.len(),
        is_rival_commander(state, evaluator, target, state.objects@[commander]),
        headroom_of(state, evaluator, state.objects@[commander]) == 0,
    ensures
        eval::threat_with_power(state, evaluator, target, power) == 1_000_000,
{
    let f = eval::commander_threat_of(state, evaluator, target, threshold as int);
    seqs::lemma_largest_attained(state.objects@, 0, f);
    let t = threshold as int;
    assert((t * 250_000) / t == 250_000) by (nonlinear_arith)
        requires
            t > 0,
    ;
    assert(f(state.objects@[commander]) == 250_000);
    eval::law_threat_in_unit_range(state, evaluator, target, power);
    let start = state.starting_life as int;
    assert((2 * start * 100_000) / start == 200_000) by (nonlinear_arith)
        requires
            start >= 1,
    ;
}

/// What an opponent's creature is worth grows with how threatening they are:
/// half its own value for an opponent who is no threat at all, half as much
/// again for one who is a full threat. Nothing else has such a value.
pub proof fn law_threat_value_follows_the_controller(
    state: GameState,
    evaluator: PlayerId,
    id: ObjectId,
)
    ensures
        eval::threat_value(state, evaluator, id) is Some <==> (match state.obj(id) {
            Some(o) => o.zone == Zone::Battlefield && o.core_types@.contains(CoreType::Creature)
                && state.opponents_of(evaluator).contains(o.controller),
            None => false,
        }),
        eval::threat_value(state, evaluator, id) matches Some(v) ==> {
            let own = eval::creature_value(state, id, eval::standard_bonuses());
            let level = eval::threat(state, evaluator, state.obj(id)->Some_0.controller);
            &&& 1_000_000 * v <= own * (level + 500_000) < 1_000_000 * (v + 1)
            &&& own >= 0 ==> own / 2 <= v <= own + own / 2 + 1
        },
{
    if let Some(v) = eval::threat_value(state, evaluator, id) {
        let own = eval::creature_value(state, id, eval::standard_bonuses());
        let o = state.obj(id)->Some_0;
        let level = eval::threat(state, evaluator, o.controller);
        eval::law_threat_in_unit_range(
            state,
            evaluator,
            o.controller,
            eval::total_power(state, o.controller),
        );
        if own >= 0 {
            assert(own * 500_000 <= own * (level + 500_000) <= own * 1_500_000) by (
            nonlinear_arith)
                requires
                    own >= 0,
                    0 <= level <= 1_000_000,
            ;
        }
    }
}

// ---------------------------------------------------------------------------
// Intent
// ---------------------------------------------------------------------------

/// Whether every opponent is alive and one of them could be brought to nothing
/// by the power of `player`.
pub open spec fn has_lethal(state: GameState, player: PlayerId) -> bool {
    let opponents = state.players[player.0 as int].opponents@;
    &&& forall|i: int| 0 <= i < opponents.len() ==> state.players[(#[trigger] opponents[i]).0 as
        int].life > 0
    &&& exists|i: int| 0 <= i < opponents.len() && state.players[(#[trigger] opponents[i]).0 as
        int].life <= eval::total_power(state, player)
}

/// Whether the opponents' power together, or one point of damage, would finish
/// `player`.
pub open spec fn in_reach(state: GameState, player: PlayerId) -> bool {
    let life = state.players[player.0 as int].life as int;
    life <= 1 || life <= seqs::sum(
        state.players[player.0 as int].opponents@,
        |p: PlayerId| eval::total_power(state, p),
    )
}

/// Whether `player` has at least the power of all opponents together and at
/// least their average life.
pub open spec fn ahead(state: GameState, player: PlayerId) -> bool {
    let opponents = state.players[player.0 as int].opponents@;
    &&& eval::total_power(state, player) >= seqs::sum(
        opponents,
        |p: PlayerId| eval::total_power(state, p),
    )
    &&& state.players[player.0 as int].life * opponents.len() >= seqs::sum(
        opponents,
        |p: PlayerId| state.players[p.0 as int].life as int,
    )
}

/// A player with opponents pushes exactly where they have lethal damage,
/// stabilizes exactly where they have not and are within reach of the opposing
/// power, preserves exactly where neither holds and they are ahead in power
/// and in life, and develops otherwise. Without opponents there is only an
/// advantage to preserve.
pub proof fn law_intent_has_its_reason(state: GameState, player: PlayerId)
    ensures
        ({
            let asked = eval::intent(state, player);
            let alone = state.players[player.0 as int].opponents@.len() == 0;
            &&& alone ==> asked == StrategicIntent::PreserveAdvantage
            &&& !alone ==> {
                &&& asked == StrategicIntent::PushLethal <==> has_lethal(state, player)
                &&& asked == StrategicIntent::Stabilize <==> !has_lethal(state, player) && in_reach(
                    state,
                    player,
                )
                &&& asked == StrategicIntent::PreserveAdvantage <==> !has_lethal(state, player)
                    && !in_reach(state, player) && ahead(state, player)
                &&& asked == StrategicIntent::Develop <==> !has_lethal(state, player) && !in_reach(
                    state,
                    player,
                ) && !ahead(state, player)
            }
        }),
{
    let opponents = state.opponents_of(player);
    let lives = eval::life_of(state);
    seqs::lemma_minimum(opponents, eval::anyone(), lives);
    assert(eval::board_power_of(state) =~= (|p: PlayerId| eval::total_power(state, p)));
    assert(lives =~= (|p: PlayerId| state.players[p.0 as int].life as int));
    if opponents.len() > 0 {
        assert(eval::anyone()(opponents[0]));
        let m = seqs::minimum(opponents, eval::anyone(), lives)->Some_0;
        let at = |p: PlayerId| eval::anyone()(p) && lives(p) == m;
        let k = choose|k: int| 0 <= k < opponents.len() && at(#[trigger] opponents[k]);
        assert forall|i: int| 0 <= i < opponents.len() implies m <= state.players[(
        #[trigger] opponents[i]).0 as int].life by {
            assert(eval::anyone()(opponents[i]));
        }
        assert(state.players[opponents[k].0 as int].life == m);
    }
}

/// A player who preserves an advantage over opponents is ahead in power and in
/// life; one who is behind in either, has no lethal damage and is not within
/// reach of the opposing power develops.
pub proof fn law_advantage_is_power_and_life(state: GameState, player: PlayerId)
    requires
        state.opponents_of(player).len() > 0,
    ensures
        ({
            let opponents = state.opponents_of(player);
            let their_power = seqs::sum(opponents, |p: PlayerId| eval::total_power(state, p));
            let their_life = seqs::sum(
                opponents,
                |p: PlayerId| state.players[p.0 as int].life as int,
            );
            let power = eval::total_power(state, player);
            let life = state.players[player.0 as int].life as int;
            &&& eval::intent(state, player) == StrategicIntent::PreserveAdvantage ==> power
                >= their_power && life * opponents.len() >= their_life
            &&& (power < their_power || life * opponents.len() < their_life) && life > 1 && life
                > their_power && (forall|i: int|
                0 <= i < opponents.len() ==> power < state.players[(#[trigger] opponents[i]).0 as
                    int].life) ==> eval::intent(state, player) == StrategicIntent::Develop
        }),
{
    law_intent_has_its_reason(state, player);
    let opponents = state.opponents_of(player);
    if has_lethal(state, player) {
        let i = choose|i: int| 0 <= i < opponents.len() && state.players[(
        #[trigger] opponents[i]).0 as int].life <= eval::total_power(state, player);
        assert(state.players[opponents[i].0 as int].life <= eval::total_power(state, player));
    }
}

// ---------------------------------------------------------------------------
// Features
// ---------------------------------------------------------------------------

/// Against one opponent each feature is what the player has less what the
/// opponent has: life, creatures, power, toughness, cards in hand and other
/// permanents. The own power counts as aggression exactly where the player has
/// more life. Energy is the player's own.
pub proof fn law_duel_features_are_differences(
    state: GameState,
    player: PlayerId,
    opponent: PlayerId,
    f: EvalFeatures,
)
    requires
        state.players[player.0 as int].opponents@ == seq![opponent],
        eval::is_features(state, player, f),
    ensures
        ({
            let (mine, theirs) = (
                state.players[player.0 as int],
                state.players[opponent.0 as int],
            );
            let power = eval::total_power(state, player);
            &&& f.life == (mine.life - theirs.life) * 1_000_000
            &&& f.hand_size == (mine.hand@.len() - theirs.hand@.len()) * 1_000_000
            &&& f.board_presence == (eval::creature_count(state, player) - eval::creature_count(
                state,
                opponent,
            )) * 1_000_000
            &&& f.board_power == (power - eval::total_power(state, opponent)) * 1_000_000
            &&& f.board_toughness == (eval::total_toughness(state, player) - eval::total_toughness(
                state,
                opponent,
            )) * 1_000_000
            &&& f.card_advantage_breakdown == (eval::other_permanent_count(state, player)
                - eval::other_permanent_count(state, opponent)) * 1_000_000
            &&& mine.life > theirs.life && power > 0 ==> f.aggression == power * 1_000_000
            &&& mine.life <= theirs.life || power <= 0 ==> f.aggression == 0
            &&& 10 * f.energy_offset == mine.energy * 1_000_000
        }),
{
    let opponents = state.opponents_of(player);
    reveal_with_fuel(seqs::sum, 2);
    assert(opponents.drop_last() =~= Seq::<PlayerId>::empty());
    assert(opponents[0] == opponent);
}

/// Without opponents each feature is what the player has.
pub proof fn law_lone_features_are_totals(state: GameState, player: PlayerId, f: EvalFeatures)
    requires
        state.players[player.0 as int].opponents@.len() == 0,
        eval::is_features(state, player, f),
    ensures
        ({
            let mine = state.players[player.0 as int];
            &&& f.life == mine.life * 1_000_000
            &&& f.hand_size == mine.hand@.len() * 1_000_000
            &&& f.board_presence == eval::creature_count(state, player) * 1_000_000
            &&& f.board_power == eval::total_power(state, player) * 1_000_000
            &&& f.board_toughness == eval::total_toughness(state, player) * 1_000_000
            &&& f.card_advantage_breakdown == eval::other_permanent_count(state, player) * 1_000_000
        }),
{
}

/// Whether two positions differ in the seat of `player` alone, who is not
/// among their own opponents and has the same ones in both.
pub open spec fn differs_in_own_seat(a: GameState, b: GameState, player: PlayerId) -> bool {
    &&& a.opponents_of(player) == b.opponents_of(player)
    &&& !a.opponents_of(player).contains(player)
    &&& forall|p: PlayerId| p != player ==> #[trigger] a.seat(p) == b.seat(p)
}

/// What a player is measured against does not depend on the player's own seat,
/// where nobody else's amounts do.
proof fn lemma_same_opposition(
    a: GameState,
    b: GameState,
    player: PlayerId,
    f: spec_fn(PlayerId) -> int,
    g: spec_fn(PlayerId) -> int,
)
    requires
        differs_in_own_seat(a, b, player),
        forall|p: PlayerId| p != player ==> #[trigger] f(p) == g(p),
        forall|p: PlayerId|
            p != player ==> #[trigger] eval::threat(a, player, p) == eval::threat(b, player, p),
    ensures
        eval::opposition(a, player, f) == eval::opposition(b, player, g),
{
    let opponents = a.opponents_of(player);
    let (fa, fb) = (eval::weighted_of(a, player, f), eval::weighted_of(b, player, g));
    let (ta, tb) = (eval::threat_of(a, player), eval::threat_of(b, player));
    assert forall|i: int| 0 <= i < opponents.len() implies #[trigger] opponents[i] != player by {
        assert(opponents.contains(opponents[i]));
    }
    assert forall|i: int| 0 <= i < opponents.len() implies f(#[trigger] opponents[i]) == g(
        opponents[i],
    ) by {}
    assert forall|i: int| 0 <= i < opponents.len() implies ta(#[trigger] opponents[i]) == tb(
        opponents[i],
    ) by {
        let p = opponents[i];
        assert(eval::threat(a, player, p) == eval::threat(b, player, p));
    }
    assert forall|i: int| 0 <= i < opponents.len() implies fa(#[trigger] opponents[i]) == fb(
        opponents[i],
    ) by {
        let p = opponents[i];
        assert(eval::threat(a, player, p) == eval::threat(b, player, p));
        assert(f(p) == g(p));
    }
    seqs::lemma_sum_same(opponents, f, g);
    seqs::lemma_sum_same(opponents, fa, fb);
    seqs::lemma_sum_same(opponents, ta, tb);
}

/// Everybody else is as threatening where only the own seat differs.
proof fn lemma_same_threats(a: GameState, b: GameState, player: PlayerId)
    requires
        differs_in_own_seat(a, b, player),
        same_board(a, b),
    ensures
        forall|p: PlayerId|
            p != player ==> #[trigger] eval::threat(a, player, p) == eval::threat(b, player, p),
{
    assert forall|p: PlayerId| p != player implies #[trigger] eval::threat(a, player, p)
        == eval::threat(b, player, p) by {
        lemma_same_board(a, b, player, p);
        assert(a.seat(p) == b.seat(p));
    }
}

/// Each card more in a player's own hand raises the hand feature by exactly
/// one, each point of own life the life feature, and each ten energy counters
/// the energy offset, however many opponents there are and however threatening;
/// and what the board gives stays the same.
pub proof fn law_own_seat_counts_in_full(
    a: GameState,
    b: GameState,
    player: PlayerId,
    f: EvalFeatures,
    g: EvalFeatures,
)
    requires
        same_board(a, b),
        differs_in_own_seat(a, b, player),
        eval::is_features(a, player, f),
        eval::is_features(b, player, g),
    ensures
        g.hand_size - f.hand_size == (b.seat(player).hand@.len() - a.seat(player).hand@.len())
            * 1_000_000,
        g.life - f.life == (b.seat(player).life - a.seat(player).life) * 1_000_000,
        10 * (g.energy_offset - f.energy_offset) == (b.seat(player).energy - a.seat(player).energy)
            * 1_000_000,
        g.board_presence == f.board_presence,
        g.board_power == f.board_power,
        g.board_toughness == f.board_toughness,
        g.card_advantage_breakdown == f.card_advantage_breakdown,
{
    lemma_same_threats(a, b, player);
    assert forall|p: PlayerId| p != player implies #[trigger] eval::life_of(a)(p) == eval::life_of(
        b,
    )(p) by {
        assert(a.seat(p) == b.seat(p));
    }
    assert forall|p: PlayerId| p != player implies #[trigger] eval::hand_of(a)(p) == eval::hand_of(
        b,
    )(p) by {
        assert(a.seat(p) == b.seat(p));
    }
    assert forall|p: PlayerId| #[trigger] eval::creature_count(a, p) == eval::creature_count(
        b,
        p,
    ) by {
        lemma_same_board(a, b, player, p);
    }
    assert forall|p: PlayerId| #[trigger] eval::total_power(a, p) == eval::total_power(b, p) by {
        lemma_same_board(a, b, player, p);
    }
    assert forall|p: PlayerId| #[trigger] eval::total_toughness(a, p) == eval::total_toughness(
        b,
        p,
    ) by {
        lemma_same_board(a, b, player, p);
    }
    assert forall|p: PlayerId| #[trigger]
        eval::other_permanent_count(a, p) == eval::other_permanent_count(b, p) by {
        lemma_same_board(a, b, player, p);
    }
    lemma_same_opposition(a, b, player, eval::life_of(a), eval::life_of(b));
    lemma_same_opposition(a, b, player, eval::hand_of(a), eval::hand_of(b));
    lemma_same_opposition(a, b, player, eval::creatures_of(a), eval::creatures_of(b));
    lemma_same_opposition(a, b, player, eval::board_power_of(a), eval::board_power_of(b));
    lemma_same_opposition(a, b, player, eval::board_toughness_of(a), eval::board_toughness_of(b));
    lemma_same_opposition(a, b, player, eval::others_of(a), eval::others_of(b));
}

/// A permanent of the player's own that enters raises the player's features by
/// exactly what it is, however many opponents there are and however
/// threatening: a creature the presence by one, the power and toughness by its
/// own; anything else that is no land the other permanents by one.
pub proof fn law_own_permanent_counts_in_full(
    before: GameState,
    after: GameState,
    player: PlayerId,
    id: ObjectId,
    o: GameObject,
    f: EvalFeatures,
    g: EvalFeatures,
)
    requires
        after.objects@ == before.objects@,
        after.battlefield@ == before.battlefield@.push(id),
        after.starting_life == before.starting_life,
        after.commander_damage_threshold == before.commander_damage_threshold,
        after.commander_headroom@ == before.commander_headroom@,
        after.players@ == before.players@,
        !before.opponents_of(player).contains(player),
        before.obj(id) == Some(o),
        o.controller == player,
        eval::is_features(before, player, f),
        eval::is_features(after, player, g),
    ensures
        g.life == f.life,
        g.hand_size == f.hand_size,
        g.energy_offset == f.energy_offset,
        o.core_types@.contains(CoreType::Creature) ==> {
            &&& g.board_presence == f.board_presence + 1_000_000
            &&& g.board_power == f.board_power + 1_000_000 * (match o.power {
                Some(n) => n as int,
                None => 0,
            })
            &&& g.board_toughness == f.board_toughness + 1_000_000 * (match o.toughness {
                Some(n) => n as int,
                None => 0,
            })
            &&& g.card_advantage_breakdown == f.card_advantage_breakdown
        },
        !o.core_types@.contains(CoreType::Creature) ==> {
            &&& g.board_presence == f.board_presence
            &&& g.board_power == f.board_power
            &&& g.board_toughness == f.board_toughness
            &&& g.card_advantage_breakdown == f.card_advantage_breakdown
                + if o.core_types@.contains(CoreType::Land) {
                0int
            } else {
                1_000_000int
            }
        },
{
    let (a, b) = (before, after);
    assert forall|p: PlayerId| p != player implies #[trigger] a.seat(p) == b.seat(p) by {
        assert(a.players@[p.0 as int] == b.players@[p.0 as int]);
    }
    assert(a.players@[player.0 as int] == b.players@[player.0 as int]);
    law_permanent_adds_to_its_controller(a, b, id, player);
    assert forall|p: PlayerId| p != player implies #[trigger] eval::creature_count(a, p)
        == eval::creature_count(b, p) && eval::total_power(a, p) == eval::total_power(b, p)
        && eval::total_toughness(a, p) == eval::total_toughness(b, p)
        && eval::other_permanent_count(a, p) == eval::other_permanent_count(b, p) by {
        law_permanent_adds_to_its_controller(a, b, id, p);
    }
    assert forall|p: PlayerId| p != player implies #[trigger] eval::threat(a, player, p)
        == eval::threat(b, player, p) by {
        assert(eval::creature_count(a, p) == eval::creature_count(b, p));
        if let Some(t) = a.commander_damage_threshold {
            assert(eval::commander_threat_of(a, player, p, t as int) =~= eval::commander_threat_of(
                b,
                player,
                p,
                t as int,
            ));
        }
        assert(a.seat(p) == b.seat(p));
    }
    lemma_own_opposition(a, b, player);
}

/// Everybody else's amounts are the same: so is what the player is measured
/// against.
proof fn lemma_own_opposition(a: GameState, b: GameState, player: PlayerId)
    requires
        differs_in_own_seat(a, b, player),
        forall|p: PlayerId|
            p != player ==> #[trigger] eval::creature_count(a, p) == eval::creature_count(b, p)
                && eval::total_power(a, p) == eval::total_power(b, p) && eval::total_toughness(a, p)
                == eval::total_toughness(b, p) && eval::other_permanent_count(a, p)
                == eval::other_permanent_count(b, p),
        forall|p: PlayerId|
            p != player ==> #[trigger] eval::threat(a, player, p) == eval::threat(b, player, p),
    ensures
        eval::opposition(a, player, eval::life_of(a)) == eval::opposition(
            b,
            player,
            eval::life_of(b),
        ),
        eval::opposition(a, player, eval::hand_of(a)) == eval::opposition(
            b,
            player,
            eval::hand_of(b),
        ),
        eval::opposition(a, player, eval::creatures_of(a)) == eval::opposition(
            b,
            player,
            eval::creatures_of(b),
        ),
        eval::opposition(a, player, eval::board_power_of(a)) == eval::opposition(
            b,
            player,
            eval::board_power_of(b),
        ),
        eval::opposition(a, player, eval::board_toughness_of(a)) == eval::opposition(
            b,
            player,
            eval::board_toughness_of(b),
        ),
        eval::opposition(a, player, eval::others_of(a)) == eval::opposition(
            b,
            player,
            eval::others_of(b),
        ),
{
    assert forall|p: PlayerId| p != player implies #[trigger] eval::life_of(a)(p) == eval::life_of(
        b,
    )(p) by {
        assert(a.seat(p) == b.seat(p));
    }
    assert forall|p: PlayerId| p != player implies #[trigger] eval::hand_of(a)(p) == eval::hand_of(
        b,
    )(p) by {
        assert(a.seat(p) == b.seat(p));
    }
    assert forall|p: PlayerId| p != player implies #[trigger] eval::board_power_of(a)(p)
        == eval::board_power_of(b)(p) by {
        assert(eval::creature_count(a, p) == eval::creature_count(b, p));
    }
    assert forall|p: PlayerId| p != player implies #[trigger] eval::board_toughness_of(a)(p)
        == eval::board_toughness_of(b)(p) by {
        assert(eval::creature_count(a, p) == eval::creature_count(b, p));
    }
    assert forall|p: PlayerId| p != player implies #[trigger] eval::others_of(a)(p)
        == eval::others_of(b)(p) by {
        assert(eval::creature_count(a, p) == eval::creature_count(b, p));
    }
    lemma_same_opposition(a, b, player, eval::life_of(a), eval::life_of(b));
    lemma_same_opposition(a, b, player, eval::hand_of(a), eval::hand_of(b));
    lemma_same_opposition(a, b, player, eval::creatures_of(a), eval::creatures_of(b));
    lemma_same_opposition(a, b, player, eval::board_power_of(a), eval::board_power_of(b));
    lemma_same_opposition(a, b, player, eval::board_toughness_of(a), eval::board_toughness_of(b));
    lemma_same_opposition(a, b, player, eval::others_of(a), eval::others_of(b));
}

/// With two opponents the amounts are averaged, each counted as often as its
/// owner's threat level says, and rounded down to a millionth. Together the
/// two threaten at least one hundredth.
pub proof fn law_two_opponents_are_averaged_by_threat(
    state: GameState,
    player: PlayerId,
    first: PlayerId,
    second: PlayerId,
    f: spec_fn(PlayerId) -> int,
)
    requires
        state.players[player.0 as int].opponents@ == seq![first, second],
        eval::threat(state, player, first) + eval::threat(state, player, second) >= 10_000,
    ensures
        ({
            let (t, u) = (eval::threat(state, player, first), eval::threat(state, player, second));
            let average = f(player) * 1_000_000 - eval::lead(state, player, f);
            (t + u) * average <= (f(first) * t + f(second) * u) * 1_000_000 < (t + u) * (average
                + 1)
        }),
{
    let opponents = state.opponents_of(player);
    let (t, u) = (eval::threat(state, player, first), eval::threat(state, player, second));
    reveal_with_fuel(seqs::sum, 3);
    assert(opponents.drop_last() =~= seq![first]);
    assert(opponents.drop_last().drop_last() =~= Seq::<PlayerId>::empty());
    reveal(eval::averaged);
    let x = (f(first) * t + f(second) * u) * 1_000_000;
    let d = t + u;
    let q = x / d;
    assert(d * q <= x < d * (q + 1)) by (nonlinear_arith)
        requires
            q == x / d,
            d > 0,
    ;
}

/// With several opponents, who together threaten at least one hundredth, the
/// amounts are averaged, each counted as often as its owner's threat level
/// says, and rounded down to a millionth.
pub proof fn law_opponents_are_averaged_by_threat(
    state: GameState,
    player: PlayerId,
    f: spec_fn(PlayerId) -> int,
)
    requires
        state.opponents_of(player).len() >= 2,
        seqs::sum(
            state.opponents_of(player),
            |p: PlayerId| eval::threat(state, player, p),
        ) >= 10_000,
    ensures
        ({
            let opponents = state.players[player.0 as int].opponents@;
            let weights = seqs::sum(opponents, |p: PlayerId| eval::threat(state, player, p));
            let weighted = seqs::sum(
                opponents,
                |p: PlayerId| f(p) * eval::threat(state, player, p),
            );
            let average = f(player) * 1_000_000 - eval::lead(state, player, f);
            weights * average <= weighted * 1_000_000 < weights * (average + 1)
        }),
{
    let opponents = state.opponents_of(player);
    assert(eval::threat_of(state, player) =~= (|p: PlayerId| eval::threat(state, player, p)));
    assert(eval::weighted_of(state, player, f) =~= (|p: PlayerId|
        f(p) * eval::threat(state, player, p)));
    reveal(eval::averaged);
    let d = seqs::sum(opponents, eval::threat_of(state, player));
    let x = seqs::sum(opponents, eval::weighted_of(state, player, f)) * 1_000_000;
    let q = x / d;
    assert(d * q <= x < d * (q + 1)) by (nonlinear_arith)
        requires
            q == x / d,
            d > 0,
    ;
}

/// Several opponents who together threaten less than one hundredth count as if
/// they threatened that much: what they have weighs the less.
pub proof fn law_faint_threats_count_as_a_hundredth(
    state: GameState,
    player: PlayerId,
    f: spec_fn(PlayerId) -> int,
)
    requires
        state.opponents_of(player).len() >= 2,
        seqs::sum(
            state.opponents_of(player),
            |p: PlayerId| eval::threat(state, player, p),
        ) <= 10_000,
    ensures
        ({
            let weighted = seqs::sum(
                state.players[player.0 as int].opponents@,
                |p: PlayerId| f(p) * eval::threat(state, player, p),
            );
            let average = f(player) * 1_000_000 - eval::lead(state, player, f);
            average == 100 * weighted
        }),
{
    assert(eval::threat_of(state, player) =~= (|p: PlayerId| eval::threat(state, player, p)));
    assert(eval::weighted_of(state, player, f) =~= (|p: PlayerId|
        f(p) * eval::threat(state, player, p)));
    reveal(eval::averaged);
    let total = eval::total_threat(state, player);
    let x = seqs::sum(state.opponents_of(player), eval::weighted_of(state, player, f));
    assert(total == 10_000);
    assert((x * 1_000_000) / total == 100 * x) by (nonlinear_arith)
        requires
            total == 10_000,
    ;
}

/// What several opponents have, averaged, lies between the least and the most
/// that one of them has, where together they threaten at least one hundredth:
/// a player who has at least as much as each of them is not behind, and one
/// who has at most as much is not ahead.
pub proof fn law_leader_is_not_behind(
    state: GameState,
    player: PlayerId,
    f: spec_fn(PlayerId) -> int,
)
    requires
        state.opponents_of(player).len() >= 2 ==> seqs::sum(
            state.opponents_of(player),
            |p: PlayerId| eval::threat(state, player, p),
        ) >= 10_000,
        state.opponents_of(player).len() > 0,
    ensures
        (forall|i: int|
            0 <= i < state.opponents_of(player).len() ==> f(
                #[trigger] state.opponents_of(player)[i],
            ) <= f(player)) ==> eval::lead(state, player, f) >= 0,
        (forall|i: int|
            0 <= i < state.opponents_of(player).len() ==> f(
                #[trigger] state.opponents_of(player)[i],
            ) >= f(player)) ==> eval::lead(state, player, f) <= 0,
{
    let opponents = state.opponents_of(player);
    let levels = eval::threat_of(state, player);
    assert(levels =~= (|p: PlayerId| eval::threat(state, player, p)));
    let g = eval::weighted_of(state, player, f);
    let c = f(player);
    let even = |p: PlayerId| c * levels(p);
    if opponents.len() >= 2 {
        lemma_scaled_sum(opponents, levels, even, c);
        let t = seqs::sum(opponents, levels);
        let s = seqs::sum(opponents, g);
        reveal(eval::averaged);
        assert forall|p: PlayerId| f(p) <= c implies #[trigger] g(p) <= even(p) by {
            eval::law_threat_in_unit_range(state, player, p, eval::total_power(state, p));
            let (x, l) = (f(p), levels(p));
            assert(x * l <= c * l) by (nonlinear_arith)
                requires
                    x <= c,
                    l >= 0,
            ;
        }
        assert forall|p: PlayerId| f(p) >= c implies #[trigger] g(p) >= even(p) by {
            eval::law_threat_in_unit_range(state, player, p, eval::total_power(state, p));
            let (x, l) = (f(p), levels(p));
            assert(x * l >= c * l) by (nonlinear_arith)
                requires
                    x >= c,
                    l >= 0,
            ;
        }
        if forall|i: int| 0 <= i < opponents.len() ==> f(#[trigger] opponents[i]) <= c {
            assert forall|i: int| 0 <= i < opponents.len() implies g(#[trigger] opponents[i])
                <= even(opponents[i]) by {
                assert(f(opponents[i]) <= c);
            }
            seqs::lemma_sum_at_most(opponents, g, even);
            assert((s * 1_000_000) / t <= c * 1_000_000) by (nonlinear_arith)
                requires
                    s <= c * t,
                    t > 0,
            ;
        }
        if forall|i: int| 0 <= i < opponents.len() ==> f(#[trigger] opponents[i]) >= c {
            assert forall|i: int| 0 <= i < opponents.len() implies even(#[trigger] opponents[i])
                <= g(opponents[i]) by {
                assert(f(opponents[i]) >= c);
            }
            seqs::lemma_sum_at_most(opponents, even, g);
            assert((s * 1_000_000) / t >= c * 1_000_000) by (nonlinear_arith)
                requires
                    s >= c * t,
                    t > 0,
            ;
        }
    } else {
        reveal_with_fuel(seqs::sum, 2);
        assert(opponents.drop_last() =~= Seq::<PlayerId>::empty());
        assert(opponents[0] == opponents.last());
    }
}

/// A sum of terms that are each `c` times as large is `c` times as large.
proof fn lemma_scaled_sum(
    s: Seq<PlayerId>,
    f: spec_fn(PlayerId) -> int,
    g: spec_fn(PlayerId) -> int,
    c: int,
)
    requires
        forall|p: PlayerId| #[trigger] g(p) == c * f(p),
    ensures
        seqs::sum(s, g) == c * seqs::sum(s, f),
    decreases s.len(),
{
    if s.len() > 0 {
        lemma_scaled_sum(s.drop_last(), f, g, c);
        let (x, y) = (seqs::sum(s.drop_last(), f), f(s.last()));
        assert(c * (x + y) == c * x + c * y) by (nonlinear_arith);
        assert(g(s.last()) == c * f(s.last()));
    } else {
        assert(c * 0 == 0) by (nonlinear_arith);
    }
}

/// An open position: a player without life has lost, one whose opponents all
/// have none has won, and nothing else decides a game that goes on.
pub proof fn law_life_decides_an_open_game(state: GameState, player: PlayerId)
    requires
        !(state.waiting_for is GameOver),
    ensures
        ({
            let opponents = state.players[player.0 as int].opponents@;
            let alive = state.players[player.0 as int].life > 0;
            let beaten = opponents.len() > 0 && forall|i: int|
                0 <= i < opponents.len() ==> state.players[(#[trigger] opponents[i]).0 as int].life
                    <= 0;
            &&& !alive ==> eval::terminal_score(state, player) == Some(LOSS_SCORE)
            &&& alive && beaten ==> eval::terminal_score(state, player) == Some(WIN_SCORE)
            &&& alive && !beaten ==> eval::terminal_score(state, player) is None
            &&& LOSS_SCORE < 0 < WIN_SCORE
        }),
{
    let opponents = state.players[player.0 as int].opponents@;
    if eval::all_opponents_dead(state, player) {
        assert forall|i: int| 0 <= i < opponents.len() implies state.players[(
        #[trigger] opponents[i]).0 as int].life <= 0 by {
            assert(state.seat(state.opponents_of(player)[i]).life <= 0);
        }
    }
    if opponents.len() > 0 && forall|i: int|
        0 <= i < opponents.len() ==> state.players[(#[trigger] opponents[i]).0 as int].life <= 0 {
        assert forall|i: int| 0 <= i < state.opponents_of(player).len() implies state.seat(
            #[trigger] state.opponents_of(player)[i],
        ).life <= 0 by {
            assert(state.players[opponents[i].0 as int].life <= 0);
        }
    }
}

/// A player is aggressive by their own power exactly where they lead in life
/// and have power at all, whatever the table.
pub proof fn law_aggression_is_the_power_of_the_leader(
    state: GameState,
    player: PlayerId,
    f: EvalFeatures,
)
    requires
        eval::is_features(state, player, f),
    ensures
        f.life > 0 && eval::total_power(state, player) > 0 ==> f.aggression == 1_000_000
            * eval::total_power(state, player),
        f.life <= 0 || eval::total_power(state, player) <= 0 ==> f.aggression == 0,
{
}

/// Several opponents who threaten nothing at all weigh nothing.
pub proof fn law_harmless_table_weighs_nothing(
    state: GameState,
    player: PlayerId,
    f: spec_fn(PlayerId) -> int,
)
    requires
        state.opponents_of(player).len() >= 2,
        forall|i: int|
            0 <= i < state.opponents_of(player).len() ==> eval::threat(
                state,
                player,
                #[trigger] state.opponents_of(player)[i],
            ) == 0,
    ensures
        eval::lead(state, player, f) == f(player) * 1_000_000,
{
    let opponents = state.opponents_of(player);
    let g = eval::weighted_of(state, player, f);
    assert forall|i: int| 0 <= i < opponents.len() implies g(#[trigger] opponents[i]) == 0 by {
        let x = f(opponents[i]);
        assert(x * 0 == 0) by (nonlinear_arith);
    }
    seqs::lemma_sum_none(opponents, g);
    seqs::lemma_sum_none(opponents, eval::threat_of(state, player));
    reveal(eval::averaged);
}

// ---------------------------------------------------------------------------
// Weighted evaluation
// ---------------------------------------------------------------------------

/// Each feature counts by its own weight: a whole point more of it raises the
/// weighted sum by exactly that weight, and nothing at all sums to nothing.
pub proof fn law_each_feature_counts_by_its_weight(
    f: EvalFeatures,
    g: EvalFeatures,
    w: EvalWeights,
    life: int,
    presence: int,
    power: int,
    toughness: int,
    hand: int,
    aggression: int,
    others: int,
)
    requires
        g.life == f.life + life * 1_000_000,
        g.board_presence == f.board_presence + presence * 1_000_000,
        g.board_power == f.board_power + power * 1_000_000,
        g.board_toughness == f.board_toughness + toughness * 1_000_000,
        g.hand_size == f.hand_size + hand * 1_000_000,
        g.aggression == f.aggression + aggression * 1_000_000,
        g.card_advantage_breakdown == f.card_advantage_breakdown + others * 1_000_000,
    ensures
        g.weighted_sum(w) == f.weighted_sum(w) + life * w.life + presence * w.board_presence + power
            * w.board_power + toughness * w.board_toughness + hand * w.hand_size + aggression
            * w.aggression + others * w.card_advantage,
{
    score::law_scaled_adds_whole_steps(f.life as int, w.life as int, life);
    score::law_scaled_adds_whole_steps(
        f.board_presence as int,
        w.board_presence as int,
        presence,
    );
    score::law_scaled_adds_whole_steps(f.board_power as int, w.board_power as int, power);
    score::law_scaled_adds_whole_steps(
        f.board_toughness as int,
        w.board_toughness as int,
        toughness,
    );
    score::law_scaled_adds_whole_steps(f.hand_size as int, w.hand_size as int, hand);
    score::law_scaled_adds_whole_steps(f.aggression as int, w.aggression as int, aggression);
    score::law_scaled_adds_whole_steps(
        f.card_advantage_breakdown as int,
        w.card_advantage as int,
        others,
    );
}

/// Each part of an evaluation is its feature times its weight, rounded down to
/// a millionth; the hand part has the energy offset on top.
pub proof fn law_parts_are_weighted_features(
    f: EvalFeatures,
    w: EvalWeights,
    b: EvaluationBreakdown,
)
    requires
        eval::is_breakdown(f, w, b),
    ensures
        1_000_000 * b.life <= f.life * w.life < 1_000_000 * (b.life + 1),
        1_000_000 * b.board_presence <= f.board_presence * w.board_presence < 1_000_000 * (
        b.board_presence + 1),
        1_000_000 * b.board_power <= f.board_power * w.board_power < 1_000_000 * (b.board_power
            + 1),
        1_000_000 * b.board_toughness <= f.board_toughness * w.board_toughness < 1_000_000 * (
        b.board_toughness + 1),
        1_000_000 * (b.hand_size - f.energy_offset) <= f.hand_size * w.hand_size < 1_000_000 * (
        b.hand_size - f.energy_offset + 1),
        1_000_000 * b.aggression <= f.aggression * w.aggression < 1_000_000 * (b.aggression + 1),
        1_000_000 * b.card_advantage <= f.card_advantage_breakdown * w.card_advantage < 1_000_000
            * (b.card_advantage + 1),
{
}

/// The parts of an evaluation add up to its total, each counted once.
pub proof fn law_total_counts_each_part_once(b: EvaluationBreakdown)
    ensures
        b.sum() - b.life - b.board_presence - b.board_power - b.board_toughness - b.hand_size
            - b.aggression == b.card_advantage,
{
}

/// Of two open positions that differ in the player's own hand alone, the
/// evaluations differ by the weight of a card for each card: a player who
/// values cards is better off with more of them.
pub proof fn law_evaluation_rises_with_the_hand(
    a: GameState,
    b: GameState,
    player: PlayerId,
    w: EvalWeights,
    low: int,
    high: int,
)
    requires
        same_board(a, b),
        differs_in_own_seat(a, b, player),
        a.seat(player).life == b.seat(player).life,
        a.seat(player).energy == b.seat(player).energy,
        eval::terminal_score(a, player) is None,
        eval::terminal_score(b, player) is None,
        eval::evaluation(a, player, w, low),
        eval::evaluation(b, player, w, high),
    ensures
        high - low == (b.seat(player).hand@.len() - a.seat(player).hand@.len()) * w.hand_size,
        w.hand_size > 0 && a.seat(player).hand@.len() < b.seat(player).hand@.len() ==> low < high,
{
    let f = choose|f: EvalFeatures| #[trigger]
        eval::is_features(a, player, f) && low == f.weighted_sum(w) + f.energy_offset;
    let g = choose|g: EvalFeatures| #[trigger]
        eval::is_features(b, player, g) && high == g.weighted_sum(w) + g.energy_offset;
    law_own_seat_counts_in_full(a, b, player, f, g);
    lemma_same_board(a, b, player, player);
    let more = b.seat(player).hand@.len() - a.seat(player).hand@.len();
    law_each_feature_counts_by_its_weight(f, g, w, 0, 0, 0, 0, more, 0, 0);
    let h = w.hand_size as int;
    lemma_no_steps(w);
    if h > 0 && more > 0 {
        assert(more * h > 0) by (nonlinear_arith)
            requires
                more > 0,
                h > 0,
        ;
    }
}

/// No steps add nothing, whatever the weight.
proof fn lemma_no_steps(w: EvalWeights)
    ensures
        0 * w.life == 0,
        0 * w.board_presence == 0,
        0 * w.board_power == 0,
        0 * w.board_toughness == 0,
        0 * w.hand_size == 0,
        0 * w.aggression == 0,
        0 * w.card_advantage == 0,
{
}

/// A creature of the player's own that enters an open position raises the
/// evaluation by the weight of a creature, the weight of power for each point
/// of power and the weight of toughness for each point of toughness, where the
/// player has no lead in life that would turn power into aggression.
pub proof fn law_evaluation_rises_with_own_creatures(
    before: GameState,
    after: GameState,
    player: PlayerId,
    id: ObjectId,
    o: GameObject,
    w: EvalWeights,
    low: int,
    high: int,
)
    requires
        after.objects@ == before.objects@,
        after.battlefield@ == before.battlefield@.push(id),
        after.starting_life == before.starting_life,
        after.commander_damage_threshold == before.commander_damage_threshold,
        after.commander_headroom@ == before.commander_headroom@,
        after.players@ == before.players@,
        !before.opponents_of(player).contains(player),
        before.obj(id) == Some(o),
        o.controller == player,
        o.core_types@.contains(CoreType::Creature),
        eval::lead(before, player, |p: PlayerId| before.players[p.0 as int].life as int) <= 0,
        eval::terminal_score(before, player) is None,
        eval::terminal_score(after, player) is None,
        eval::evaluation(before, player, w, low),
        eval::evaluation(after, player, w, high),
    ensures
        high - low == w.board_presence + (match o.power {
            Some(n) => n as int,
            None => 0,
        }) * w.board_power + (match o.toughness {
            Some(n) => n as int,
            None => 0,
        }) * w.board_toughness,
{
    let f = choose|f: EvalFeatures| #[trigger]
        eval::is_features(before, player, f) && low == f.weighted_sum(w) + f.energy_offset;
    let g = choose|g: EvalFeatures| #[trigger]
        eval::is_features(after, player, g) && high == g.weighted_sum(w) + g.energy_offset;
    assert(eval::life_of(before) =~= (|p: PlayerId| before.players[p.0 as int].life as int));
    law_own_permanent_counts_in_full(before, after, player, id, o, f, g);
    law_each_feature_counts_by_its_weight(
        f,
        g,
        w,
        0,
        1,
        model::stat(o.power),
        model::stat(o.toughness),
        0,
        0,
        0,
    );
    lemma_no_steps(w);
}

/// The score of a decided game lies outside every score below ten thousand:
/// a won game is worth ten thousand cards, a lost one costs as many.
pub proof fn law_decided_games_weigh_ten_thousand(state: GameState, player: PlayerId)
    ensures
        eval::terminal_score(state, player) matches Some(s) ==> s == 10_000_000_000 || s
            == -10_000_000_000 || s == 0,
        WIN_SCORE == 10_000_000_000,
        LOSS_SCORE == -WIN_SCORE,
{
}

/// Early weights count up to turn three, middle ones on turns four to seven,
/// late ones from turn eight on.
pub proof fn law_weights_change_after_turns_three_and_seven(set: EvalWeightSet, turn: int)
    ensures
        turn < 4 ==> set.at_turn(turn) == set.early,
        4 <= turn < 8 ==> set.at_turn(turn) == set.mid,
        turn >= 8 ==> set.at_turn(turn) == set.late,
{
}

/// The learned weights: the longer the game, the more a card in hand counts
/// and the less a point of power or a creature does; what was not learned is
/// what was tuned by hand.
pub proof fn law_learned_weights_shift_to_cards()
    ensures
        ({
            let (tuned, early, mid, late) = (
                eval::hand_tuned_weights(),
                eval::learned_early_weights(),
                eval::learned_mid_weights(),
                eval::learned_late_weights(),
            );
            &&& early.hand_size == 1_371_600 && mid.hand_size == 2_396_000 && late.hand_size
                == 2_500_000
            &&& early.board_power == 1_017_400 && mid.board_power == 803_100 && late.board_power
                == 668_600
            &&& early.board_presence == 2_063_600 && mid.board_presence == 1_988_800
                && late.board_presence == 1_731_700
            &&& early.life == 463_600 && mid.life == 583_800 && late.life == 491_200
            &&& early.card_advantage == 2_500_000 && mid.card_advantage == 2_500_000
                && late.card_advantage == 1_945_000
            &&& early.aggression == tuned.aggression && mid.aggression == tuned.aggression
                && late.aggression == tuned.aggression
            &&& early.board_toughness == tuned.board_toughness && mid.board_toughness
                == tuned.board_toughness && late.board_toughness == tuned.board_toughness
            &&& early.zone_quality == tuned.zone_quality && mid.zone_quality == tuned.zone_quality
                && late.zone_quality == tuned.zone_quality
            &&& early.synergy == tuned.synergy && mid.synergy == tuned.synergy && late.synergy
                == tuned.synergy
            &&& tuned.life == 1_000_000 && tuned.aggression == 500_000 && tuned.board_presence
                == 2_000_000 && tuned.board_power == 1_500_000 && tuned.board_toughness
                == 1_000_000 && tuned.hand_size == 500_000 && tuned.zone_quality == 300_000
                && tuned.card_advantage == 300_000 && tuned.synergy == 500_000
        }),
{
}

// ---------------------------------------------------------------------------
// What the functions return
// ---------------------------------------------------------------------------

/// What `board_stats` returns: creatures, power, toughness, other permanents,
/// in this order.
pub proof fn law_board_stats_returns_the_totals(
    state: &GameState,
    player: PlayerId,
    r: (i64, i64, i64, i64),
)
    requires
        call_ensures(eval::board_stats, (state, player), r),
    ensures
        r.0 == eval::creature_count(*state, player),
        r.1 == eval::total_power(*state, player),
        r.2 == eval::total_toughness(*state, player),
        r.3 == eval::other_permanent_count(*state, player),
        without_creatures(*state, player) ==> r.0 == 0 && r.1 == 0 && r.2 == 0,
        state.battlefield@.len() == 0 ==> r.3 == 0,
{
    if without_creatures(*state, player) {
        law_no_creature_no_power(*state, player);
    }
}

/// What `evaluate_creature` returns: for an object without keywords one and a
/// half for each point of power and one for each point of toughness, less one
/// and a half where it is tapped; nothing for what is no object.
pub proof fn law_evaluate_creature_returns_the_value(state: &GameState, id: ObjectId, r: i128)
    requires
        call_ensures(eval::evaluate_creature, (state, id), r),
    ensures
        r == eval::creature_value(*state, id, eval::standard_bonuses()),
        state.obj(id) is None ==> r == 0,
        state.obj(id) matches Some(o) ==> (o.keywords@.len() == 0 ==> r == 1_500_000 * model::stat(
            o.power,
        ) + 1_000_000 * model::stat(o.toughness) - (if o.tapped {
            1_500_000int
        } else {
            0
        })),
{
    if let Some(o) = state.obj(id) {
        law_standard_value(*state, id, o);
    }
}

/// With bonuses of its own, `evaluate_creature_with_bonuses` returns the value
/// by these bonuses: the same but for them.
pub proof fn law_evaluate_creature_uses_the_bonuses(
    state: &GameState,
    id: ObjectId,
    b: &KeywordBonuses,
    r: i128,
    o: GameObject,
)
    requires
        call_ensures(eval::evaluate_creature_with_bonuses, (state, id, b), r),
        state.obj(id) == Some(o),
    ensures
        r == eval::creature_value(*state, id, *b),
        o.tapped ==> r + b.tapped_penalty == eval::combat_value(
            model::stat(o.power),
            model::stat(o.toughness),
            eval::traits_among(|k: Keyword| o.keywords@.contains(k)),
            *b,
        ),
        !o.tapped ==> r == eval::combat_value(
            model::stat(o.power),
            model::stat(o.toughness),
            eval::traits_among(|k: Keyword| o.keywords@.contains(k)),
            *b,
        ),
{
    assert(eval::keywords_of(o) =~= (|k: Keyword| o.keywords@.contains(k)));
}

/// What `threat_level` returns is never less for a player with more life,
/// everything else being equal.
pub proof fn law_threat_level_returns_more_for_more_life(
    less: &GameState,
    more: &GameState,
    evaluator: PlayerId,
    target: PlayerId,
    low: i128,
    high: i128,
)
    requires
        same_board(*less, *more),
        less.seat(target).hand@.len() == more.seat(target).hand@.len(),
        less.seat(target).life <= more.seat(target).life,
        call_ensures(eval::threat_level, (less, evaluator, target), low),
        call_ensures(eval::threat_level, (more, evaluator, target), high),
    ensures
        low <= high,
        low == eval::threat(*less, evaluator, target),
{
    law_threat_grows_with_life(*less, *more, evaluator, target, 0);
}

/// What `threat_level_projected` returns: everything is read from the current
/// position but the power, which is read from the projected one where there is
/// one.
pub proof fn law_projected_threat_reads_the_projected_power(
    state: &GameState,
    evaluator: PlayerId,
    target: PlayerId,
    projection: Option<&GameState>,
    r: i128,
)
    requires
        call_ensures(eval::threat_level_projected, (state, evaluator, target, projection), r),
    ensures
        projection is None ==> r == eval::threat(*state, evaluator, target),
        projection matches Some(p) ==> r == eval::threat_with_power(
            *state,
            evaluator,
            target,
            eval::total_power(*p, target),
        ),
        projection matches Some(p) ==> (eval::total_power(*p, target) >= eval::total_power(
            *state,
            target,
        ) ==> r >= eval::threat(*state, evaluator, target)),
{
    if let Some(p) = projection {
        if eval::total_power(*p, target) >= eval::total_power(*state, target) {
            eval::law_threat_grows_with_power(
                *state,
                evaluator,
                target,
                eval::total_power(*state, target),
                eval::total_power(*p, target),
            );
        }
    }
}

/// What `opponent_battlefield_creature_threat_value` returns is the threat
/// value.
pub proof fn law_creature_threat_value_is_returned(
    state: &GameState,
    evaluator: PlayerId,
    id: ObjectId,
    r: Option<i128>,
)
    requires
        call_ensures(
            eval::opponent_battlefield_creature_threat_value,
            (state, evaluator, id),
            r,
        ),
    ensures
        r matches Some(v) ==> eval::threat_value(*state, evaluator, id) == Some(v as int),
        r is None ==> eval::threat_value(*state, evaluator, id) is None,
{
}

/// What `strategic_intent` returns, for a player with opponents: to push where
/// they have lethal damage, else to stabilize where they are within reach, else
/// to preserve where they are ahead in power and life, else to develop.
pub proof fn law_strategic_intent_returns_its_reason(
    state: &GameState,
    player: PlayerId,
    r: StrategicIntent,
)
    requires
        call_ensures(eval::strategic_intent, (state, player), r),
        state.opponents_of(player).len() > 0,
    ensures
        r is PushLethal <==> has_lethal(*state, player),
        r is Stabilize <==> !has_lethal(*state, player) && in_reach(*state, player),
        r is PreserveAdvantage <==> !has_lethal(*state, player) && !in_reach(*state, player)
            && ahead(*state, player),
        r is Develop <==> !has_lethal(*state, player) && !in_reach(*state, player) && !ahead(
            *state,
            player,
        ),
{
    law_intent_has_its_reason(*state, player);
}

/// What `evaluate_features` returns: in an open duel the differences, and in a
/// decided game its score.
pub proof fn law_evaluate_features_returns_differences(
    state: &GameState,
    player: PlayerId,
    opponent: PlayerId,
    r: Result<EvalFeatures, i128>,
)
    requires
        call_ensures(eval::evaluate_features, (state, player), r),
        state.players[player.0 as int].opponents@ == seq![opponent],
    ensures
        match r {
            Ok(f) => {
                let (mine, theirs) = (
                    state.players[player.0 as int],
                    state.players[opponent.0 as int],
                );
                &&& f.hand_size == (mine.hand@.len() - theirs.hand@.len()) * 1_000_000
                &&& f.life == (mine.life - theirs.life) * 1_000_000
                &&& f.board_presence == (eval::creature_count(*state, player)
                    - eval::creature_count(*state, opponent)) * 1_000_000
                &&& f.board_power == (eval::total_power(*state, player) - eval::total_power(
                    *state,
                    opponent,
                )) * 1_000_000
                &&& f.board_toughness == (eval::total_toughness(*state, player)
                    - eval::total_toughness(*state, opponent)) * 1_000_000
                &&& f.card_advantage_breakdown == (eval::other_permanent_count(*state, player)
                    - eval::other_permanent_count(*state, opponent)) * 1_000_000
                &&& 10 * f.energy_offset == mine.energy * 1_000_000
                &&& mine.life > 0 && theirs.life > 0 && !(state.waiting_for is GameOver)
            },
            Err(e) => {
                &&& eval::terminal_score(*state, player) == Some(e)
                &&& state.waiting_for is GameOver || state.players[player.0 as int].life <= 0
                    || state.players[opponent.0 as int].life <= 0
            },
        },
{
    if let Ok(f) = r {
        law_duel_features_are_differences(*state, player, opponent, f);
    }
    if !(state.waiting_for is GameOver) {
        law_life_decides_an_open_game(*state, player);
        assert(state.players[player.0 as int].opponents@[0] == opponent);
    }
}

/// At any table `evaluate_features` returns one more for each card more in the
/// player's own hand.
pub proof fn law_evaluate_features_counts_own_cards(
    a: &GameState,
    b: &GameState,
    player: PlayerId,
    f: EvalFeatures,
    g: EvalFeatures,
)
    requires
        same_board(*a, *b),
        differs_in_own_seat(*a, *b, player),
        call_ensures(eval::evaluate_features, (a, player), Ok::<EvalFeatures, i128>(f)),
        call_ensures(eval::evaluate_features, (b, player), Ok::<EvalFeatures, i128>(g)),
    ensures
        g.hand_size - f.hand_size == (b.seat(player).hand@.len() - a.seat(player).hand@.len())
            * 1_000_000,
        g.life - f.life == (b.seat(player).life - a.seat(player).life) * 1_000_000,
        eval::is_features(*a, player, f),
{
    law_own_seat_counts_in_full(*a, *b, player, f, g);
}

/// What `evaluate_state` returns rises by the weight of a card for each card
/// more in the player's own hand, everything else being equal.
pub proof fn law_evaluate_state_rises_with_the_hand(
    a: &GameState,
    b: &GameState,
    player: PlayerId,
    w: &EvalWeights,
    low: i128,
    high: i128,
)
    requires
        same_board(*a, *b),
        differs_in_own_seat(*a, *b, player),
        a.seat(player).life == b.seat(player).life,
        a.seat(player).energy == b.seat(player).energy,
        eval::terminal_score(*a, player) is None,
        eval::terminal_score(*b, player) is None,
        call_ensures(eval::evaluate_state, (a, player, w), low),
        call_ensures(eval::evaluate_state, (b, player, w), high),
    ensures
        high - low == (b.seat(player).hand@.len() - a.seat(player).hand@.len()) * w.hand_size,
{
    law_evaluation_rises_with_the_hand(*a, *b, player, *w, low as int, high as int);
}

/// What `evaluate_state` returns for a decided game is its score.
pub proof fn law_evaluate_state_returns_the_score(
    state: &GameState,
    player: PlayerId,
    w: &EvalWeights,
    r: i128,
)
    requires
        call_ensures(eval::evaluate_state, (state, player, w), r),
    ensures
        eval::terminal_score(*state, player) matches Some(s) ==> r == s,
        eval::terminal_score(*state, player) is None ==> exists|f: EvalFeatures| #[trigger]
            eval::is_features(*state, player, f) && r == f.weighted_sum(*w) + f.energy_offset,
{
}

/// What `evaluate_state_breakdown` returns are the weighted features of an open
/// position, or the score of a decided one.
pub proof fn law_breakdown_returns_the_parts(
    state: &GameState,
    player: PlayerId,
    w: &EvalWeights,
    r: Result<EvaluationBreakdown, i128>,
)
    requires
        call_ensures(eval::evaluate_state_breakdown, (state, player, w), r),
    ensures
        r matches Ok(b) ==> eval::terminal_score(*state, player) is None && exists|f: EvalFeatures|
            #[trigger]
            eval::is_features(*state, player, f) && eval::is_breakdown(f, *w, b) && b.sum()
                == f.weighted_sum(*w) + f.energy_offset,
        r matches Err(e) ==> eval::terminal_score(*state, player) == Some(e),
{
    if let Ok(b) = r {
        let f = choose|f: EvalFeatures|
            eval::is_features(*state, player, f) && #[trigger] eval::is_breakdown(f, *w, b);
        eval::law_breakdown_is_weighted_features_plus_energy(f, *w, b);
        assert(eval::is_features(*state, player, f));
    }
}

/// A planner is told the evaluation and the intent of the same position.
pub proof fn law_planner_is_told_both(
    state: &GameState,
    player: PlayerId,
    w: &EvalWeights,
    r: eval::ValueEstimate,
    value: i128,
    intent: StrategicIntent,
)
    requires
        call_ensures(eval::evaluate_for_planner, (state, player, w), r),
        call_ensures(eval::evaluate_state, (state, player, w), value),
        call_ensures(eval::strategic_intent, (state, player), intent),
    ensures
        r.value == value,
        r.intent == intent,
{
    eval::law_evaluation_is_unique(*state, player, *w, r.value as int, value as int);
}

/// What `weigh` returns: the product, rounded down to a millionth.
pub proof fn law_weigh_returns_the_product(feature: i128, weight: i64, r: i128)
    requires
        call_ensures(eval::weigh, (feature, weight), r),
    ensures
        1_000_000 * r <= feature * weight < 1_000_000 * (r + 1),
{
}

/// What the sets of weights return: uniform weights are the same all through,
/// the learned set has the learned weights in their phases, and a single
/// learned set those of the late game.
pub proof fn law_weight_sets_return_their_phases(
    set: &EvalWeightSet,
    turn: u32,
    w: EvalWeights,
    uniform: EvalWeightSet,
    learned: EvalWeightSet,
    single: EvalWeights,
    chosen: &EvalWeights,
)
    requires
        call_ensures(EvalWeightSet::uniform, (w,), uniform),
        call_ensures(EvalWeightSet::learned, (), learned),
        call_ensures(EvalWeights::learned, (), single),
        call_ensures(EvalWeightSet::for_turn, (set, turn), chosen),
    ensures
        uniform.early == w && uniform.mid == w && uniform.late == w,
        learned.early == eval::learned_early_weights(),
        learned.mid == eval::learned_mid_weights(),
        learned.late == eval::learned_late_weights(),
        single == learned.late,
        turn <= 3 ==> *chosen == set.early,
        4 <= turn <= 7 ==> *chosen == set.mid,
        turn >= 8 ==> *chosen == set.late,
{
}

/// What `creature_combat_value` returns is the combat value of the traits that
/// the given keywords are.
pub proof fn law_combat_value_asks_for_keywords<F: Fn(Keyword) -> bool>(
    power: i32,
    toughness: i32,
    has_keyword: F,
    b: &KeywordBonuses,
    r: i128,
    held: spec_fn(Keyword) -> bool,
)
    requires
        call_ensures(eval::creature_combat_value, (power, toughness, has_keyword, b), r),
        forall|k: Keyword, y: bool| call_ensures(has_keyword, (k,), y) ==> y == held(k),
    ensures
        r == eval::combat_value(power as int, toughness as int, eval::traits_among(held), *b),
        (forall|k: Keyword| !#[trigger] held(k)) ==> 2 * r == 3_000_000 * power + 2_000_000
            * toughness,
{
    law_traits_are_named_by_keywords(held);
    if forall|k: Keyword| !#[trigger] held(k) {
        assert(eval::traits_among(held) == plain()) by {
            assert(!held(Keyword::Flying));
            assert(!held(Keyword::Trample));
            assert(!held(Keyword::Deathtouch));
            assert(!held(Keyword::Lifelink));
            assert(!held(Keyword::Hexproof));
            assert(!held(Keyword::Indestructible));
            assert(!held(Keyword::FirstStrike));
            assert(!held(Keyword::DoubleStrike));
            assert(!held(Keyword::Vigilance));
            assert(!held(Keyword::Menace));
        }
        law_plain_creature_is_worth_its_stats(power as int, toughness as int, *b);
    }
}

/// What the defaults are: the standard bonuses, the weights tuned by hand, and
/// these for every phase.
pub proof fn law_defaults_are_the_standard_ones(
    bonuses: KeywordBonuses,
    weights: EvalWeights,
    set: EvalWeightSet,
    turn: int,
)
    requires
        call_ensures(KeywordBonuses::default, (), bonuses),
        call_ensures(EvalWeights::default, (), weights),
        call_ensures(EvalWeightSet::default, (), set),
    ensures
        bonuses == eval::standard_bonuses(),
        weights == eval::hand_tuned_weights(),
        set.at_turn(turn) == weights,
        bonuses.flying_mult == 1_000_000 && bonuses.trample_mult == 500_000
            && bonuses.lifelink_mult == 500_000 && bonuses.menace_mult == 500_000
            && bonuses.first_strike_mult == 800_000,
        bonuses.deathtouch_flat == 3_000_000 && bonuses.hexproof_flat == 2_000_000
            && bonuses.indestructible_flat == 4_000_000 && bonuses.vigilance_flat == 1_000_000
            && bonuses.tapped_penalty == 1_500_000,
{
}

/// What the totals of features and of parts return.
pub proof fn law_totals_are_returned(
    f: &EvalFeatures,
    w: &EvalWeights,
    weighted: i128,
    b: &EvaluationBreakdown,
    total: i128,
)
    requires
        call_ensures(EvalFeatures::weighted_total, (f, w), weighted),
        call_ensures(EvaluationBreakdown::total, (b,), total),
    ensures
        weighted == f.weighted_sum(*w),
        total == b.life + b.board_presence + b.board_power + b.board_toughness + b.hand_size
            + b.aggression + b.card_advantage,
{
}

} // verus!
