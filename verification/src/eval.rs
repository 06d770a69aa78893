//! Board evaluation.

use vstd::prelude::*;

use crate::model;
use crate::model::{
    contains_player, stat_or_zero, CommanderHeadroom, CoreType, GameObject, GameState, Keyword,
    ObjectId, PlayerId, WaitingFor, Zone,
};
use crate::score;
use crate::score::{div_floor, mul_scaled, UNIT};
use crate::seqs;

verus! {

// ---------------------------------------------------------------------------
// Board totals
// ---------------------------------------------------------------------------

/// The creatures that `p` controls, among battlefield ids.
pub open spec fn creature_of(state: GameState, p: PlayerId) -> spec_fn(ObjectId) -> bool {
    |id: ObjectId|
        match state.obj(id) {
            Some(o) => o.controller == p && o.has_type(CoreType::Creature),
            None => false,
        }
}

/// The permanents of `p` that are neither creatures nor lands.
pub open spec fn other_permanent_of(state: GameState, p: PlayerId) -> spec_fn(ObjectId) -> bool {
    |id: ObjectId|
        match state.obj(id) {
            Some(o) => o.controller == p && !o.has_type(CoreType::Creature) && !o.has_type(
                CoreType::Land,
            ),
            None => false,
        }
}

/// The power that a creature of `p` adds to the board.
pub open spec fn power_of(state: GameState, p: PlayerId) -> spec_fn(ObjectId) -> int {
    |id: ObjectId|
        match state.obj(id) {
            Some(o) => if o.controller == p && o.has_type(CoreType::Creature) {
                model::stat(o.power)
            } else {
                0
            },
            None => 0,
        }
}

/// The toughness that a creature of `p` adds to the board.
pub open spec fn toughness_of(state: GameState, p: PlayerId) -> spec_fn(ObjectId) -> int {
    |id: ObjectId|
        match state.obj(id) {
            Some(o) => if o.controller == p && o.has_type(CoreType::Creature) {
                model::stat(o.toughness)
            } else {
                0
            },
            None => 0,
        }
}

/// How many creatures `p` controls.
pub open spec fn creature_count(state: GameState, p: PlayerId) -> int {
    seqs::count(state.battlefield@, creature_of(state, p)) as int
}

/// The total power of the creatures `p` controls.
pub open spec fn total_power(state: GameState, p: PlayerId) -> int {
    seqs::sum(state.battlefield@, power_of(state, p))
}

/// The total toughness of the creatures `p` controls.
pub open spec fn total_toughness(state: GameState, p: PlayerId) -> int {
    seqs::sum(state.battlefield@, toughness_of(state, p))
}

/// How many permanents of `p` are neither creatures nor lands.
pub open spec fn other_permanent_count(state: GameState, p: PlayerId) -> int {
    seqs::count(state.battlefield@, other_permanent_of(state, p)) as int
}

/// No board total of a valid position exceeds 64 bits.
pub proof fn lemma_board_totals(state: GameState, p: PlayerId)
    requires
        state.battlefield.len() <= u32::MAX,
    ensures
        0 <= creature_count(state, p) <= u32::MAX,
        0 <= other_permanent_count(state, p) <= u32::MAX,
        i64::MIN <= total_power(state, p) <= i64::MAX,
        i64::MIN <= total_toughness(state, p) <= i64::MAX,
{
    let b = state.battlefield@;
    seqs::lemma_count_bound(b, creature_of(state, p));
    seqs::lemma_count_bound(b, other_permanent_of(state, p));
    seqs::lemma_sum_bound(b, power_of(state, p), 0x8000_0000);
    seqs::lemma_sum_bound(b, toughness_of(state, p), 0x8000_0000);
}

/// Board totals of `player`: creature count, total power, total toughness, and
/// the number of permanents that are neither creatures nor lands.
pub fn board_stats(state: &GameState, player: PlayerId) -> (r: (i64, i64, i64, i64))
    requires
        state.battlefield.len() <= u32::MAX,
    ensures
        r.0 == creature_count(*state, player),
        r.1 == total_power(*state, player),
        r.2 == total_toughness(*state, player),
        r.3 == other_permanent_count(*state, player),
{
    let mut creatures: i64 = 0;
    let mut power: i64 = 0;
    let mut toughness: i64 = 0;
    let mut others: i64 = 0;
    let ghost b = state.battlefield@;
    let mut i: usize = 0;
    while i < state.battlefield.len()
        invariant
            b == state.battlefield@,
            b.len() <= u32::MAX,
            i <= b.len(),
            0 <= creatures <= i,
            0 <= others <= i,
            -0x8000_0000 * i <= power <= 0x8000_0000 * i,
            -0x8000_0000 * i <= toughness <= 0x8000_0000 * i,
            creatures == seqs::count(b.take(i as int), creature_of(*state, player)),
            power == seqs::sum(b.take(i as int), power_of(*state, player)),
            toughness == seqs::sum(b.take(i as int), toughness_of(*state, player)),
            others == seqs::count(b.take(i as int), other_permanent_of(*state, player)),
        decreases b.len() - i,
    {
        proof {
            seqs::lemma_count_step(b, i as int, creature_of(*state, player));
            seqs::lemma_sum_step(b, i as int, power_of(*state, player));
            seqs::lemma_sum_step(b, i as int, toughness_of(*state, player));
            seqs::lemma_count_step(b, i as int, other_permanent_of(*state, player));
        }
        if let Some(obj) = state.object(state.battlefield[i]) {
            if obj.controller == player {
                if obj.is_type(CoreType::Creature) {
                    creatures += 1;
                    power += stat_or_zero(obj.power) as i64;
                    toughness += stat_or_zero(obj.toughness) as i64;
                } else if !obj.is_type(CoreType::Land) {
                    others += 1;
                }
            }
        }
        i += 1;
    }
    assert(b.take(b.len() as int) =~= b);
    (creatures, power, toughness, others)
}

/// The total power of the creatures `player` controls.
fn projected_power(state: &GameState, player: PlayerId) -> (r: i64)
    requires
        state.battlefield.len() <= u32::MAX,
    ensures
        r == total_power(*state, player),
{
    let mut power: i64 = 0;
    let ghost b = state.battlefield@;
    let mut i: usize = 0;
    while i < state.battlefield.len()
        invariant
            b == state.battlefield@,
            b.len() <= u32::MAX,
            i <= b.len(),
            -0x8000_0000 * i <= power <= 0x8000_0000 * i,
            power == seqs::sum(b.take(i as int), power_of(*state, player)),
        decreases b.len() - i,
    {
        proof {
            seqs::lemma_sum_step(b, i as int, power_of(*state, player));
        }
        if let Some(obj) = state.object(state.battlefield[i]) {
            if obj.controller == player && obj.is_type(CoreType::Creature) {
                power += stat_or_zero(obj.power) as i64;
            }
        }
        i += 1;
    }
    assert(b.take(b.len() as int) =~= b);
    power
}

// ---------------------------------------------------------------------------
// Creatures
// ---------------------------------------------------------------------------

/// What keywords add to a creature's value, in millionths. A `mult` counts
/// once per point of power, a `flat` once.
#[derive(Debug, Clone, Copy, PartialEq, Eq, Structural)]
pub struct KeywordBonuses {
    pub flying_mult: i64,
    pub trample_mult: i64,
    pub deathtouch_flat: i64,
    pub lifelink_mult: i64,
    pub hexproof_flat: i64,
    pub indestructible_flat: i64,
    pub first_strike_mult: i64,
    pub vigilance_flat: i64,
    pub menace_mult: i64,
    pub tapped_penalty: i64,
}

/// The bonuses that the evaluation uses unless told otherwise.
pub open spec fn standard_bonuses() -> KeywordBonuses {
    KeywordBonuses {
        flying_mult: 1_000_000,
        trample_mult: 500_000,
        deathtouch_flat: 3_000_000,
        lifelink_mult: 500_000,
        hexproof_flat: 2_000_000,
        indestructible_flat: 4_000_000,
        first_strike_mult: 800_000,
        vigilance_flat: 1_000_000,
        menace_mult: 500_000,
        tapped_penalty: 1_500_000,
    }
}

impl Default for KeywordBonuses {
    fn default() -> (r: Self)
        ensures
            r == standard_bonuses(),
    {
        KeywordBonuses {
            flying_mult: 1_000_000,
            trample_mult: 500_000,
            deathtouch_flat: 3_000_000,
            lifelink_mult: 500_000,
            hexproof_flat: 2_000_000,
            indestructible_flat: 4_000_000,
            first_strike_mult: 800_000,
            vigilance_flat: 1_000_000,
            menace_mult: 500_000,
            tapped_penalty: 1_500_000,
        }
    }
}

/// `amount` where `present`, else nothing.
pub open spec fn when(present: bool, amount: int) -> int {
    if present {
        amount
    } else {
        0
    }
}

/// A bonus that counts once per point of power, where `present`.
#[verifier::opaque]
pub open spec fn power_bonus(present: bool, power: int, bonus: int) -> int {
    when(present, power * bonus)
}

/// The keywords that bear on combat value.
#[derive(Debug, Clone, Copy, PartialEq, Eq, Structural)]
pub struct CombatTraits {
    pub flying: bool,
    pub trample: bool,
    pub deathtouch: bool,
    pub lifelink: bool,
    pub hexproof: bool,
    pub indestructible: bool,
    /// First strike or double strike.
    pub strikes_first: bool,
    pub vigilance: bool,
    pub menace: bool,
}

/// The combat traits in a set of keywords.
pub open spec fn traits_among(has: spec_fn(Keyword) -> bool) -> CombatTraits {
    CombatTraits {
        flying: has(Keyword::Flying),
        trample: has(Keyword::Trample),
        deathtouch: has(Keyword::Deathtouch),
        lifelink: has(Keyword::Lifelink),
        hexproof: has(Keyword::Hexproof),
        indestructible: has(Keyword::Indestructible),
        strikes_first: has(Keyword::FirstStrike) || has(Keyword::DoubleStrike),
        vigilance: has(Keyword::Vigilance),
        menace: has(Keyword::Menace),
    }
}

/// The combat value of a creature: a point of power counts for one and a half,
/// a point of toughness for one, and each trait adds its bonus.
pub open spec fn combat_value(
    power: int,
    toughness: int,
    t: CombatTraits,
    b: KeywordBonuses,
) -> int {
    power * 1_500_000 + toughness * 1_000_000
        + power_bonus(t.flying, power, b.flying_mult as int)
        + power_bonus(t.trample, power, b.trample_mult as int)
        + when(t.deathtouch, b.deathtouch_flat as int)
        + power_bonus(t.lifelink, power, b.lifelink_mult as int)
        + when(t.hexproof, b.hexproof_flat as int)
        + when(t.indestructible, b.indestructible_flat as int)
        + power_bonus(t.strikes_first, power, b.first_strike_mult as int)
        + when(t.vigilance, b.vigilance_flat as int)
        + power_bonus(t.menace, power, b.menace_mult as int)
}

/// A bonus that counts once per point of power.
fn per_power(present: bool, power: i32, bonus: i64) -> (r: i128)
    ensures
        r == power_bonus(present, power as int, bonus as int),
        -0x8000_0000 * 0x8000_0000_0000_0000 <= r <= 0x8000_0000 * 0x8000_0000_0000_0000,
{
    proof {
        reveal(power_bonus);
        score::lemma_product_bound(
            power as int,
            bonus as int,
            0x8000_0000,
            0x8000_0000_0000_0000,
        );
    }
    if present {
        power as i128 * bonus as i128
    } else {
        0
    }
}

/// A bonus that counts once.
fn flat(present: bool, bonus: i64) -> (r: i128)
    ensures
        r == when(present, bonus as int),
        -0x8000_0000_0000_0000 <= r <= 0x8000_0000_0000_0000,
{
    if present {
        bonus as i128
    } else {
        0
    }
}

/// The combat value of a creature with the given traits.
fn value_of_traits(power: i32, toughness: i32, t: CombatTraits, b: &KeywordBonuses) -> (r: i128)
    ensures
        r == combat_value(power as int, toughness as int, t, *b),
        -COMBAT_VALUE_LIMIT <= r <= COMBAT_VALUE_LIMIT,
{
    let base: i128 = power as i128 * 1_500_000 + toughness as i128 * 1_000_000;
    let flying: i128 = per_power(t.flying, power, b.flying_mult);
    let trample: i128 = per_power(t.trample, power, b.trample_mult);
    let deathtouch: i128 = flat(t.deathtouch, b.deathtouch_flat);
    let lifelink: i128 = per_power(t.lifelink, power, b.lifelink_mult);
    let hexproof: i128 = flat(t.hexproof, b.hexproof_flat);
    let indestructible: i128 = flat(t.indestructible, b.indestructible_flat);
    let strikes_first: i128 = per_power(t.strikes_first, power, b.first_strike_mult);
    let vigilance: i128 = flat(t.vigilance, b.vigilance_flat);
    let menace: i128 = per_power(t.menace, power, b.menace_mult);
    base + flying + trample + deathtouch + lifelink + hexproof + indestructible + strikes_first
        + vigilance + menace
}

/// The combat value of a creature from its stats and keywords alone. The
/// tapped penalty is a matter of the board and is not applied.
pub fn creature_combat_value(
    power: i32,
    toughness: i32,
    has_keyword: impl Fn(Keyword) -> bool,
    bonuses: &KeywordBonuses,
) -> (r: i128)
    requires
        forall|k: Keyword| call_requires(has_keyword, (k,)),
    ensures
        forall|has: spec_fn(Keyword) -> bool|
            (forall|k: Keyword, b: bool| call_ensures(has_keyword, (k,), b) ==> b == has(k))
                ==> r == combat_value(
                power as int,
                toughness as int,
                #[trigger] traits_among(has),
                *bonuses,
            ),
        -COMBAT_VALUE_LIMIT <= r <= COMBAT_VALUE_LIMIT,
{
    let first_strike: bool = has_keyword(Keyword::FirstStrike);
    let double_strike: bool = has_keyword(Keyword::DoubleStrike);
    let traits = CombatTraits {
        flying: has_keyword(Keyword::Flying),
        trample: has_keyword(Keyword::Trample),
        deathtouch: has_keyword(Keyword::Deathtouch),
        lifelink: has_keyword(Keyword::Lifelink),
        hexproof: has_keyword(Keyword::Hexproof),
        indestructible: has_keyword(Keyword::Indestructible),
        strikes_first: first_strike || double_strike,
        vigilance: has_keyword(Keyword::Vigilance),
        menace: has_keyword(Keyword::Menace),
    };
    value_of_traits(power, toughness, traits, bonuses)
}

/// No combat value is farther from zero than this.
pub const COMBAT_VALUE_LIMIT: i128 = 0x2_0000_0000_0000_0000_0000_0000;

/// The keywords of an object.
pub open spec fn keywords_of(obj: GameObject) -> spec_fn(Keyword) -> bool {
    |k: Keyword| obj.has(k)
}

/// The value of an object on the board: its combat value, less the tapped
/// penalty where it is tapped.
pub open spec fn board_value(obj: GameObject, b: KeywordBonuses) -> int {
    combat_value(
        model::stat(obj.power),
        model::stat(obj.toughness),
        traits_among(keywords_of(obj)),
        b,
    ) - when(
        obj.tapped,
        b.tapped_penalty as int,
    )
}

/// Flight adds its bonus for each point of power, whatever else a creature has.
pub proof fn law_flying_adds_its_bonus(
    power: int,
    toughness: int,
    t: CombatTraits,
    b: KeywordBonuses,
)
    ensures
        combat_value(power, toughness, CombatTraits { flying: true, ..t }, b) == combat_value(
            power,
            toughness,
            CombatTraits { flying: false, ..t },
            b,
        ) + power * b.flying_mult,
{
    reveal(power_bonus);
}

/// A tapped creature is worth exactly the penalty less than one that is the
/// same but for being untapped.
pub proof fn law_tapping_costs_the_penalty(
    untapped: GameObject,
    tapped: GameObject,
    b: KeywordBonuses,
)
    requires
        !untapped.tapped,
        tapped.tapped,
        tapped.power == untapped.power,
        tapped.toughness == untapped.toughness,
        tapped.keywords@ == untapped.keywords@,
    ensures
        board_value(tapped, b) == board_value(untapped, b) - b.tapped_penalty,
{
}

/// The value of the object with the given id, zero where there is none.
pub open spec fn creature_value(state: GameState, id: ObjectId, b: KeywordBonuses) -> int {
    match state.obj(id) {
        Some(obj) => board_value(obj, b),
        None => 0,
    }
}

/// No board value with the standard keyword bonuses is farther from zero than
/// this.
pub const STANDARD_VALUE_LIMIT: i128 = 0x40_0000_0000_0000;

/// The standard bonuses keep every value within their limit.
pub proof fn lemma_standard_value(state: GameState, id: ObjectId)
    ensures
        -STANDARD_VALUE_LIMIT <= creature_value(state, id, standard_bonuses())
            <= STANDARD_VALUE_LIMIT,
{
    reveal(power_bonus);
}

/// The value of a creature with the standard keyword bonuses.
pub fn evaluate_creature(state: &GameState, obj_id: ObjectId) -> (r: i128)
    ensures
        r == creature_value(*state, obj_id, standard_bonuses()),
        -STANDARD_VALUE_LIMIT <= r <= STANDARD_VALUE_LIMIT,
{
    proof {
        lemma_standard_value(*state, obj_id);
    }
    evaluate_creature_with_bonuses(state, obj_id, &KeywordBonuses::default())
}

/// The value of a creature with the given keyword bonuses.
pub fn evaluate_creature_with_bonuses(
    state: &GameState,
    obj_id: ObjectId,
    bonuses: &KeywordBonuses,
) -> (r: i128)
    ensures
        r == creature_value(*state, obj_id, *bonuses),
        -2 * COMBAT_VALUE_LIMIT <= r <= 2 * COMBAT_VALUE_LIMIT,
{
    let obj = match state.object(obj_id) {
        Some(o) => o,
        None => return 0,
    };
    let has_keyword = |k: Keyword| -> (b: bool)
        ensures
            b == obj.has(k),
        { obj.has_keyword(k) };
    let value: i128 = creature_combat_value(
        stat_or_zero(obj.power),
        stat_or_zero(obj.toughness),
        has_keyword,
        bonuses,
    );
    assert(value == combat_value(
        model::stat(obj.power),
        model::stat(obj.toughness),
        traits_among(keywords_of(*obj)),
        *bonuses,
    ));
    if obj.tapped {
        value - bonuses.tapped_penalty as i128
    } else {
        value
    }
}

// ---------------------------------------------------------------------------
// Threat
// ---------------------------------------------------------------------------

/// The damage headroom that the table lists for a commander against a player.
pub open spec fn find_headroom(
    table: Seq<CommanderHeadroom>,
    commander: ObjectId,
    defender: PlayerId,
) -> Option<u32>
    decreases table.len(),
{
    if table.len() == 0 {
        None
    } else if table[0].commander == commander && table[0].defender == defender {
        Some(table[0].headroom)
    } else {
        find_headroom(table.drop_first(), commander, defender)
    }
}

/// The damage headroom that the table lists for a commander against a player.
fn commander_lethal_headroom(
    table: &Vec<CommanderHeadroom>,
    commander: ObjectId,
    defender: PlayerId,
) -> (r: Option<u32>)
    ensures
        r == find_headroom(table@, commander, defender),
{
    let mut i: usize = 0;
    assert(table@.skip(0) =~= table@);
    while i < table.len()
        invariant
            i <= table.len(),
            find_headroom(table@.skip(i as int), commander, defender) == find_headroom(
                table@,
                commander,
                defender,
            ),
        decreases table.len() - i,
    {
        assert(table@.skip(i as int).drop_first() =~= table@.skip(i + 1));
        if table[i].commander == commander && table[i].defender == defender {
            return Some(table[i].headroom);
        }
        i += 1;
    }
    None
}

/// The share of the board in a threat level: three tenths of a point for each
/// creature and seven for each point of power, ten points filling the share of
/// four tenths.
pub open spec fn board_threat(creatures: int, power: int) -> int {
    score::lesser(creatures * 12_000 + power * 28_000, 400_000)
}

/// The share of the life total in a threat level: twice the starting life
/// fills the share of two tenths.
pub open spec fn life_threat(life: int, starting_life: int) -> int {
    let start = score::greater(starting_life, 1);
    (score::clamped(life, 0, 2 * start) * 100_000) / start
}

/// The share of the hand in a threat level: seven cards fill the share of
/// fifteen hundredths.
pub open spec fn hand_threat(cards: int) -> int {
    (score::lesser(cards, 7) * 150_000) / 7
}

/// How close one commander is to defeating a player, up to the share of a
/// quarter that a full threshold fills.
pub open spec fn commander_progress(threshold: int, headroom: int) -> int {
    if threshold <= 0 {
        250_000
    } else {
        (score::greater(threshold - headroom, 0) * 250_000) / threshold
    }
}

/// The progress that an object makes as a commander of `target` against
/// `evaluator`; nothing where it is not such a commander.
pub open spec fn commander_threat_of(
    state: GameState,
    evaluator: PlayerId,
    target: PlayerId,
    threshold: int,
) -> spec_fn(GameObject) -> int {
    |o: GameObject|
        if o.is_commander && o.owner == target {
            match find_headroom(state.commander_headroom@, o.id, evaluator) {
                Some(headroom) => commander_progress(threshold, headroom as int),
                None => 0,
            }
        } else {
            0
        }
}

/// The share of commander damage in a threat level: that of the one commander
/// of `target` that is closest to defeating `evaluator`.
pub open spec fn commander_threat(
    state: GameState,
    evaluator: PlayerId,
    target: PlayerId,
) -> int {
    match state.commander_damage_threshold {
        None => 0,
        Some(threshold) => seqs::largest(
            state.objects@,
            0,
            commander_threat_of(state, evaluator, target, threshold as int),
        ),
    }
}

/// The threat level of `target` to `evaluator`, where the board of `target`
/// has the given power: the four shares together, and never below zero.
pub open spec fn threat_with_power(
    state: GameState,
    evaluator: PlayerId,
    target: PlayerId,
    power: int,
) -> int {
    score::greater(
        board_threat(creature_count(state, target), power) + life_threat(
            state.seat(target).life as int,
            state.starting_life as int,
        ) + hand_threat(state.seat(target).hand.len() as int) + commander_threat(
            state,
            evaluator,
            target,
        ),
        0,
    )
}

/// The threat level of `target` to `evaluator`.
pub open spec fn threat(state: GameState, evaluator: PlayerId, target: PlayerId) -> int {
    threat_with_power(state, evaluator, target, total_power(state, target))
}

/// One commander's progress fills at most its share.
proof fn lemma_commander_progress(threshold: int, headroom: int)
    requires
        headroom >= 0,
    ensures
        0 <= commander_progress(threshold, headroom) <= 250_000,
{
    if threshold > 0 {
        let dealt = score::greater(threshold - headroom, 0);
        assert(0 <= (dealt * 250_000) / threshold <= 250_000) by (nonlinear_arith)
            requires
                0 <= dealt <= threshold,
                threshold > 0,
        ;
    }
}

/// The life share lies between nothing and two tenths.
proof fn lemma_life_threat(life: int, starting_life: int)
    ensures
        0 <= life_threat(life, starting_life) <= 200_000,
{
    let start = score::greater(starting_life, 1);
    let held = score::clamped(life, 0, 2 * start);
    assert(0 <= (held * 100_000) / start <= 200_000) by (nonlinear_arith)
        requires
            0 <= held <= 2 * start,
            start >= 1,
    ;
}

/// The commander share lies between nothing and a quarter.
proof fn lemma_commander_threat(state: GameState, evaluator: PlayerId, target: PlayerId)
    ensures
        0 <= commander_threat(state, evaluator, target) <= 250_000,
{
    if let Some(threshold) = state.commander_damage_threshold {
        let f = commander_threat_of(state, evaluator, target, threshold as int);
        assert forall|i: int| 0 <= i < state.objects@.len() implies f(
            #[trigger] state.objects@[i],
        ) <= 250_000 by {
            let o = state.objects@[i];
            if let Some(headroom) = find_headroom(state.commander_headroom@, o.id, evaluator) {
                lemma_commander_progress(threshold as int, headroom as int);
            }
        }
        seqs::lemma_largest_bounds(state.objects@, 0, f, 250_000);
    }
}

/// A threat level lies between zero and one.
pub proof fn law_threat_in_unit_range(
    state: GameState,
    evaluator: PlayerId,
    target: PlayerId,
    power: int,
)
    ensures
        0 <= threat_with_power(state, evaluator, target, power) <= UNIT,
{
    lemma_life_threat(state.seat(target).life as int, state.starting_life as int);
    lemma_commander_threat(state, evaluator, target);
}

/// More power on the board never makes a player less threatening.
pub proof fn law_threat_grows_with_power(
    state: GameState,
    evaluator: PlayerId,
    target: PlayerId,
    power: int,
    more: int,
)
    requires
        power <= more,
    ensures
        threat_with_power(state, evaluator, target, power) <= threat_with_power(
            state,
            evaluator,
            target,
            more,
        ),
{
}

/// The commander share of a threat level.
fn commander_threat_level(state: &GameState, evaluator: PlayerId, target: PlayerId) -> (r: i128)
    ensures
        r == commander_threat(*state, evaluator, target),
        0 <= r <= 250_000,
{
    proof {
        lemma_commander_threat(*state, evaluator, target);
    }
    let threshold: u8 = match state.commander_damage_threshold {
        Some(t) => t,
        None => return 0,
    };
    let ghost f = commander_threat_of(*state, evaluator, target, threshold as int);
    let ghost objects = state.objects@;
    let mut best: i128 = 0;
    let mut i: usize = 0;
    while i < state.objects.len()
        invariant
            objects == state.objects@,
            f == commander_threat_of(*state, evaluator, target, threshold as int),
            i <= objects.len(),
            0 <= best <= 250_000,
            best == seqs::largest(objects.take(i as int), 0, f),
        decreases objects.len() - i,
    {
        proof {
            seqs::lemma_largest_step(objects, i as int, 0, f);
        }
        let o = &state.objects[i];
        if o.is_commander && o.owner == target {
            if let Some(headroom) = commander_lethal_headroom(
                &state.commander_headroom,
                o.id,
                evaluator,
            ) {
                proof {
                    lemma_commander_progress(threshold as int, headroom as int);
                }
                let progress: i128 = if threshold == 0 {
                    250_000
                } else if headroom as i128 >= threshold as i128 {
                    0
                } else {
                    div_floor((threshold as i128 - headroom as i128) * 250_000, threshold as i128)
                };
                assert(progress == commander_progress(threshold as int, headroom as int)) by {
                    if threshold > 0 && headroom >= threshold {
                        assert((0int * 250_000) / (threshold as int) == 0) by (nonlinear_arith)
                            requires
                                threshold > 0,
                        ;
                    }
                }
                if progress > best {
                    best = progress;
                }
            }
        }
        i += 1;
    }
    assert(objects.take(objects.len() as int) =~= objects);
    best
}

/// How threatening `target` is to `evaluator`, from zero to one.
pub fn threat_level(state: &GameState, evaluator: PlayerId, target: PlayerId) -> (r: i128)
    requires
        state.valid(),
        state.seated(target),
    ensures
        r == threat(*state, evaluator, target),
        0 <= r <= UNIT,
{
    threat_level_projected(state, evaluator, target, None)
}

/// How threatening `target` is to `evaluator`, where the power of `target` is
/// read from a projected position if there is one. Everything else is read
/// from the current position.
pub fn threat_level_projected(
    state: &GameState,
    evaluator: PlayerId,
    target: PlayerId,
    projection: Option<&GameState>,
) -> (r: i128)
    requires
        state.valid(),
        state.seated(target),
        projection matches Some(projected) ==> projected.valid(),
    ensures
        r == threat_with_power(
            *state,
            evaluator,
            target,
            match projection {
                Some(projected) => total_power(*projected, target),
                None => total_power(*state, target),
            },
        ),
        0 <= r <= UNIT,
{
    let player = state.player(target);
    let (creatures, base_power, _toughness, _others) = board_stats(state, target);
    let power: i64 = match projection {
        Some(projected) => projected_power(projected, target),
        None => base_power,
    };
    proof {
        lemma_board_totals(*state, target);
        lemma_life_threat(player.life as int, state.starting_life as int);
        law_threat_in_unit_range(*state, evaluator, target, power as int);
    }
    let board: i128 = score::min_score(
        creatures as i128 * 12_000 + power as i128 * 28_000,
        400_000,
    );
    let start: i128 = if state.starting_life > 1 {
        state.starting_life as i128
    } else {
        1
    };
    let life: i128 = div_floor(
        score::clamp_score(player.life as i128, 0, 2 * start) * 100_000,
        start,
    );
    let cards: i128 = if player.hand.len() < 7 {
        player.hand.len() as i128
    } else {
        7
    };
    let hand: i128 = div_floor(cards * 150_000, 7);
    let commander: i128 = commander_threat_level(state, evaluator, target);
    score::max_score(board + life + hand + commander, 0)
}

/// The value of a living opponent's creature on the battlefield, weighted by
/// how threatening its controller is: its board value times the threat level
/// plus one half. `None` for every other object.
pub open spec fn threat_value(state: GameState, evaluator: PlayerId, id: ObjectId) -> Option<int> {
    match state.obj(id) {
        None => None,
        Some(o) => if o.zone == Zone::Battlefield && o.has_type(CoreType::Creature)
            && state.opponents_of(evaluator).contains(o.controller) {
            Some(
                score::scaled(
                    creature_value(state, id, standard_bonuses()),
                    threat(state, evaluator, o.controller) + 500_000,
                ),
            )
        } else {
            None
        },
    }
}

/// An exact value in place of a mathematical one.
pub open spec fn int_opt(v: Option<i128>) -> Option<int> {
    match v {
        Some(x) => Some(x as int),
        None => None,
    }
}

/// No threat value is farther from zero than this.
pub const THREAT_VALUE_LIMIT: i128 = 0x10_0000_0000_0000_0000_0000_0000;

/// The value of a living opponent's creature on the battlefield, weighted by
/// how threatening its controller is.
pub fn opponent_battlefield_creature_threat_value(
    state: &GameState,
    evaluator: PlayerId,
    object_id: ObjectId,
) -> (r: Option<i128>)
    requires
        state.valid(),
        state.seated(evaluator),
    ensures
        int_opt(r) == threat_value(*state, evaluator, object_id),
        r matches Some(v) ==> -THREAT_VALUE_LIMIT <= v <= THREAT_VALUE_LIMIT,
{
    let object = match state.object(object_id) {
        Some(o) => o,
        None => return None,
    };
    let opponents = &state.player(evaluator).opponents;
    if object.zone != Zone::Battlefield || !object.is_type(CoreType::Creature) || !contains_player(
        opponents,
        object.controller,
    ) {
        return None;
    }
    proof {
        let j = choose|j: int| 0 <= j < opponents.len() && opponents@[j] == object.controller;
        assert(state.seated(state.players[evaluator.0 as int].opponents[j]));
    }
    let value: i128 = evaluate_creature(state, object_id);
    let weight: i128 = threat_level(state, evaluator, object.controller) + 500_000;
    proof {
        score::lemma_product_bound(
            value as int,
            weight as int,
            2 * COMBAT_VALUE_LIMIT,
            1_500_000,
        );
        assert(2 * COMBAT_VALUE_LIMIT * 1_500_000 <= THREAT_VALUE_LIMIT * 1_000_000);
        let m = value * weight;
        assert(-THREAT_VALUE_LIMIT <= m / 1_000_000 <= THREAT_VALUE_LIMIT);
    }
    Some(mul_scaled(value, weight))
}

// ---------------------------------------------------------------------------
// Strategic intent
// ---------------------------------------------------------------------------

/// What the board asks of a player.
#[derive(Debug, Clone, Copy, PartialEq, Eq, Structural)]
pub enum StrategicIntent {
    PushLethal,
    Stabilize,
    PreserveAdvantage,
    Develop,
}

/// The life total of each player.
pub open spec fn life_of(state: GameState) -> spec_fn(PlayerId) -> int {
    |p: PlayerId| state.seat(p).life as int
}

/// The board power of each player.
pub open spec fn board_power_of(state: GameState) -> spec_fn(PlayerId) -> int {
    |p: PlayerId| total_power(state, p)
}

/// Every player.
pub open spec fn anyone() -> spec_fn(PlayerId) -> bool {
    |p: PlayerId| true
}

/// What the board asks of `player`. With opponents on the table: push where
/// the own power reaches the lowest opposing life total, else stabilize where
/// the own life total is within reach of the opposing power, else preserve
/// where both power and life are at least those of the opposition (its total
/// power, its average life), else develop.
pub open spec fn intent(state: GameState, player: PlayerId) -> StrategicIntent {
    let opponents = state.opponents_of(player);
    let my_power = total_power(state, player);
    let my_life = state.seat(player).life as int;
    let opp_power = seqs::sum(opponents, board_power_of(state));
    match seqs::minimum(opponents, anyone(), life_of(state)) {
        None => StrategicIntent::PreserveAdvantage,
        Some(lowest) => if lowest > 0 && my_power >= lowest {
            StrategicIntent::PushLethal
        } else if my_life <= score::greater(opp_power, 1) {
            StrategicIntent::Stabilize
        } else if my_power >= opp_power && my_life * opponents.len() >= seqs::sum(
            opponents,
            life_of(state),
        ) {
            StrategicIntent::PreserveAdvantage
        } else {
            StrategicIntent::Develop
        },
    }
}

/// What the board asks of `player`.
pub fn strategic_intent(state: &GameState, player: PlayerId) -> (r: StrategicIntent)
    requires
        state.valid(),
        state.seated(player),
    ensures
        r == intent(*state, player),
{
    let opponents = &state.player(player).opponents;
    let ghost opps = opponents@;
    assert(opps == state.opponents_of(player));
    assert(state.players[player.0 as int].opponents.len() <= 255);
    let mut lowest: Option<i32> = None;
    let mut opp_power: i128 = 0;
    let mut opp_life: i128 = 0;
    let mut i: usize = 0;
    while i < opponents.len()
        invariant
            state.valid(),
            state.seated(player),
            opponents == &state.players[player.0 as int].opponents,
            opps == opponents@,
            opps.len() <= 255,
            i <= opps.len(),
            match lowest {
                Some(m) => seqs::minimum(opps.take(i as int), anyone(), life_of(*state)) == Some(
                    m as int,
                ),
                None => seqs::minimum(opps.take(i as int), anyone(), life_of(*state)) is None,
            },
            opp_power == seqs::sum(opps.take(i as int), board_power_of(*state)),
            opp_life == seqs::sum(opps.take(i as int), life_of(*state)),
            -0x8000_0000_0000_0000 * i <= opp_power <= 0x8000_0000_0000_0000 * i,
            -0x8000_0000 * i <= opp_life <= 0x8000_0000 * i,
        decreases opps.len() - i,
    {
        let opp = opponents[i];
        assert(state.seated(state.players[player.0 as int].opponents[i as int]));
        proof {
            seqs::lemma_minimum_step(opps, i as int, anyone(), life_of(*state));
            seqs::lemma_sum_step(opps, i as int, board_power_of(*state));
            seqs::lemma_sum_step(opps, i as int, life_of(*state));
        }
        let (_creatures, power, _toughness, _others) = board_stats(state, opp);
        opp_power += power as i128;
        let life: i32 = state.player(opp).life;
        opp_life += life as i128;
        lowest = match lowest {
            Some(m) => if life < m {
                Some(life)
            } else {
                Some(m)
            },
            None => Some(life),
        };
        i += 1;
    }
    assert(opps.take(opps.len() as int) =~= opps);
    let lowest: i32 = match lowest {
        Some(m) => m,
        None => return StrategicIntent::PreserveAdvantage,
    };
    let (_creatures, my_power, _toughness, _others) = board_stats(state, player);
    let my_life: i32 = state.player(player).life;
    if lowest > 0 && my_power >= lowest as i64 {
        StrategicIntent::PushLethal
    } else if my_life as i128 <= score::max_score(opp_power, 1) {
        StrategicIntent::Stabilize
    } else {
        proof {
            score::lemma_product_bound(
                my_life as int,
                opponents.len() as int,
                0x8000_0000,
                255,
            );
        }
        if my_power as i128 >= opp_power && my_life as i128 * opponents.len() as i128 >= opp_life {
            StrategicIntent::PreserveAdvantage
        } else {
            StrategicIntent::Develop
        }
    }
}

// ---------------------------------------------------------------------------
// Weights
// ---------------------------------------------------------------------------

/// How much each feature of a position counts, in millionths.
#[derive(Debug, Clone, Copy, PartialEq, Eq, Structural)]
pub struct EvalWeights {
    pub life: i64,
    pub aggression: i64,
    pub board_presence: i64,
    pub board_power: i64,
    pub board_toughness: i64,
    pub hand_size: i64,
    pub zone_quality: i64,
    pub card_advantage: i64,
    pub synergy: i64,
}

/// The weights that hold before anything was learned.
pub open spec fn hand_tuned_weights() -> EvalWeights {
    EvalWeights {
        life: 1_000_000,
        aggression: 500_000,
        board_presence: 2_000_000,
        board_power: 1_500_000,
        board_toughness: 1_000_000,
        hand_size: 500_000,
        zone_quality: 300_000,
        card_advantage: 300_000,
        synergy: 500_000,
    }
}

/// The learned weights of the first three turns.
pub open spec fn learned_early_weights() -> EvalWeights {
    EvalWeights {
        life: 463_600,
        aggression: 500_000,
        board_presence: 2_063_600,
        board_power: 1_017_400,
        board_toughness: 1_000_000,
        hand_size: 1_371_600,
        zone_quality: 300_000,
        card_advantage: 2_500_000,
        synergy: 500_000,
    }
}

/// The learned weights of turns four to seven.
pub open spec fn learned_mid_weights() -> EvalWeights {
    EvalWeights {
        life: 583_800,
        aggression: 500_000,
        board_presence: 1_988_800,
        board_power: 803_100,
        board_toughness: 1_000_000,
        hand_size: 2_396_000,
        zone_quality: 300_000,
        card_advantage: 2_500_000,
        synergy: 500_000,
    }
}

/// The learned weights from turn eight on.
pub open spec fn learned_late_weights() -> EvalWeights {
    EvalWeights {
        life: 491_200,
        aggression: 500_000,
        board_presence: 1_731_700,
        board_power: 668_600,
        board_toughness: 1_000_000,
        hand_size: 2_500_000,
        zone_quality: 300_000,
        card_advantage: 1_945_000,
        synergy: 500_000,
    }
}

/// No weight may be farther from zero than this, so that the weighted features
/// of every valid position can be summed.
pub const WEIGHT_LIMIT: i64 = 500_000_000_000_000_000;

impl EvalWeights {
    /// Whether products with features stay within range.
    pub open spec fn bounded(self) -> bool {
        &&& -WEIGHT_LIMIT <= self.life <= WEIGHT_LIMIT
        &&& -WEIGHT_LIMIT <= self.aggression <= WEIGHT_LIMIT
        &&& -WEIGHT_LIMIT <= self.board_presence <= WEIGHT_LIMIT
        &&& -WEIGHT_LIMIT <= self.board_power <= WEIGHT_LIMIT
        &&& -WEIGHT_LIMIT <= self.board_toughness <= WEIGHT_LIMIT
        &&& -WEIGHT_LIMIT <= self.hand_size <= WEIGHT_LIMIT
        &&& -WEIGHT_LIMIT <= self.zone_quality <= WEIGHT_LIMIT
        &&& -WEIGHT_LIMIT <= self.card_advantage <= WEIGHT_LIMIT
        &&& -WEIGHT_LIMIT <= self.synergy <= WEIGHT_LIMIT
    }

    /// The learned weights of the late game, for callers that use one set for
    /// the whole game.
    pub fn learned() -> (r: Self)
        ensures
            r == learned_late_weights(),
            r.bounded(),
    {
        EvalWeightSet::learned().late
    }
}

impl Default for EvalWeights {
    fn default() -> (r: Self)
        ensures
            r == hand_tuned_weights(),
            r.bounded(),
    {
        EvalWeights {
            life: 1_000_000,
            aggression: 500_000,
            board_presence: 2_000_000,
            board_power: 1_500_000,
            board_toughness: 1_000_000,
            hand_size: 500_000,
            zone_quality: 300_000,
            card_advantage: 300_000,
            synergy: 500_000,
        }
    }
}

/// Weights for the early, middle and late game.
#[derive(Debug, Clone, Copy, PartialEq, Eq, Structural)]
pub struct EvalWeightSet {
    pub early: EvalWeights,
    pub mid: EvalWeights,
    pub late: EvalWeights,
}

impl Default for EvalWeightSet {
    fn default() -> (r: Self)
        ensures
            r == (EvalWeightSet {
                early: hand_tuned_weights(),
                mid: hand_tuned_weights(),
                late: hand_tuned_weights(),
            }),
    {
        EvalWeightSet::uniform(EvalWeights::default())
    }
}

impl EvalWeightSet {
    /// The weights that count on a turn: early up to turn three, middle up to
    /// turn seven, late after that.
    pub open spec fn at_turn(self, turn: int) -> EvalWeights {
        if turn <= 3 {
            self.early
        } else if turn <= 7 {
            self.mid
        } else {
            self.late
        }
    }

    /// The same weights for the whole game.
    pub fn uniform(weights: EvalWeights) -> (r: Self)
        ensures
            r == (EvalWeightSet { early: weights, mid: weights, late: weights }),
    {
        EvalWeightSet { early: weights, mid: weights, late: weights }
    }

    /// The weights that count on `turn`.
    pub fn for_turn(&self, turn: u32) -> (r: &EvalWeights)
        ensures
            *r == self.at_turn(turn as int),
    {
        if turn <= 3 {
            &self.early
        } else if turn <= 7 {
            &self.mid
        } else {
            &self.late
        }
    }

    /// The weights learned from recorded games.
    pub fn learned() -> (r: Self)
        ensures
            r == (EvalWeightSet {
                early: learned_early_weights(),
                mid: learned_mid_weights(),
                late: learned_late_weights(),
            }),
            r.early.bounded(),
            r.mid.bounded(),
            r.late.bounded(),
    {
        EvalWeightSet {
            early: EvalWeights {
                life: 463_600,
                aggression: 500_000,
                board_presence: 2_063_600,
                board_power: 1_017_400,
                board_toughness: 1_000_000,
                hand_size: 1_371_600,
                zone_quality: 300_000,
                card_advantage: 2_500_000,
                synergy: 500_000,
            },
            mid: EvalWeights {
                life: 583_800,
                aggression: 500_000,
                board_presence: 1_988_800,
                board_power: 803_100,
                board_toughness: 1_000_000,
                hand_size: 2_396_000,
                zone_quality: 300_000,
                card_advantage: 2_500_000,
                synergy: 500_000,
            },
            late: EvalWeights {
                life: 491_200,
                aggression: 500_000,
                board_presence: 1_731_700,
                board_power: 668_600,
                board_toughness: 1_000_000,
                hand_size: 2_500_000,
                zone_quality: 300_000,
                card_advantage: 1_945_000,
                synergy: 500_000,
            },
        }
    }
}

/// A set of one kind of weights gives those weights on every turn.
pub proof fn law_uniform_weights_do_not_depend_on_the_turn(weights: EvalWeights, turn: int)
    ensures
        (EvalWeightSet { early: weights, mid: weights, late: weights }).at_turn(turn) == weights,
{
}

// ---------------------------------------------------------------------------
// Features
// ---------------------------------------------------------------------------

/// The score of a won game.
pub const WIN_SCORE: i128 = 10_000_000_000;

/// The score of a lost game.
pub const LOSS_SCORE: i128 = -10_000_000_000;

/// The features of a position, unweighted, in millionths. Each but
/// `energy_offset` is a difference between a player and the opposition.
#[derive(Debug, Clone, Copy, PartialEq, Eq, Structural, Default)]
pub struct EvalFeatures {
    pub life: i128,
    pub board_presence: i128,
    pub board_power: i128,
    pub board_toughness: i128,
    pub hand_size: i128,
    pub aggression: i128,
    /// The difference in permanents that are neither creatures nor lands.
    pub card_advantage_breakdown: i128,
    /// A tenth of a card for each energy counter; added after weighting.
    pub energy_offset: i128,
}

/// The creature count of each player.
pub open spec fn creatures_of(state: GameState) -> spec_fn(PlayerId) -> int {
    |p: PlayerId| creature_count(state, p)
}

/// The board toughness of each player.
pub open spec fn board_toughness_of(state: GameState) -> spec_fn(PlayerId) -> int {
    |p: PlayerId| total_toughness(state, p)
}

/// The hand size of each player.
pub open spec fn hand_of(state: GameState) -> spec_fn(PlayerId) -> int {
    |p: PlayerId| state.seat(p).hand.len() as int
}

/// The number of other permanents of each player.
pub open spec fn others_of(state: GameState) -> spec_fn(PlayerId) -> int {
    |p: PlayerId| other_permanent_count(state, p)
}

/// The threat level of each player to `player`.
pub open spec fn threat_of(state: GameState, player: PlayerId) -> spec_fn(PlayerId) -> int {
    |p: PlayerId| threat(state, player, p)
}

/// The threat levels of all opponents together, at least one hundredth.
pub open spec fn total_threat(state: GameState, player: PlayerId) -> int {
    score::greater(seqs::sum(state.opponents_of(player), threat_of(state, player)), 10_000)
}

/// The amount of each opponent, times its threat level.
pub open spec fn weighted_of(
    state: GameState,
    player: PlayerId,
    f: spec_fn(PlayerId) -> int,
) -> spec_fn(PlayerId) -> int {
    |p: PlayerId| f(p) * threat(state, player, p)
}

/// An average in millionths, from a sum that counts every amount as often as
/// its weight says.
#[verifier::opaque]
pub open spec fn averaged(weighted_sum: int, total_weight: int) -> int {
    (weighted_sum * UNIT) / total_weight
}

/// What a player is measured against: with one opponent that opponent's
/// amount, with several the average weighted by threat level.
pub open spec fn opposition(
    state: GameState,
    player: PlayerId,
    f: spec_fn(PlayerId) -> int,
) -> int {
    let opponents = state.opponents_of(player);
    if opponents.len() >= 2 {
        averaged(seqs::sum(opponents, weighted_of(state, player, f)), total_threat(state, player))
    } else {
        seqs::sum(opponents, f) * UNIT
    }
}

/// The lead of `player` over the opposition.
pub open spec fn lead(state: GameState, player: PlayerId, f: spec_fn(PlayerId) -> int) -> int {
    f(player) * UNIT - opposition(state, player, f)
}

/// Whether every opponent, of at least one, has no life left.
pub open spec fn all_opponents_dead(state: GameState, player: PlayerId) -> bool {
    let opponents = state.opponents_of(player);
    opponents.len() > 0 && forall|i: int|
        0 <= i < opponents.len() ==> state.seat(#[trigger] opponents[i]).life <= 0
}

/// The score of a position that decides the game for `player`, `None` where
/// the game is open.
pub open spec fn terminal_score(state: GameState, player: PlayerId) -> Option<i128> {
    match state.waiting_for {
        WaitingFor::GameOver { winner } => match winner {
            Some(w) => if w == player {
                Some(WIN_SCORE)
            } else {
                Some(LOSS_SCORE)
            },
            None => Some(0i128),
        },
        _ => if state.seat(player).life <= 0 {
            Some(LOSS_SCORE)
        } else if all_opponents_dead(state, player) {
            Some(WIN_SCORE)
        } else {
            None
        },
    }
}

/// Between two players, the lead of one is the other's deficit.
pub proof fn law_duel_leads_cancel(
    state: GameState,
    a: PlayerId,
    b: PlayerId,
    f: spec_fn(PlayerId) -> int,
)
    requires
        state.opponents_of(a) == seq![b],
        state.opponents_of(b) == seq![a],
    ensures
        lead(state, a, f) == -lead(state, b, f),
{
    reveal_with_fuel(seqs::sum, 2);
    assert(seq![a].drop_last() =~= Seq::<PlayerId>::empty());
    assert(seq![b].drop_last() =~= Seq::<PlayerId>::empty());
}

/// A sum of equal amounts, each counted as often as its weight says, is the
/// amount times all weights.
proof fn lemma_equal_amounts(
    opponents: Seq<PlayerId>,
    f: spec_fn(PlayerId) -> int,
    g: spec_fn(PlayerId) -> int,
    levels: spec_fn(PlayerId) -> int,
    amount: int,
)
    requires
        forall|i: int| 0 <= i < opponents.len() ==> f(#[trigger] opponents[i]) == amount,
        forall|p: PlayerId| #[trigger] g(p) == f(p) * levels(p),
    ensures
        seqs::sum(opponents, g) == amount * seqs::sum(opponents, levels),
    decreases opponents.len(),
{
    if opponents.len() > 0 {
        let d = opponents.drop_last();
        assert forall|i: int| 0 <= i < d.len() implies f(#[trigger] d[i]) == amount by {
            assert(d[i] == opponents[i]);
        }
        lemma_equal_amounts(d, f, g, levels, amount);
        let last = opponents[opponents.len() - 1];
        assert(f(last) == amount);
        assert(amount * (seqs::sum(d, levels) + levels(last)) == amount * seqs::sum(d, levels)
            + amount * levels(last)) by (nonlinear_arith);
    }
}

/// A player who has as much of something as every opponent has no lead and no
/// deficit in it. Several opponents must threaten something at all.
pub proof fn law_even_table_has_no_lead(
    state: GameState,
    player: PlayerId,
    f: spec_fn(PlayerId) -> int,
)
    requires
        state.opponents_of(player).len() > 0,
        forall|i: int|
            0 <= i < state.opponents_of(player).len() ==> f(
                #[trigger] state.opponents_of(player)[i],
            ) == f(player),
        state.opponents_of(player).len() >= 2 ==> seqs::sum(
            state.opponents_of(player),
            threat_of(state, player),
        ) >= 10_000,
    ensures
        lead(state, player, f) == 0,
{
    let opponents = state.opponents_of(player);
    if opponents.len() >= 2 {
        let levels = threat_of(state, player);
        let g = weighted_of(state, player, f);
        lemma_equal_amounts(opponents, f, g, levels, f(player));
        reveal(averaged);
        let (c, t) = (f(player), seqs::sum(opponents, levels));
        assert((c * t * 1_000_000) / t == c * 1_000_000) by (nonlinear_arith)
            requires
                t > 0,
        ;
    } else {
        assert(opponents.drop_last() =~= Seq::<PlayerId>::empty());
        reveal_with_fuel(seqs::sum, 2);
        assert(f(opponents[0]) == f(player));
    }
}

/// A game that is over is won for its winner, lost for everybody else, and
/// nothing for anybody where there is none.
pub proof fn law_finished_game_has_one_winner(
    state: GameState,
    winner: Option<PlayerId>,
    player: PlayerId,
)
    requires
        state.waiting_for == (WaitingFor::GameOver { winner }),
    ensures
        terminal_score(state, player) == Some(
            if winner is None {
                0i128
            } else if winner == Some(player) {
                WIN_SCORE
            } else {
                LOSS_SCORE
            },
        ),
{
}

/// Whether `f` holds the features of an open position.
pub open spec fn is_features(state: GameState, player: PlayerId, f: EvalFeatures) -> bool {
    &&& f.life == lead(state, player, life_of(state))
    &&& f.board_presence == lead(state, player, creatures_of(state))
    &&& f.board_power == lead(state, player, board_power_of(state))
    &&& f.board_toughness == lead(state, player, board_toughness_of(state))
    &&& f.hand_size == lead(state, player, hand_of(state))
    &&& f.card_advantage_breakdown == lead(state, player, others_of(state))
    &&& f.aggression == when(
        f.life > 0 && total_power(state, player) > 0,
        total_power(state, player) * UNIT,
    )
    &&& f.energy_offset == state.seat(player).energy * 100_000
}

/// No feature of a position is farther from zero than this.
pub const FEATURE_LIMIT: i128 = 36_893_488_147_419_103_232_000_000;

/// Nothing that is weighted may be farther from zero than this.
pub const WEIGHABLE_LIMIT: i128 = 37_000_000_000_000_000_000_000_000;

/// Nothing that was weighted is farther from zero than this.
pub const WEIGHED_LIMIT: i128 = 18_600_000_000_000_000_000_000_000_000_000_000_000;

impl EvalFeatures {
    /// Whether products with bounded weights stay within range.
    pub open spec fn bounded(self) -> bool {
        &&& -FEATURE_LIMIT <= self.life <= FEATURE_LIMIT
        &&& -FEATURE_LIMIT <= self.board_presence <= FEATURE_LIMIT
        &&& -FEATURE_LIMIT <= self.board_power <= FEATURE_LIMIT
        &&& -FEATURE_LIMIT <= self.board_toughness <= FEATURE_LIMIT
        &&& -FEATURE_LIMIT <= self.hand_size <= FEATURE_LIMIT
        &&& -FEATURE_LIMIT <= self.aggression <= FEATURE_LIMIT
        &&& -FEATURE_LIMIT <= self.card_advantage_breakdown <= FEATURE_LIMIT
        &&& 0 <= self.energy_offset <= FEATURE_LIMIT
    }
}

/// What a player is measured against, feature by feature, in millionths.
struct Opposition {
    life: i128,
    creatures: i128,
    power: i128,
    toughness: i128,
    hand: i128,
    others: i128,
}

/// An average is no farther from zero than the amounts.
proof fn lemma_average_bound(weighted_sum: int, weight: int, total_weight: int, m: int)
    requires
        -(m * weight) <= weighted_sum <= m * weight,
        m >= 0,
        0 <= weight <= total_weight,
        total_weight > 0,
    ensures
        -(m * UNIT) <= averaged(weighted_sum, total_weight) <= m * UNIT,
{
    reveal(averaged);
    let x = weighted_sum * UNIT;
    let k = m * UNIT;
    assert(-(k * total_weight) <= x <= k * total_weight) by (nonlinear_arith)
        requires
            -(m * weight) <= weighted_sum <= m * weight,
            m >= 0,
            0 <= weight <= total_weight,
            x == weighted_sum * 1_000_000,
            k == m * 1_000_000,
    {
        assert(m * weight <= m * total_weight) by (nonlinear_arith)
            requires
                m >= 0,
                weight <= total_weight,
        ;
        assert(k * total_weight == (m * total_weight) * 1_000_000) by (nonlinear_arith)
            requires
                k == m * 1_000_000,
        ;
    }
    assert(-k <= x / total_weight <= k) by (nonlinear_arith)
        requires
            -(k * total_weight) <= x <= k * total_weight,
            total_weight > 0,
    ;
}

/// A weighted sum with one more amount. The weights so far are `weight`.
fn add_weighted(sum: i128, weight: i128, amount: i128, t: i128) -> (r: i128)
    requires
        -AMOUNT_LIMIT <= amount <= AMOUNT_LIMIT,
        0 <= t <= UNIT,
        0 <= weight <= 255 * UNIT,
        -(AMOUNT_LIMIT * weight) <= sum <= AMOUNT_LIMIT * weight,
    ensures
        r == sum + amount * t,
        -(AMOUNT_LIMIT * (weight + t)) <= r <= AMOUNT_LIMIT * (weight + t),
{
    proof {
        score::lemma_product_bound(
            amount as int,
            t as int,
            0x1_0000_0000_0000_0000,
            1_000_000,
        );
        assert(-(AMOUNT_LIMIT * t) <= amount * t <= AMOUNT_LIMIT * t) by (nonlinear_arith)
            requires
                -0x1_0000_0000_0000_0000 <= amount <= 0x1_0000_0000_0000_0000,
                AMOUNT_LIMIT == 0x1_0000_0000_0000_0000,
                0 <= t,
        ;
    }
    sum + amount * t
}

/// The average that a weighted sum makes up.
fn average(weighted_sum: i128, weight: i128, total_weight: i128) -> (r: i128)
    requires
        -(AMOUNT_LIMIT * weight) <= weighted_sum <= AMOUNT_LIMIT * weight,
        0 <= weight <= total_weight,
        weight <= 255 * UNIT,
        total_weight > 0,
    ensures
        r == averaged(weighted_sum as int, total_weight as int),
        -(AMOUNT_LIMIT * UNIT) <= r <= AMOUNT_LIMIT * UNIT,
{
    proof {
        lemma_average_bound(
            weighted_sum as int,
            weight as int,
            total_weight as int,
            AMOUNT_LIMIT as int,
        );
        reveal(averaged);
    }
    div_floor(weighted_sum * UNIT, total_weight)
}

/// The opposition of a player with several opponents.
fn weighted_opposition(state: &GameState, player: PlayerId) -> (r: Opposition)
    requires
        state.valid(),
        state.seated(player),
        state.opponents_of(player).len() >= 2,
    ensures
        r.life == opposition(*state, player, life_of(*state)),
        r.creatures == opposition(*state, player, creatures_of(*state)),
        r.power == opposition(*state, player, board_power_of(*state)),
        r.toughness == opposition(*state, player, board_toughness_of(*state)),
        r.hand == opposition(*state, player, hand_of(*state)),
        r.others == opposition(*state, player, others_of(*state)),
        opposition_bounded(r),
{
    let opponents = &state.player(player).opponents;
    let ghost opps = opponents@;
    let ghost levels = threat_of(*state, player);
    assert(state.players[player.0 as int].opponents.len() <= 255);
    let ghost lives = weighted_of(*state, player, life_of(*state));
    let ghost counts = weighted_of(*state, player, creatures_of(*state));
    let ghost powers = weighted_of(*state, player, board_power_of(*state));
    let ghost toughs = weighted_of(*state, player, board_toughness_of(*state));
    let ghost hands = weighted_of(*state, player, hand_of(*state));
    let ghost rests = weighted_of(*state, player, others_of(*state));
    let mut weight: i128 = 0;
    let mut sums = Opposition {
        life: 0,
        creatures: 0,
        power: 0,
        toughness: 0,
        hand: 0,
        others: 0,
    };
    let mut i: usize = 0;
    while i < opponents.len()
        invariant
            state.valid(),
            state.seated(player),
            opponents == &state.players[player.0 as int].opponents,
            opps == opponents@,
            opps.len() <= 255,
            levels == threat_of(*state, player),
            lives == weighted_of(*state, player, life_of(*state)),
            counts == weighted_of(*state, player, creatures_of(*state)),
            powers == weighted_of(*state, player, board_power_of(*state)),
            toughs == weighted_of(*state, player, board_toughness_of(*state)),
            hands == weighted_of(*state, player, hand_of(*state)),
            rests == weighted_of(*state, player, others_of(*state)),
            i <= opps.len(),
            weight == seqs::sum(opps.take(i as int), levels),
            0 <= weight <= 1_000_000 * i,
            sums.life == seqs::sum(opps.take(i as int), lives),
            sums.creatures == seqs::sum(opps.take(i as int), counts),
            sums.power == seqs::sum(opps.take(i as int), powers),
            sums.toughness == seqs::sum(opps.take(i as int), toughs),
            sums.hand == seqs::sum(opps.take(i as int), hands),
            sums.others == seqs::sum(opps.take(i as int), rests),
            -(AMOUNT_LIMIT * weight) <= sums.life <= AMOUNT_LIMIT * weight,
            -(AMOUNT_LIMIT * weight) <= sums.creatures <= AMOUNT_LIMIT * weight,
            -(AMOUNT_LIMIT * weight) <= sums.power <= AMOUNT_LIMIT * weight,
            -(AMOUNT_LIMIT * weight) <= sums.toughness <= AMOUNT_LIMIT * weight,
            -(AMOUNT_LIMIT * weight) <= sums.hand <= AMOUNT_LIMIT * weight,
            -(AMOUNT_LIMIT * weight) <= sums.others <= AMOUNT_LIMIT * weight,
        decreases opps.len() - i,
    {
        let opp = opponents[i];
        assert(state.seated(state.players[player.0 as int].opponents[i as int]));
        proof {
            seqs::lemma_sum_step(opps, i as int, levels);
            seqs::lemma_sum_step(opps, i as int, lives);
            seqs::lemma_sum_step(opps, i as int, counts);
            seqs::lemma_sum_step(opps, i as int, powers);
            seqs::lemma_sum_step(opps, i as int, toughs);
            seqs::lemma_sum_step(opps, i as int, hands);
            seqs::lemma_sum_step(opps, i as int, rests);
        }
        let t: i128 = threat_level(state, player, opp);
        let o = state.player(opp);
        let (creatures, power, toughness, others) = board_stats(state, opp);
        sums = Opposition {
            life: add_weighted(sums.life, weight, o.life as i128, t),
            creatures: add_weighted(sums.creatures, weight, creatures as i128, t),
            power: add_weighted(sums.power, weight, power as i128, t),
            toughness: add_weighted(sums.toughness, weight, toughness as i128, t),
            hand: add_weighted(sums.hand, weight, o.hand.len() as i128, t),
            others: add_weighted(sums.others, weight, others as i128, t),
        };
        weight += t;
        i += 1;
    }
    assert(opps.take(opps.len() as int) =~= opps);
    let total: i128 = score::max_score(weight, 10_000);
    Opposition {
        life: average(sums.life, weight, total),
        creatures: average(sums.creatures, weight, total),
        power: average(sums.power, weight, total),
        toughness: average(sums.toughness, weight, total),
        hand: average(sums.hand, weight, total),
        others: average(sums.others, weight, total),
    }
}

/// No amount that is averaged is farther from zero than this.
const AMOUNT_LIMIT: i128 = 0x1_0000_0000_0000_0000;

/// Whether `v` is what an average of such amounts can be.
spec fn within(v: int) -> bool {
    -(AMOUNT_LIMIT * UNIT) <= v <= AMOUNT_LIMIT * UNIT
}

/// Whether every entry is what an average can be.
spec fn opposition_bounded(r: Opposition) -> bool {
    &&& within(r.life as int)
    &&& within(r.creatures as int)
    &&& within(r.power as int)
    &&& within(r.toughness as int)
    &&& within(r.hand as int)
    &&& within(r.others as int)
}

/// The opposition of a player with at most one opponent.
fn single_opposition(state: &GameState, player: PlayerId) -> (r: Opposition)
    requires
        state.valid(),
        state.seated(player),
        state.opponents_of(player).len() < 2,
    ensures
        r.life == opposition(*state, player, life_of(*state)),
        r.creatures == opposition(*state, player, creatures_of(*state)),
        r.power == opposition(*state, player, board_power_of(*state)),
        r.toughness == opposition(*state, player, board_toughness_of(*state)),
        r.hand == opposition(*state, player, hand_of(*state)),
        r.others == opposition(*state, player, others_of(*state)),
        opposition_bounded(r),
{
    let opponents = &state.player(player).opponents;
    let ghost opps = opponents@;
    if opponents.len() == 0 {
        return Opposition { life: 0, creatures: 0, power: 0, toughness: 0, hand: 0, others: 0 };
    }
    assert(state.seated(state.players[player.0 as int].opponents[0]));
    let opp = opponents[0];
    proof {
        assert(opps.take(1) =~= opps);
        assert(opps.take(0) =~= Seq::<PlayerId>::empty());
        seqs::lemma_sum_step(opps, 0, life_of(*state));
        seqs::lemma_sum_step(opps, 0, creatures_of(*state));
        seqs::lemma_sum_step(opps, 0, board_power_of(*state));
        seqs::lemma_sum_step(opps, 0, board_toughness_of(*state));
        seqs::lemma_sum_step(opps, 0, hand_of(*state));
        seqs::lemma_sum_step(opps, 0, others_of(*state));
    }
    let o = state.player(opp);
    let (creatures, power, toughness, others) = board_stats(state, opp);
    Opposition {
        life: o.life as i128 * UNIT,
        creatures: creatures as i128 * UNIT,
        power: power as i128 * UNIT,
        toughness: toughness as i128 * UNIT,
        hand: o.hand.len() as i128 * UNIT,
        others: others as i128 * UNIT,
    }
}

/// The unweighted features of a position for `player`, or the score of the
/// game where the position decides it.
pub fn evaluate_features(state: &GameState, player: PlayerId) -> (r: Result<EvalFeatures, i128>)
    requires
        state.valid(),
        state.seated(player),
    ensures
        match r {
            Ok(f) => terminal_score(*state, player) is None && is_features(*state, player, f)
                && f.bounded(),
            Err(e) => terminal_score(*state, player) == Some(e),
        },
{
    if let WaitingFor::GameOver { winner } = &state.waiting_for {
        return match winner {
            Some(w) => if *w == player {
                Err(WIN_SCORE)
            } else {
                Err(LOSS_SCORE)
            },
            None => Err(0),
        };
    }
    let p = state.player(player);
    if p.life <= 0 {
        return Err(LOSS_SCORE);
    }
    if opponents_are_dead(state, player) {
        return Err(WIN_SCORE);
    }
    let against = if p.opponents.len() >= 2 {
        weighted_opposition(state, player)
    } else {
        single_opposition(state, player)
    };
    let (creatures, power, toughness, others) = board_stats(state, player);
    let life: i128 = p.life as i128 * UNIT - against.life;
    let features = EvalFeatures {
        life,
        board_presence: creatures as i128 * UNIT - against.creatures,
        board_power: power as i128 * UNIT - against.power,
        board_toughness: toughness as i128 * UNIT - against.toughness,
        hand_size: p.hand.len() as i128 * UNIT - against.hand,
        aggression: if life > 0 && power > 0 {
            power as i128 * UNIT
        } else {
            0
        },
        card_advantage_breakdown: others as i128 * UNIT - against.others,
        energy_offset: p.energy as i128 * 100_000,
    };
    Ok(features)
}

/// Whether every opponent, of at least one, has no life left.
fn opponents_are_dead(state: &GameState, player: PlayerId) -> (r: bool)
    requires
        state.valid(),
        state.seated(player),
    ensures
        r == all_opponents_dead(*state, player),
{
    let opponents = &state.player(player).opponents;
    if opponents.len() == 0 {
        return false;
    }
    let mut i: usize = 0;
    while i < opponents.len()
        invariant
            state.valid(),
            state.seated(player),
            opponents == &state.players[player.0 as int].opponents,
            i <= opponents.len(),
            forall|k: int| 0 <= k < i ==> state.seat(#[trigger] opponents@[k]).life <= 0,
        decreases opponents.len() - i,
    {
        assert(state.seated(state.players[player.0 as int].opponents[i as int]));
        if state.player(opponents[i]).life > 0 {
            assert(state.seat(state.opponents_of(player)[i as int]).life > 0);
            return false;
        }
        i += 1;
    }
    true
}

// ---------------------------------------------------------------------------
// Weighted evaluation
// ---------------------------------------------------------------------------

/// The weighted parts of an evaluation, in millionths.
#[derive(Debug, Clone, Copy, PartialEq, Eq, Structural, Default)]
pub struct EvaluationBreakdown {
    pub life: i128,
    pub board_presence: i128,
    pub board_power: i128,
    pub board_toughness: i128,
    pub hand_size: i128,
    pub aggression: i128,
    pub card_advantage: i128,
}

/// No part of an evaluation may be farther from zero than this.
pub const PART_LIMIT: i128 = 18_700_000_000_000_000_000_000_000_000_000_000_000;

impl EvaluationBreakdown {
    /// Whether the parts can be summed.
    pub open spec fn bounded(self) -> bool {
        &&& -PART_LIMIT <= self.life <= PART_LIMIT
        &&& -PART_LIMIT <= self.board_presence <= PART_LIMIT
        &&& -PART_LIMIT <= self.board_power <= PART_LIMIT
        &&& -PART_LIMIT <= self.board_toughness <= PART_LIMIT
        &&& -PART_LIMIT <= self.hand_size <= PART_LIMIT
        &&& -PART_LIMIT <= self.aggression <= PART_LIMIT
        &&& -PART_LIMIT <= self.card_advantage <= PART_LIMIT
    }

    /// The sum of all parts.
    pub open spec fn sum(self) -> int {
        self.life + self.board_presence + self.board_power + self.board_toughness + self.hand_size
            + self.aggression + self.card_advantage
    }

    /// The sum of all parts.
    pub fn total(&self) -> (r: i128)
        requires
            self.bounded(),
        ensures
            r == self.sum(),
    {
        self.life + self.board_presence + self.board_power + self.board_toughness + self.hand_size
            + self.aggression + self.card_advantage
    }
}

impl EvalFeatures {
    /// The weighted sum of every feature but the energy offset.
    pub open spec fn weighted_sum(self, w: EvalWeights) -> int {
        score::scaled(self.life as int, w.life as int) + score::scaled(
            self.board_presence as int,
            w.board_presence as int,
        ) + score::scaled(self.board_power as int, w.board_power as int) + score::scaled(
            self.board_toughness as int,
            w.board_toughness as int,
        ) + score::scaled(self.hand_size as int, w.hand_size as int) + score::scaled(
            self.aggression as int,
            w.aggression as int,
        ) + score::scaled(self.card_advantage_breakdown as int, w.card_advantage as int)
    }

    /// The weighted sum of every feature but the energy offset.
    pub fn weighted_total(&self, w: &EvalWeights) -> (r: i128)
        requires
            self.bounded(),
            w.bounded(),
        ensures
            r == self.weighted_sum(*w),
    {
        weigh(self.life, w.life) + weigh(self.board_presence, w.board_presence) + weigh(
            self.board_power,
            w.board_power,
        ) + weigh(self.board_toughness, w.board_toughness) + weigh(self.hand_size, w.hand_size)
            + weigh(self.aggression, w.aggression) + weigh(
            self.card_advantage_breakdown,
            w.card_advantage,
        )
    }
}

/// A feature times its weight.
pub fn weigh(feature: i128, weight: i64) -> (r: i128)
    requires
        -WEIGHABLE_LIMIT <= feature <= WEIGHABLE_LIMIT,
        -WEIGHT_LIMIT <= weight <= WEIGHT_LIMIT,
    ensures
        r == score::scaled(feature as int, weight as int),
        -WEIGHED_LIMIT <= r <= WEIGHED_LIMIT,
{
    let whole: i128 = div_floor(feature, UNIT);
    let rest: i128 = feature - whole * UNIT;
    proof {
        let (q, r, w) = (whole as int, rest as int, weight as int);
        assert(0 <= r < 1_000_000);
        score::lemma_product_bound(q, w, 37_000_000_000_000_000_001, 500_000_000_000_000_000);
        score::lemma_product_bound(r, w, 1_000_000, 500_000_000_000_000_000);
        assert(feature * w == r * w + (q * w) * 1_000_000) by (nonlinear_arith)
            requires
                feature == q * 1_000_000 + r,
        ;
    }
    whole * weight as i128 + div_floor(rest * weight as i128, UNIT)
}

/// The parts of an evaluation that the given features and weights make up.
/// The energy offset counts toward the hand, after weighting.
pub open spec fn is_breakdown(f: EvalFeatures, w: EvalWeights, b: EvaluationBreakdown) -> bool {
    &&& b.life == score::scaled(f.life as int, w.life as int)
    &&& b.board_presence == score::scaled(f.board_presence as int, w.board_presence as int)
    &&& b.board_power == score::scaled(f.board_power as int, w.board_power as int)
    &&& b.board_toughness == score::scaled(f.board_toughness as int, w.board_toughness as int)
    &&& b.hand_size == score::scaled(f.hand_size as int, w.hand_size as int) + f.energy_offset
    &&& b.aggression == score::scaled(f.aggression as int, w.aggression as int)
    &&& b.card_advantage == score::scaled(
        f.card_advantage_breakdown as int,
        w.card_advantage as int,
    )
}

/// The parts of an evaluation add up to the weighted features plus the energy
/// offset: what is harvested is what is served.
pub proof fn law_breakdown_is_weighted_features_plus_energy(
    f: EvalFeatures,
    w: EvalWeights,
    b: EvaluationBreakdown,
)
    requires
        is_breakdown(f, w, b),
    ensures
        b.sum() == f.weighted_sum(w) + f.energy_offset,
{
}

/// The weighted parts of the evaluation of an open position, or the score of
/// the game where the position decides it.
pub fn evaluate_state_breakdown(
    state: &GameState,
    player: PlayerId,
    weights: &EvalWeights,
) -> (r: Result<EvaluationBreakdown, i128>)
    requires
        state.valid(),
        state.seated(player),
        weights.bounded(),
    ensures
        match r {
            Ok(b) => terminal_score(*state, player) is None && b.bounded() && exists|
                f: EvalFeatures,
            |
                is_features(*state, player, f) && #[trigger] is_breakdown(f, *weights, b),
            Err(e) => terminal_score(*state, player) == Some(e),
        },
{
    let features = match evaluate_features(state, player) {
        Ok(f) => f,
        Err(terminal) => return Err(terminal),
    };
    let breakdown = EvaluationBreakdown {
        life: weigh(features.life, weights.life),
        board_presence: weigh(features.board_presence, weights.board_presence),
        board_power: weigh(features.board_power, weights.board_power),
        board_toughness: weigh(features.board_toughness, weights.board_toughness),
        hand_size: weigh(features.hand_size, weights.hand_size) + features.energy_offset,
        aggression: weigh(features.aggression, weights.aggression),
        card_advantage: weigh(features.card_advantage_breakdown, weights.card_advantage),
    };
    assert(is_breakdown(features, *weights, breakdown));
    Ok(breakdown)
}

/// The evaluation of a position: the score of the game where it is decided,
/// else the weighted features plus the energy offset.
pub open spec fn evaluation(
    state: GameState,
    player: PlayerId,
    weights: EvalWeights,
    value: int,
) -> bool {
    match terminal_score(state, player) {
        Some(terminal) => value == terminal,
        None => exists|f: EvalFeatures| #[trigger]
            is_features(state, player, f) && value == f.weighted_sum(weights) + f.energy_offset,
    }
}

/// A position has one evaluation.
pub proof fn law_evaluation_is_unique(
    state: GameState,
    player: PlayerId,
    weights: EvalWeights,
    a: int,
    b: int,
)
    requires
        evaluation(state, player, weights, a),
        evaluation(state, player, weights, b),
    ensures
        a == b,
{
}

/// The evaluation of a position for `player`; higher is better.
pub fn evaluate_state(state: &GameState, player: PlayerId, weights: &EvalWeights) -> (r: i128)
    requires
        state.valid(),
        state.seated(player),
        weights.bounded(),
    ensures
        evaluation(*state, player, *weights, r as int),
{
    match evaluate_state_breakdown(state, player, weights) {
        Ok(breakdown) => {
            proof {
                let f = choose|f: EvalFeatures|
                    is_features(*state, player, f) && #[trigger] is_breakdown(
                        f,
                        *weights,
                        breakdown,
                    );
                law_breakdown_is_weighted_features_plus_energy(f, *weights, breakdown);
            }
            breakdown.total()
        },
        Err(terminal) => terminal,
    }
}

/// The evaluation and the intent that a planner works with.
#[derive(Debug, Clone, Copy, PartialEq, Eq, Structural)]
pub struct ValueEstimate {
    pub value: i128,
    pub intent: StrategicIntent,
}

/// The evaluation of a position together with what it asks of `player`.
pub fn evaluate_for_planner(
    state: &GameState,
    player: PlayerId,
    weights: &EvalWeights,
) -> (r: ValueEstimate)
    requires
        state.valid(),
        state.seated(player),
        weights.bounded(),
    ensures
        evaluation(*state, player, *weights, r.value as int),
        r.intent == intent(*state, player),
{
    ValueEstimate {
        value: evaluate_state(state, player, weights),
        intent: strategic_intent(state, player),
    }
}

} // verus!
