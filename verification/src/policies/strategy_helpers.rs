//! Readings of a position that several policies share.

use vstd::prelude::*;

use crate::board;
use crate::config::PolicyPenalties;
use crate::eval;
use crate::eval::{
    evaluate_creature, opponent_battlefield_creature_threat_value, STANDARD_VALUE_LIMIT,
    THREAT_VALUE_LIMIT,
};
use crate::model;
use crate::model::{
    contains_object, contains_player, stat_or_zero, AbilityDefinition, BlockPair, CoreType,
    EffectKind, GameObject, GameState, Keyword, ObjectId, Phase, PlayerId, TargetFilter, WardCost,
};
use crate::score;
use crate::score::min_score;
use crate::seqs;

use super::context;
use super::context::{cast_facts_for_action, CandidateAction, CastFacts, PolicyContext};

verus! {

/// Whether the AI decides in a main phase of its own turn, nothing being on
/// the stack.
pub open spec fn own_main_phase(ctx: PolicyContext<'_>) -> bool {
    &&& ctx.state.turn_decision_maker == ctx.ai_player
    &&& ctx.state.stack@.len() == 0
    &&& (ctx.state.phase == Phase::PreCombatMain || ctx.state.phase == Phase::PostCombatMain)
}

/// Whether the AI decides in a main phase of its own turn, nothing being on
/// the stack.
pub fn is_own_main_phase(ctx: &PolicyContext<'_>) -> (r: bool)
    ensures
        r == own_main_phase(*ctx),
{
    ctx.state.turn_decision_maker == ctx.ai_player && ctx.state.stack.len() == 0 && (
    ctx.state.phase == Phase::PreCombatMain || ctx.state.phase == Phase::PostCombatMain)
}

/// The lands of a player.
pub open spec fn land_of(player: PlayerId) -> spec_fn(GameObject) -> bool {
    |o: GameObject| o.controller == player && o.has_type(CoreType::Land)
}

/// How many lands a player has on the battlefield.
pub open spec fn land_count(state: GameState, player: PlayerId) -> nat {
    board::count(state, state.battlefield@, land_of(player))
}

/// How many lands a player has on the battlefield.
pub fn count_own_lands(state: &GameState, player: PlayerId) -> (r: usize)
    ensures
        r == land_count(*state, player),
        r <= state.battlefield@.len(),
{
    let is_own_land = |o: &GameObject| -> (b: bool)
        ensures
            b == land_of(player)(*o),
        { o.controller == player && o.is_type(CoreType::Land) };
    board::count_where(state, &state.battlefield, is_own_land, Ghost(land_of(player)))
}

// ---------------------------------------------------------------------------
// What a spell would add to the board
// ---------------------------------------------------------------------------

/// Whether a keyword helps a creature to attack.
pub open spec fn presses(k: Keyword) -> bool {
    match k {
        Keyword::Flying
        | Keyword::Trample
        | Keyword::Vigilance
        | Keyword::Menace
        | Keyword::Lifelink
        | Keyword::Deathtouch
        | Keyword::FirstStrike
        | Keyword::DoubleStrike
        | Keyword::Haste => true,
        _ => false,
    }
}

/// How many keywords of an object help it to attack, three at most.
pub open spec fn pressure(object: GameObject) -> int {
    score::lesser(seqs::count(object.keywords@, |k: Keyword| presses(k)) as int, 3)
}

/// How much an object adds to the board.
pub open spec fn presence(object: GameObject) -> int {
    let score = if object.has_type(CoreType::Creature) {
        let stats = score::greater(model::stat(object.power), 0) + score::greater(
            model::stat(object.toughness),
            0,
        );
        score::lesser(stats * 125_000, 450_000) + pressure(object) * 40_000
    } else if object.has_type(CoreType::Planeswalker) {
        280_000 + (match object.loyalty {
            Some(l) => l as int,
            None => 0,
        }) * 50_000
    } else if object.has_type(CoreType::Artifact) || object.has_type(CoreType::Battle)
        || object.has_type(CoreType::Enchantment) {
        160_000
    } else {
        0
    };
    score::lesser(score, 650_000)
}

/// How many keywords of an object help it to attack, three at most.
fn keyword_pressure(object: &GameObject) -> (r: i128)
    ensures
        r == pressure(*object),
        0 <= r <= 3,
{
    let ghost q = |k: Keyword| presses(k);
    let mut n: usize = 0;
    let mut i: usize = 0;
    while i < object.keywords.len()
        invariant
            q == (|k: Keyword| presses(k)),
            i <= object.keywords@.len(),
            n <= i,
            n == seqs::count(object.keywords@.take(i as int), q),
        decreases object.keywords@.len() - i,
    {
        proof {
            seqs::lemma_count_step(object.keywords@, i as int, q);
        }
        match object.keywords[i] {
            Keyword::Flying
            | Keyword::Trample
            | Keyword::Vigilance
            | Keyword::Menace
            | Keyword::Lifelink
            | Keyword::Deathtouch
            | Keyword::FirstStrike
            | Keyword::DoubleStrike
            | Keyword::Haste => {
                n += 1;
            },
            _ => {},
        }
        i += 1;
    }
    assert(object.keywords@.take(object.keywords@.len() as int) =~= object.keywords@);
    min_score(n as i128, 3)
}

/// How much an object adds to the board.
pub fn board_presence_score(object: &GameObject) -> (r: i128)
    ensures
        r == presence(*object),
        0 <= r <= 650_000,
{
    let score: i128 = if object.is_type(CoreType::Creature) {
        let power: i128 = score::max_score(stat_or_zero(object.power) as i128, 0);
        let toughness: i128 = score::max_score(stat_or_zero(object.toughness) as i128, 0);
        min_score((power + toughness) * 125_000, 450_000) + keyword_pressure(object) * 40_000
    } else if object.is_type(CoreType::Planeswalker) {
        let loyalty: i128 = match object.loyalty {
            Some(l) => l as i128,
            None => 0,
        };
        280_000 + loyalty * 50_000
    } else if object.is_type(CoreType::Artifact) || object.is_type(CoreType::Battle)
        || object.is_type(CoreType::Enchantment) {
        160_000
    } else {
        0
    };
    min_score(score, 650_000)
}

/// How much it is worth to cast a spell for its own sake.
pub open spec fn proactive_value(facts: CastFacts) -> int {
    presence(facts.object) + eval::when(
        facts.immediate_etb_triggers > 0 || facts.immediate_replacements > 0,
        160_000,
    ) + eval::when(facts.profile.has_search_library, 240_000) + eval::when(
        facts.profile.has_draw,
        100_000,
    ) + eval::when(facts.profile.has_direct_removal_text, 140_000)
}

/// How much it is worth to take an action for its own sake; only casting a
/// spell is worth anything.
pub open spec fn proactive_candidate_value() -> spec_fn(CandidateAction) -> int {
    |c: CandidateAction|
        match context::spell_facts(c) {
            Some(facts) => proactive_value(facts),
            None => 0,
        }
}

/// How much it is worth to cast the best spell of a decision for its own sake.
pub open spec fn best_proactive(ctx: PolicyContext<'_>) -> int {
    seqs::largest(ctx.decision.candidates@, 0, proactive_candidate_value())
}

/// How much it is worth to cast a spell for its own sake.
fn proactive_cast_score(facts: &CastFacts) -> (r: i128)
    ensures
        r == proactive_value(*facts),
        0 <= r <= 1_290_000,
{
    let mut score: i128 = board_presence_score(&facts.object);
    if facts.immediate_etb_triggers > 0 || facts.immediate_replacements > 0 {
        score += 160_000;
    }
    if facts.profile.has_search_library {
        score += 240_000;
    }
    if facts.profile.has_draw {
        score += 100_000;
    }
    if facts.profile.has_direct_removal_text {
        score += 140_000;
    }
    score
}

/// How much it is worth to cast the best spell of a decision for its own sake.
pub fn best_proactive_cast_score(ctx: &PolicyContext<'_>) -> (r: i128)
    ensures
        r == best_proactive(*ctx),
        0 <= r <= 1_290_000,
{
    let ghost f = proactive_candidate_value();
    let candidates = &ctx.decision.candidates;
    let mut best: i128 = 0;
    let mut i: usize = 0;
    while i < candidates.len()
        invariant
            f == proactive_candidate_value(),
            i <= candidates@.len(),
            0 <= best <= 1_290_000,
            best == seqs::largest(candidates@.take(i as int), 0, f),
        decreases candidates@.len() - i,
    {
        proof {
            seqs::lemma_largest_step(candidates@, i as int, 0, f);
        }
        if let Some(facts) = cast_facts_for_action(&candidates[i]) {
            let value: i128 = proactive_cast_score(facts);
            if value > best {
                best = value;
            }
        }
        i += 1;
    }
    assert(candidates@.take(candidates@.len() as int) =~= candidates@);
    best
}

// ---------------------------------------------------------------------------
// Opposing creatures
// ---------------------------------------------------------------------------

/// The threat value of an object that satisfies `p`; nothing for any other.
pub open spec fn threat_where(
    state: GameState,
    ai_player: PlayerId,
    p: spec_fn(ObjectId) -> bool,
) -> spec_fn(ObjectId) -> int {
    |id: ObjectId|
        if p(id) {
            match eval::threat_value(state, ai_player, id) {
                Some(v) => v,
                None => 0,
            }
        } else {
            0
        }
}

/// The threat value of the most threatening opposing creature on the
/// battlefield that satisfies `p`, zero where there is none.
pub open spec fn worst_threat(
    state: GameState,
    ai_player: PlayerId,
    p: spec_fn(ObjectId) -> bool,
) -> int {
    seqs::largest(state.battlefield@, 0, threat_where(state, ai_player, p))
}

/// Every object.
pub open spec fn anything() -> spec_fn(ObjectId) -> bool {
    |id: ObjectId| true
}

/// The objects that are not tapped.
pub open spec fn untapped(state: GameState) -> spec_fn(ObjectId) -> bool {
    board::that(state, |o: GameObject| !o.tapped)
}

/// The objects that a filter matches.
pub open spec fn matched(filter: TargetFilter) -> spec_fn(ObjectId) -> bool {
    |id: ObjectId| filter.matching_objects@.contains(id)
}

/// The threat value of the most threatening opposing creature that `accepts`
/// takes.
fn worst_threat_where(
    state: &GameState,
    ai_player: PlayerId,
    accepts: impl Fn(ObjectId) -> bool,
    Ghost(p): Ghost<spec_fn(ObjectId) -> bool>,
) -> (r: i128)
    requires
        state.valid(),
        state.seated(ai_player),
        forall|id: ObjectId| call_requires(accepts, (id,)),
        forall|id: ObjectId, b: bool| call_ensures(accepts, (id,), b) ==> b == p(id),
    ensures
        r == worst_threat(*state, ai_player, p),
        0 <= r <= THREAT_VALUE_LIMIT,
{
    let ghost f = threat_where(*state, ai_player, p);
    let ghost b = state.battlefield@;
    let mut worst: i128 = 0;
    let mut i: usize = 0;
    while i < state.battlefield.len()
        invariant
            state.valid(),
            state.seated(ai_player),
            forall|id: ObjectId| call_requires(accepts, (id,)),
            forall|id: ObjectId, b: bool| call_ensures(accepts, (id,), b) ==> b == p(id),
            f == threat_where(*state, ai_player, p),
            b == state.battlefield@,
            i <= b.len(),
            0 <= worst <= THREAT_VALUE_LIMIT,
            worst == seqs::largest(b.take(i as int), 0, f),
        decreases b.len() - i,
    {
        proof {
            seqs::lemma_largest_step(b, i as int, 0, f);
        }
        let id: ObjectId = state.battlefield[i];
        if accepts(id) {
            if let Some(value) = opponent_battlefield_creature_threat_value(state, ai_player, id) {
                if value > worst {
                    worst = value;
                }
            }
        }
        i += 1;
    }
    assert(b.take(b.len() as int) =~= b);
    worst
}

/// The threat value of the most threatening opposing creature.
pub fn visible_opponent_creature_value(state: &GameState, ai_player: PlayerId) -> (r: i128)
    requires
        state.valid(),
        state.seated(ai_player),
    ensures
        r == worst_threat(*state, ai_player, anything()),
        0 <= r <= THREAT_VALUE_LIMIT,
{
    let accepts = |id: ObjectId| -> (b: bool)
        ensures
            b == anything()(id),
        { true };
    worst_threat_where(state, ai_player, accepts, Ghost(anything()))
}

/// The threat value of the most threatening opposing creature that could
/// block: a tapped creature cannot.
pub fn untapped_opponent_blocker_value(state: &GameState, ai_player: PlayerId) -> (r: i128)
    requires
        state.valid(),
        state.seated(ai_player),
    ensures
        r == worst_threat(*state, ai_player, untapped(*state)),
        0 <= r <= THREAT_VALUE_LIMIT,
{
    let accepts = |id: ObjectId| -> (b: bool)
        ensures
            b == untapped(*state)(id),
        {
            match state.object(id) {
                Some(o) => !o.tapped,
                None => false,
            }
        };
    worst_threat_where(state, ai_player, accepts, Ghost(untapped(*state)))
}

/// The threat value of the most threatening opposing creature that a filter
/// matches.
pub fn targetable_threat_value(
    state: &GameState,
    ai_player: PlayerId,
    filter: &TargetFilter,
) -> (r: i128)
    requires
        state.valid(),
        state.seated(ai_player),
    ensures
        r == worst_threat(*state, ai_player, matched(*filter)),
        0 <= r <= THREAT_VALUE_LIMIT,
{
    let accepts = |id: ObjectId| -> (b: bool)
        ensures
            b == matched(*filter)(id),
        { contains_object(&filter.matching_objects, id) };
    worst_threat_where(state, ai_player, accepts, Ghost(matched(*filter)))
}

/// A filter that matches less never leaves a greater threat.
pub proof fn law_narrower_filter_never_hits_more(
    state: GameState,
    ai_player: PlayerId,
    p: spec_fn(ObjectId) -> bool,
    q: spec_fn(ObjectId) -> bool,
)
    requires
        forall|id: ObjectId| #[trigger] p(id) ==> q(id),
    ensures
        worst_threat(state, ai_player, p) <= worst_threat(state, ai_player, q),
{
    lemma_narrower(state, ai_player, p, q, state.battlefield@);
}

proof fn lemma_narrower(
    state: GameState,
    ai_player: PlayerId,
    p: spec_fn(ObjectId) -> bool,
    q: spec_fn(ObjectId) -> bool,
    ids: Seq<ObjectId>,
)
    requires
        forall|id: ObjectId| #[trigger] p(id) ==> q(id),
    ensures
        0 <= seqs::largest(ids, 0, threat_where(state, ai_player, p)) <= seqs::largest(
            ids,
            0,
            threat_where(state, ai_player, q),
        ),
    decreases ids.len(),
{
    if ids.len() > 0 {
        lemma_narrower(state, ai_player, p, q, ids.drop_last());
    }
}

// ---------------------------------------------------------------------------
// Pressure
// ---------------------------------------------------------------------------

/// What a creature adds to the pressure on the board: its value, counted for
/// its controller's side.
pub open spec fn pressure_of(state: GameState, ai_player: PlayerId) -> spec_fn(ObjectId) -> int {
    |id: ObjectId|
        match state.obj(id) {
            Some(o) => if o.has_type(CoreType::Creature) {
                let value = eval::creature_value(state, id, eval::standard_bonuses());
                if o.controller == ai_player {
                    value
                } else {
                    -value
                }
            } else {
                0
            },
            None => 0,
        }
}

/// The value of the AI's creatures, less that of all others.
pub fn battlefield_pressure_delta(state: &GameState, ai_player: PlayerId) -> (r: i128)
    requires
        state.valid(),
    ensures
        r == seqs::sum(state.battlefield@, pressure_of(*state, ai_player)),
{
    let ghost f = pressure_of(*state, ai_player);
    let ghost b = state.battlefield@;
    let mut ours: i128 = 0;
    let mut theirs: i128 = 0;
    let mut i: usize = 0;
    while i < state.battlefield.len()
        invariant
            f == pressure_of(*state, ai_player),
            b == state.battlefield@,
            b.len() <= u32::MAX,
            i <= b.len(),
            -0x40_0000_0000_0000 * i <= ours <= 0x40_0000_0000_0000 * i,
            -0x40_0000_0000_0000 * i <= theirs <= 0x40_0000_0000_0000 * i,
            ours - theirs == seqs::sum(b.take(i as int), f),
        decreases b.len() - i,
    {
        proof {
            seqs::lemma_sum_step(b, i as int, f);
        }
        let id: ObjectId = state.battlefield[i];
        if let Some(o) = state.object(id) {
            if o.is_type(CoreType::Creature) {
                let value: i128 = evaluate_creature(state, id);
                if o.controller == ai_player {
                    ours += value;
                } else {
                    theirs += value;
                }
            }
        }
        i += 1;
    }
    assert(b.take(b.len() as int) =~= b);
    ours - theirs
}

/// Half of a number, rounded toward zero.
pub open spec fn half(n: int) -> int {
    if n >= 0 {
        n / 2
    } else {
        -((-n) / 2)
    }
}

/// The creatures of the AI that may block an attacker.
pub open spec fn blocker_of(
    state: GameState,
    ai_player: PlayerId,
    attacker: ObjectId,
) -> spec_fn(ObjectId) -> bool {
    |id: ObjectId|
        match state.obj(id) {
            Some(o) => o.controller == ai_player && !o.tapped && o.has_type(CoreType::Creature)
                && state.legal_blocks@.contains(BlockPair { blocker: id, attacker }),
            None => false,
        }
}

/// Whether some creature of the AI may block an attacker.
pub open spec fn blockable(state: GameState, ai_player: PlayerId, attacker: ObjectId) -> bool {
    seqs::any(state.battlefield@, blocker_of(state, ai_player, attacker))
}

/// The damage to expect from an object: the power of an opponent's untapped
/// creature, half of it where the creature can be blocked.
pub open spec fn expected_damage(
    state: GameState,
    ai_player: PlayerId,
) -> spec_fn(ObjectId) -> int {
    |id: ObjectId|
        match state.obj(id) {
            Some(o) => if state.opponents_of(ai_player).contains(o.controller) && !o.tapped
                && o.has_type(CoreType::Creature) {
                if blockable(state, ai_player, id) {
                    half(model::stat(o.power))
                } else {
                    model::stat(o.power)
                }
            } else {
                0
            },
            None => 0,
        }
}

/// The damage to expect from the opponents.
pub open spec fn lethal_damage(state: GameState, ai_player: PlayerId) -> int {
    seqs::sum(state.battlefield@, expected_damage(state, ai_player))
}

/// Whether the pair is a legal block.
fn can_block_pair(state: &GameState, blocker: ObjectId, attacker: ObjectId) -> (r: bool)
    ensures
        r == state.legal_blocks@.contains(BlockPair { blocker, attacker }),
{
    let mut i: usize = 0;
    while i < state.legal_blocks.len()
        invariant
            i <= state.legal_blocks@.len(),
            forall|j: int|
                0 <= j < i ==> state.legal_blocks@[j] != (BlockPair { blocker, attacker }),
        decreases state.legal_blocks@.len() - i,
    {
        if state.legal_blocks[i].blocker == blocker && state.legal_blocks[i].attacker == attacker {
            assert(state.legal_blocks@[i as int] == (BlockPair { blocker, attacker }));
            return true;
        }
        i += 1;
    }
    false
}

/// Whether the object is a creature of the AI that may block the attacker.
fn may_block(
    state: &GameState,
    ai_player: PlayerId,
    id: ObjectId,
    attacker_id: ObjectId,
) -> (r: bool)
    ensures
        r == blocker_of(*state, ai_player, attacker_id)(id),
{
    match state.object(id) {
        Some(o) => o.controller == ai_player && !o.tapped && o.is_type(CoreType::Creature)
            && can_block_pair(state, id, attacker_id),
        None => false,
    }
}

/// Whether some untapped creature of the AI may block the attacker.
pub fn ai_can_block(state: &GameState, ai_player: PlayerId, attacker_id: ObjectId) -> (r: bool)
    ensures
        r == blockable(*state, ai_player, attacker_id),
{
    let accepts = |id: &ObjectId| -> (b: bool)
        ensures
            b == blocker_of(*state, ai_player, attacker_id)(*id),
        { may_block(state, ai_player, *id, attacker_id) };
    seqs::any_of(
        &state.battlefield,
        accepts,
        Ghost(blocker_of(*state, ai_player, attacker_id)),
    )
}

/// How many untapped creatures of the AI may block the attacker.
pub fn legal_blocker_count(
    state: &GameState,
    ai_player: PlayerId,
    attacker_id: ObjectId,
) -> (r: usize)
    ensures
        r == seqs::count(state.battlefield@, blocker_of(*state, ai_player, attacker_id)),
{
    let ghost q = blocker_of(*state, ai_player, attacker_id);
    let ghost b = state.battlefield@;
    let mut n: usize = 0;
    let mut i: usize = 0;
    while i < state.battlefield.len()
        invariant
            q == blocker_of(*state, ai_player, attacker_id),
            b == state.battlefield@,
            i <= b.len(),
            n <= i,
            n == seqs::count(b.take(i as int), q),
        decreases b.len() - i,
    {
        proof {
            seqs::lemma_count_step(b, i as int, q);
        }
        if may_block(state, ai_player, state.battlefield[i], attacker_id) {
            n += 1;
        }
        i += 1;
    }
    assert(b.take(b.len() as int) =~= b);
    n
}

/// The damage to expect from the opponents: the power of their untapped
/// creatures, half of it for those that the AI can block.
pub fn opponent_lethal_damage(state: &GameState, ai_player: PlayerId) -> (r: i64)
    requires
        state.valid(),
        state.seated(ai_player),
    ensures
        r == lethal_damage(*state, ai_player),
{
    let opponents = &state.player(ai_player).opponents;
    let ghost f = expected_damage(*state, ai_player);
    let ghost b = state.battlefield@;
    let mut total: i64 = 0;
    let mut i: usize = 0;
    while i < state.battlefield.len()
        invariant
            f == expected_damage(*state, ai_player),
            opponents@ == state.opponents_of(ai_player),
            b == state.battlefield@,
            b.len() <= u32::MAX,
            i <= b.len(),
            -0x8000_0000 * i <= total <= 0x8000_0000 * i,
            total == seqs::sum(b.take(i as int), f),
        decreases b.len() - i,
    {
        proof {
            seqs::lemma_sum_step(b, i as int, f);
        }
        let id: ObjectId = state.battlefield[i];
        if let Some(o) = state.object(id) {
            if contains_player(opponents, o.controller) && !o.tapped && o.is_type(
                CoreType::Creature,
            ) {
                let power: i64 = stat_or_zero(o.power) as i64;
                if ai_can_block(state, ai_player, id) {
                    if power >= 0 {
                        total += power / 2;
                    } else {
                        total -= (-power) / 2;
                    }
                } else {
                    total += power;
                }
            }
        }
        i += 1;
    }
    assert(b.take(b.len() as int) =~= b);
    total
}

// ---------------------------------------------------------------------------
// Costs
// ---------------------------------------------------------------------------

/// What it costs to give up a permanent.
pub open spec fn cost_to_give_up(
    state: GameState,
    penalties: PolicyPenalties,
) -> spec_fn(ObjectId) -> int {
    |id: ObjectId|
        match state.obj(id) {
            None => 0,
            Some(o) => {
                let value = eval::creature_value(state, id, eval::standard_bonuses());
                if o.has_type(CoreType::Land) {
                    penalties.sacrifice_land_penalty as int
                } else if o.is_token && o.has_type(CoreType::Creature) {
                    score::greater(value, penalties.sacrifice_token_cost as int)
                } else if o.is_token {
                    penalties.sacrifice_token_cost as int
                } else if o.has_type(CoreType::Creature) {
                    value
                } else {
                    score::lesser(o.mana_value as int, 4) * 1_000_000
                }
            },
        }
}

/// What it costs to give up a permanent: a land and a token that is no
/// creature have fixed costs, a creature costs its value (a token at least the
/// token cost), anything else its mana value, four at most.
pub fn sacrifice_cost(
    state: &GameState,
    obj_id: ObjectId,
    penalties: &PolicyPenalties,
) -> (r: i128)
    ensures
        r == cost_to_give_up(*state, *penalties)(obj_id),
        -STANDARD_VALUE_LIMIT <= r <= STANDARD_VALUE_LIMIT,
{
    let obj = match state.object(obj_id) {
        Some(o) => o,
        None => return 0,
    };
    if obj.is_type(CoreType::Land) {
        return penalties.sacrifice_land_penalty as i128;
    }
    if obj.is_token {
        if obj.is_type(CoreType::Creature) {
            return score::max_score(
                evaluate_creature(state, obj_id),
                penalties.sacrifice_token_cost as i128,
            );
        }
        return penalties.sacrifice_token_cost as i128;
    }
    if obj.is_type(CoreType::Creature) {
        return evaluate_creature(state, obj_id);
    }
    min_score(obj.mana_value as i128, 4) * 1_000_000
}

/// Whether an ability counters something.
pub open spec fn counters_spell() -> spec_fn(AbilityDefinition) -> bool {
    |a: AbilityDefinition| a.effect.kind is Counter
}

/// The cards with an ability that counters something.
pub open spec fn counterspell() -> spec_fn(GameObject) -> bool {
    |o: GameObject| seqs::any(o.abilities@, counters_spell())
}

/// How many counterspells a player holds.
pub fn count_counterspells_in_hand(state: &GameState, player: PlayerId) -> (r: usize)
    requires
        state.seated(player),
    ensures
        r == board::count(*state, state.seat(player).hand@, counterspell()),
{
    let accepts = |o: &GameObject| -> (b: bool)
        ensures
            b == counterspell()(*o),
        {
            let counters = |a: &AbilityDefinition| -> (c: bool)
                ensures
                    c == counters_spell()(*a),
                { matches!(a.effect.kind, EffectKind::Counter) };
            seqs::any_of(&o.abilities, counters, Ghost(counters_spell()))
        };
    board::count_where(state, &state.player(player).hand, accepts, Ghost(counterspell()))
}

/// Whether an ability is a mana ability.
pub open spec fn makes_mana() -> spec_fn(AbilityDefinition) -> bool {
    |a: AbilityDefinition| a.is_mana_ability
}

/// The sources of mana that a player could tap now: lands, and whatever has a
/// mana ability unless it is a creature that came in this turn.
pub open spec fn usable_mana_source(player: PlayerId) -> spec_fn(GameObject) -> bool {
    |o: GameObject|
        o.controller == player && !o.tapped && ((o.has_type(CoreType::Land) && !o.has_type(
            CoreType::Creature,
        )) || (seqs::any(o.abilities@, makes_mana()) && !(o.has_type(CoreType::Creature)
            && o.summoning_sick)))
}

/// The mana that is left after the spell being cast is paid for.
pub open spec fn mana_after_spell(ctx: PolicyContext<'_>) -> int {
    let sources = ctx.state.seat(ctx.ai_player).mana_pool_total + board::count(
        *ctx.state,
        ctx.state.battlefield@,
        usable_mana_source(ctx.ai_player),
    );
    let cost = match context::source_of(ctx) {
        Some(o) => o.mana_value as int,
        None => 0,
    };
    score::greater(sources - cost, 0)
}

/// The mana that is left after the spell being cast is paid for: what floats,
/// and one for each usable source. Colors are not told apart.
pub fn available_mana_after_spell(ctx: &PolicyContext<'_>) -> (r: u64)
    requires
        ctx.valid(),
    ensures
        r == mana_after_spell(*ctx),
{
    let player = ctx.ai_player;
    let accepts = |o: &GameObject| -> (b: bool)
        ensures
            b == usable_mana_source(player)(*o),
        {
            if o.controller != player || o.tapped {
                return false;
            }
            let is_creature: bool = o.is_type(CoreType::Creature);
            let has_mana_ability = |a: &AbilityDefinition| -> (c: bool)
                ensures
                    c == makes_mana()(*a),
                { a.is_mana_ability };
            (o.is_type(CoreType::Land) && !is_creature) || (seqs::any_of(
                &o.abilities,
                has_mana_ability,
                Ghost(makes_mana()),
            ) && !(is_creature && o.summoning_sick))
        };
    let count: usize = board::count_where(
        ctx.state,
        &ctx.state.battlefield,
        accepts,
        Ghost(usable_mana_source(player)),
    );
    let sources: u64 = ctx.state.player(player).mana_pool_total as u64 + count as u64;
    let cost: u64 = match ctx.source_object() {
        Some(o) => o.mana_value as u64,
        None => 0,
    };
    if sources > cost {
        sources - cost
    } else {
        0
    }
}

/// The permanents of the AI that a filter matches.
pub open spec fn own_matched(
    state: GameState,
    ai_player: PlayerId,
    filter: TargetFilter,
) -> spec_fn(ObjectId) -> bool {
    |id: ObjectId|
        match state.obj(id) {
            Some(o) => o.controller == ai_player && filter.matching_objects@.contains(id),
            None => false,
        }
}

/// Whether the AI can pay a ward cost after the spell being cast is paid for.
/// Paying life must leave some. What a sacrifice would take cannot be told
/// where there is no source; it then counts as payable.
pub open spec fn ward_payable(ctx: PolicyContext<'_>, ward: WardCost, warded: GameObject) -> bool
    decreases ward,
{
    let player = ctx.state.seat(ctx.ai_player);
    match ward {
        WardCost::Mana { mana_value } => mana_after_spell(ctx) >= mana_value,
        WardCost::Waterbend { mana_value } => mana_after_spell(ctx) >= mana_value,
        WardCost::PayLife { amount } => player.life > amount,
        WardCost::PayLifeEqualToPower => player.life > score::greater(
            model::stat(warded.power),
            0,
        ),
        WardCost::DiscardCard => match context::source_of(ctx) {
            Some(source) => seqs::any(player.hand@, |id: ObjectId| id != source.id),
            None => player.hand@.len() > 0,
        },
        WardCost::Sacrifice { count, filter } => match context::source_of(ctx) {
            Some(_) => seqs::count(
                ctx.state.battlefield@,
                own_matched(*ctx.state, ctx.ai_player, filter),
            ) >= count,
            None => true,
        },
        WardCost::Compound { costs } => forall|i: int|
            0 <= i < costs@.len() ==> ward_payable(ctx, #[trigger] costs@[i], warded),
    }
}

/// How many permanents of the AI a filter matches.
fn count_own_matched(state: &GameState, ai_player: PlayerId, filter: &TargetFilter) -> (r: usize)
    ensures
        r == seqs::count(state.battlefield@, own_matched(*state, ai_player, *filter)),
{
    let ghost q = own_matched(*state, ai_player, *filter);
    let ghost b = state.battlefield@;
    let mut n: usize = 0;
    let mut i: usize = 0;
    while i < state.battlefield.len()
        invariant
            q == own_matched(*state, ai_player, *filter),
            b == state.battlefield@,
            i <= b.len(),
            n <= i,
            n == seqs::count(b.take(i as int), q),
        decreases b.len() - i,
    {
        proof {
            seqs::lemma_count_step(b, i as int, q);
        }
        let id: ObjectId = state.battlefield[i];
        if let Some(o) = state.object(id) {
            if o.controller == ai_player && contains_object(&filter.matching_objects, id) {
                n += 1;
            }
        }
        i += 1;
    }
    assert(b.take(b.len() as int) =~= b);
    n
}

/// Whether the AI can pay a ward cost after the spell being cast is paid for.
/// Several mana costs in one are each held against all of the mana.
pub fn can_pay_ward_cost(
    ctx: &PolicyContext<'_>,
    ward: &WardCost,
    warded: &GameObject,
) -> (r: bool)
    requires
        ctx.valid(),
    ensures
        r == ward_payable(*ctx, *ward, *warded),
    decreases *ward,
{
    let player = ctx.state.player(ctx.ai_player);
    match ward {
        WardCost::Mana { mana_value } => available_mana_after_spell(ctx) >= *mana_value as u64,
        WardCost::Waterbend { mana_value } => available_mana_after_spell(ctx)
            >= *mana_value as u64,
        WardCost::PayLife { amount } => player.life > *amount,
        WardCost::PayLifeEqualToPower => {
            let power: i32 = stat_or_zero(warded.power);
            player.life > (if power > 0 {
                power
            } else {
                0
            })
        },
        WardCost::DiscardCard => match ctx.source_object() {
            Some(source) => {
                let source_id: ObjectId = source.id;
                let ghost q = |id: ObjectId| id != source.id;
                let accepts = |id: &ObjectId| -> (b: bool)
                    ensures
                        b == q(*id),
                    { *id != source_id };
                seqs::any_of(&player.hand, accepts, Ghost(q))
            },
            None => player.hand.len() > 0,
        },
        WardCost::Sacrifice { count, filter } => match ctx.source_object() {
            Some(_source) => count_own_matched(ctx.state, ctx.ai_player, filter) as u64
                >= *count as u64,
            None => true,
        },
        WardCost::Compound { costs } => {
            let mut i: usize = 0;
            while i < costs.len()
                invariant
                    ctx.valid(),
                    *ward matches WardCost::Compound { costs: c } && c == *costs,
                    i <= costs@.len(),
                    forall|j: int|
                        0 <= j < i ==> ward_payable(*ctx, #[trigger] costs@[j], *warded),
                decreases costs@.len() - i,
            {
                if !can_pay_ward_cost(ctx, &costs[i], warded) {
                    assert(!ward_payable(*ctx, costs@[i as int], *warded));
                    return false;
                }
                i += 1;
            }
            true
        },
    }
}

// ---------------------------------------------------------------------------
// What the readings promise
// ---------------------------------------------------------------------------

/// Only a decision in one of the AI's own main phases with nothing on the
/// stack counts as one.
pub proof fn law_own_main_phase_is_quiet(ctx: PolicyContext<'_>)
    ensures
        own_main_phase(ctx) ==> ctx.state.turn_decision_maker == ctx.ai_player
            && ctx.state.stack@.len() == 0,
        own_main_phase(ctx) ==> ctx.state.phase is PreCombatMain || ctx.state.phase
            is PostCombatMain,
        ctx.state.turn_decision_maker == ctx.ai_player && ctx.state.stack@.len() == 0
            && ctx.state.phase is PreCombatMain ==> own_main_phase(ctx),
        ctx.state.turn_decision_maker == ctx.ai_player && ctx.state.stack@.len() == 0
            && ctx.state.phase is PostCombatMain ==> own_main_phase(ctx),
{
}

/// A permanent that enters adds to the lands of a player exactly where it is a
/// land that the player controls.
pub proof fn law_lands_are_counted_once(
    before: GameState,
    after: GameState,
    id: ObjectId,
    player: PlayerId,
)
    requires
        after.objects@ == before.objects@,
        after.battlefield@ == before.battlefield@.push(id),
    ensures
        land_count(after, player) == land_count(before, player) + (match before.obj(id) {
            Some(o) => if o.controller == player && o.core_types@.contains(CoreType::Land) {
                1int
            } else {
                0int
            },
            None => 0int,
        }),
        before.battlefield@.len() == 0 ==> land_count(before, player) == 0,
{
    assert(board::that(after, land_of(player)) =~= board::that(before, land_of(player)));
    board::law_count_takes_each_object_once(before, before.battlefield@, id, land_of(player));
}

/// A creature adds an eighth for each point of power and toughness that it has
/// above nothing, up to forty-five hundredths, and four hundredths for each of
/// up to three keywords that press an attack.
pub proof fn law_presence_of_a_creature(o: GameObject)
    requires
        o.core_types@.contains(CoreType::Creature),
    ensures
        ({
            let power = match o.power {
                Some(n) => n as int,
                None => 0,
            };
            let toughness = match o.toughness {
                Some(n) => n as int,
                None => 0,
            };
            let keywords = presence(o) - 125_000 * (power + toughness);
            &&& power >= 0 && toughness >= 0 && 125_000 * (power + toughness) <= 450_000
                ==> keywords == 40_000 * pressure(o)
            &&& power >= 0 && toughness >= 0 && 125_000 * (power + toughness) >= 450_000
                ==> presence(o) == 450_000 + 40_000 * pressure(o)
            &&& power <= 0 && toughness <= 0 ==> presence(o) == 40_000 * pressure(o)
            &&& 0 <= presence(o) <= 570_000
        }),
{
}

/// A keyword that presses an attack counts, up to three of them, and no other
/// does.
pub proof fn law_pressing_keywords_count(o: GameObject, k: Keyword, more: GameObject)
    requires
        more.keywords@ == o.keywords@.push(k),
    ensures
        0 <= pressure(o) <= 3,
        o.keywords@.len() == 0 ==> pressure(o) == 0,
        ({
            let presses = k is Flying || k is Trample || k is Vigilance || k is Menace || k
                is Lifelink || k is Deathtouch || k is FirstStrike || k is DoubleStrike || k
                is Haste;
            &&& presses && pressure(o) < 3 ==> pressure(more) == pressure(o) + 1
            &&& presses && pressure(o) == 3 ==> pressure(more) == 3
            &&& !presses ==> pressure(more) == pressure(o)
        }),
{
    seqs::lemma_count_push(o.keywords@, k, |k: Keyword| presses(k));
}

/// A planeswalker adds twenty-eight hundredths and five for each point of
/// loyalty, an artifact, battle or enchantment sixteen, anything else nothing;
/// nothing adds more than sixty-five.
pub proof fn law_presence_of_other_permanents(o: GameObject)
    requires
        !o.core_types@.contains(CoreType::Creature),
    ensures
        ({
            let walker = o.core_types@.contains(CoreType::Planeswalker);
            let loyalty = match o.loyalty {
                Some(l) => l as int,
                None => 0,
            };
            let lasting = o.core_types@.contains(CoreType::Artifact) || o.core_types@.contains(
                CoreType::Battle,
            ) || o.core_types@.contains(CoreType::Enchantment);
            &&& walker && loyalty <= 7 ==> presence(o) == 280_000 + 50_000 * loyalty
            &&& walker && loyalty > 7 ==> presence(o) == 650_000
            &&& !walker && lasting ==> presence(o) == 160_000
            &&& !walker && !lasting ==> presence(o) == 0
        }),
{
}

/// Each thing that a spell does on its own adds its part to what casting it is
/// worth: something on entering, a search, a draw, removal.
pub proof fn law_proactive_value_adds_up(facts: CastFacts)
    ensures
        ({
            let enters = facts.immediate_etb_triggers > 0 || facts.immediate_replacements > 0;
            let rest = proactive_value(facts) - presence(facts.object);
            &&& rest == (if enters {
                160_000int
            } else {
                0
            }) + (if facts.profile.has_search_library {
                240_000int
            } else {
                0
            }) + (if facts.profile.has_draw {
                100_000int
            } else {
                0
            }) + (if facts.profile.has_direct_removal_text {
                140_000int
            } else {
                0
            })
        }),
{
}

/// The best spell of a decision is worth at least as much as each of them, and
/// as much as one, unless there is none that is worth anything.
pub proof fn law_best_proactive_is_the_best(ctx: PolicyContext<'_>)
    ensures
        best_proactive(ctx) >= 0,
        forall|i: int|
            0 <= i < ctx.decision.candidates@.len() && casts_known(
                #[trigger] ctx.decision.candidates@[i],
            ) ==> best_proactive(ctx) >= proactive_value(
                ctx.decision.candidates@[i].cast_facts->Some_0,
            ),
        best_proactive(ctx) > 0 ==> exists|i: int|
            0 <= i < ctx.decision.candidates@.len() && casts_known(
                #[trigger] ctx.decision.candidates@[i],
            ) && best_proactive(ctx) == proactive_value(
                ctx.decision.candidates@[i].cast_facts->Some_0,
            ),
{
    let c = ctx.decision.candidates@;
    let f = proactive_candidate_value();
    seqs::lemma_largest_attained(c, 0, f);
    assert forall|i: int| 0 <= i < c.len() && casts_known(#[trigger] c[i]) implies best_proactive(
        ctx,
    ) >= proactive_value(c[i].cast_facts->Some_0) by {
        assert(f(c[i]) <= best_proactive(ctx));
    }
    if best_proactive(ctx) > 0 {
        let i = choose|i: int| 0 <= i < c.len() && f(#[trigger] c[i]) == best_proactive(ctx);
        assert(casts_known(c[i]));
    }
}

/// Whether an action casts a spell of which the facts are known.
pub open spec fn casts_known(c: CandidateAction) -> bool {
    c.action is CastSpell && c.cast_facts is Some
}

/// The worst threat is at least the threat value of every creature that is
/// asked for, and that of one of them unless it is nothing.
pub proof fn law_worst_threat_is_the_worst(
    state: GameState,
    ai_player: PlayerId,
    p: spec_fn(ObjectId) -> bool,
)
    ensures
        worst_threat(state, ai_player, p) >= 0,
        forall|i: int|
            0 <= i < state.battlefield@.len() && p(#[trigger] state.battlefield@[i]) ==> (
            eval::threat_value(state, ai_player, state.battlefield@[i]) matches Some(v) ==> v
                <= worst_threat(state, ai_player, p)),
        worst_threat(state, ai_player, p) > 0 ==> exists|i: int|
            0 <= i < state.battlefield@.len() && p(#[trigger] state.battlefield@[i])
                && eval::threat_value(state, ai_player, state.battlefield@[i]) == Some(
                worst_threat(state, ai_player, p),
            ),
{
    let b = state.battlefield@;
    let f = threat_where(state, ai_player, p);
    seqs::lemma_largest_attained(b, 0, f);
    assert forall|i: int| 0 <= i < b.len() && p(#[trigger] b[i]) implies (eval::threat_value(
        state,
        ai_player,
        b[i],
    ) matches Some(v) ==> v <= worst_threat(state, ai_player, p)) by {
        assert(f(b[i]) <= worst_threat(state, ai_player, p));
    }
}

/// A blocker must be untapped to count, and a filter hits what it matches.
pub proof fn law_threat_filters(state: GameState, filter: TargetFilter, id: ObjectId)
    ensures
        untapped(state)(id) <==> (match state.obj(id) {
            Some(o) => !o.tapped,
            None => false,
        }),
        matched(filter)(id) <==> filter.matching_objects@.contains(id),
        anything()(id),
{
}

/// A creature that enters adds its value to the pressure where the AI controls
/// it and takes it away where anybody else does.
pub proof fn law_pressure_takes_sides(
    before: GameState,
    after: GameState,
    ai_player: PlayerId,
    id: ObjectId,
)
    requires
        after.objects@ == before.objects@,
        after.battlefield@ == before.battlefield@.push(id),
    ensures
        ({
            let gained = seqs::sum(after.battlefield@, pressure_of(after, ai_player)) - seqs::sum(
                before.battlefield@,
                pressure_of(before, ai_player),
            );
            let value = eval::creature_value(before, id, eval::standard_bonuses());
            match before.obj(id) {
                Some(o) => {
                    let creature = o.core_types@.contains(CoreType::Creature);
                    &&& creature && o.controller == ai_player ==> gained == value
                    &&& creature && o.controller != ai_player ==> gained == -value
                    &&& !creature ==> gained == 0
                },
                None => gained == 0,
            }
        }),
{
    assert(pressure_of(after, ai_player) =~= pressure_of(before, ai_player));
    seqs::lemma_sum_push(before.battlefield@, id, pressure_of(before, ai_player));
}

/// An attacker can be blocked exactly where some untapped creature of the AI
/// on the battlefield may legally block it, and exactly where the number of
/// such blockers is not zero.
pub proof fn law_blockers_are_untapped_creatures(
    state: GameState,
    ai_player: PlayerId,
    attacker: ObjectId,
)
    ensures
        blockable(state, ai_player, attacker) <==> exists|i: int|
            0 <= i < state.battlefield@.len() && (match state.obj(
                #[trigger] state.battlefield@[i],
            ) {
                Some(o) => o.controller == ai_player && !o.tapped && o.core_types@.contains(
                    CoreType::Creature,
                ) && state.legal_blocks@.contains(
                    BlockPair { blocker: state.battlefield@[i], attacker },
                ),
                None => false,
            }),
        blockable(state, ai_player, attacker) <==> seqs::count(
            state.battlefield@,
            blocker_of(state, ai_player, attacker),
        ) > 0,
{
    let b = state.battlefield@;
    let q = blocker_of(state, ai_player, attacker);
    seqs::lemma_count_any(b, q);
    if blockable(state, ai_player, attacker) {
        let i = choose|i: int| 0 <= i < b.len() && q(#[trigger] b[i]);
        assert(state.obj(b[i]) is Some);
    }
    if exists|i: int|
        0 <= i < b.len() && (match state.obj(#[trigger] b[i]) {
            Some(o) => o.controller == ai_player && !o.tapped && o.core_types@.contains(
                CoreType::Creature,
            ) && state.legal_blocks@.contains(BlockPair { blocker: b[i], attacker }),
            None => false,
        }) {
        let i = choose|i: int|
            0 <= i < b.len() && (match state.obj(#[trigger] b[i]) {
                Some(o) => o.controller == ai_player && !o.tapped && o.core_types@.contains(
                    CoreType::Creature,
                ) && state.legal_blocks@.contains(BlockPair { blocker: b[i], attacker }),
                None => false,
            });
        assert(q(b[i]));
    }
}

/// The damage to expect is, for each untapped creature of an opponent, its
/// power where nothing can block it and half of that, rounded toward zero,
/// where something can; tapped creatures and those of anybody else deal none.
pub proof fn law_expected_damage_of_a_creature(
    state: GameState,
    ai_player: PlayerId,
    id: ObjectId,
    o: GameObject,
)
    requires
        state.obj(id) == Some(o),
    ensures
        ({
            let dealt = expected_damage(state, ai_player)(id);
            let power = match o.power {
                Some(n) => n as int,
                None => 0,
            };
            let attacks = state.opponents_of(ai_player).contains(o.controller) && !o.tapped
                && o.core_types@.contains(CoreType::Creature);
            &&& attacks && !blockable(state, ai_player, id) ==> dealt == power
            &&& attacks && blockable(state, ai_player, id) && power >= 0 ==> 2 * dealt <= power < 2
                * (dealt + 1)
            &&& attacks && blockable(state, ai_player, id) && power < 0 ==> 2 * (dealt - 1) < power
                <= 2 * dealt
            &&& !attacks ==> dealt == 0
        }),
{
}

/// The damage to expect adds up over the battlefield, creature by creature.
pub proof fn law_expected_damage_adds_up(state: GameState, ai_player: PlayerId, n: int)
    requires
        0 <= n < state.battlefield@.len(),
    ensures
        lethal_damage(state, ai_player) == seqs::sum(
            state.battlefield@.take(n),
            expected_damage(state, ai_player),
        ) + expected_damage(state, ai_player)(state.battlefield@[n]) + seqs::sum(
            state.battlefield@.skip(n + 1),
            expected_damage(state, ai_player),
        ),
{
    lemma_sum_split(state.battlefield@, n + 1, expected_damage(state, ai_player));
    seqs::lemma_sum_step(state.battlefield@, n, expected_damage(state, ai_player));
}

/// A sum is that of a front and the rest.
proof fn lemma_sum_split(s: Seq<ObjectId>, n: int, f: spec_fn(ObjectId) -> int)
    requires
        0 <= n <= s.len(),
    ensures
        seqs::sum(s, f) == seqs::sum(s.take(n), f) + seqs::sum(s.skip(n), f),
    decreases s.len(),
{
    if n == s.len() {
        assert(s.take(n) =~= s);
        assert(s.skip(n) =~= Seq::<ObjectId>::empty());
    } else {
        lemma_sum_split(s.drop_last(), n, f);
        assert(s.drop_last().take(n) =~= s.take(n));
        assert(s.skip(n).drop_last() =~= s.drop_last().skip(n));
        assert(s.skip(n).last() == s.last());
    }
}

/// To give up a creature that is no land costs at least its value with the
/// standard bonuses, token or not; a token costs at least the token cost, and
/// nothing costs more than the larger of the two.
pub proof fn law_creature_costs_its_value(
    state: GameState,
    penalties: PolicyPenalties,
    id: ObjectId,
    o: GameObject,
)
    requires
        state.obj(id) == Some(o),
        o.core_types@.contains(CoreType::Creature),
        !o.core_types@.contains(CoreType::Land),
    ensures
        ({
            let cost = cost_to_give_up(state, penalties)(id);
            let value = eval::creature_value(state, id, eval::standard_bonuses());
            &&& cost >= value
            &&& o.is_token ==> cost >= penalties.sacrifice_token_cost
            &&& cost > value ==> o.is_token && cost == penalties.sacrifice_token_cost
        }),
{
}

/// Of two creatures that are no lands, both tokens or both not, the one with
/// the higher value never costs less to give up.
pub proof fn law_better_creature_never_costs_less(
    state: GameState,
    penalties: PolicyPenalties,
    worse: ObjectId,
    better: ObjectId,
    o: GameObject,
    p: GameObject,
)
    requires
        state.obj(worse) == Some(o),
        state.obj(better) == Some(p),
        o.core_types@.contains(CoreType::Creature),
        p.core_types@.contains(CoreType::Creature),
        !o.core_types@.contains(CoreType::Land),
        !p.core_types@.contains(CoreType::Land),
        o.is_token == p.is_token,
        eval::creature_value(state, worse, eval::standard_bonuses()) <= eval::creature_value(
            state,
            better,
            eval::standard_bonuses(),
        ),
    ensures
        cost_to_give_up(state, penalties)(worse) <= cost_to_give_up(state, penalties)(better),
        eval::creature_value(state, worse, eval::standard_bonuses()) < eval::creature_value(
            state,
            better,
            eval::standard_bonuses(),
        ) && eval::creature_value(state, better, eval::standard_bonuses())
            > penalties.sacrifice_token_cost ==> cost_to_give_up(state, penalties)(worse)
            < cost_to_give_up(state, penalties)(better),
{
}

/// To give up a land costs the penalty for lands, whatever else it is; a token
/// that is neither land nor creature costs what tokens do; any other permanent
/// that is neither costs one for each point of mana value, up to four; and what
/// is no object costs nothing.
pub proof fn law_costs_of_other_permanents(
    state: GameState,
    penalties: PolicyPenalties,
    id: ObjectId,
)
    ensures
        ({
            let cost = cost_to_give_up(state, penalties)(id);
            match state.obj(id) {
                Some(o) => {
                    let land = o.core_types@.contains(CoreType::Land);
                    let creature = o.core_types@.contains(CoreType::Creature);
                    &&& land ==> cost == penalties.sacrifice_land_penalty
                    &&& !land && !creature && o.is_token ==> cost == penalties.sacrifice_token_cost
                    &&& !land && !creature && !o.is_token && o.mana_value <= 4 ==> cost == 1_000_000
                        * o.mana_value
                    &&& !land && !creature && !o.is_token && o.mana_value > 4 ==> cost == 4_000_000
                },
                None => cost == 0,
            }
        }),
{
}

/// A card counts as a counterspell exactly where one of its abilities counters
/// something.
pub proof fn law_counterspells_counter(o: GameObject)
    ensures
        counterspell()(o) <==> exists|i: int|
            0 <= i < o.abilities@.len() && (#[trigger] o.abilities@[i]).effect.kind is Counter,
{
    if exists|i: int| 0 <= i < o.abilities@.len() && (#[trigger] o.abilities@[i]).effect.kind
        is Counter {
        let i = choose|i: int|
            0 <= i < o.abilities@.len() && (#[trigger] o.abilities@[i]).effect.kind is Counter;
        assert(counters_spell()(o.abilities@[i]));
    }
    if counterspell()(o) {
        let i = choose|i: int| 0 <= i < o.abilities@.len() && counters_spell()(
            #[trigger] o.abilities@[i],
        );
        assert(o.abilities@[i].effect.kind is Counter);
    }
}

/// A source of mana is usable exactly where its controller is the player, it
/// is untapped, and it is a land that is no creature or has a mana ability and
/// is no creature that came in this turn.
pub proof fn law_usable_sources_can_be_tapped(player: PlayerId, o: GameObject)
    ensures
        usable_mana_source(player)(o) ==> o.controller == player && !o.tapped,
        ({
            let creature = o.core_types@.contains(CoreType::Creature);
            let able = exists|i: int|
                0 <= i < o.abilities@.len() && (#[trigger] o.abilities@[i]).is_mana_ability;
            &&& o.controller == player && !o.tapped && o.core_types@.contains(CoreType::Land)
                && !creature ==> usable_mana_source(player)(o)
            &&& o.controller == player && !o.tapped && able && !(creature && o.summoning_sick)
                ==> usable_mana_source(player)(o)
            &&& creature && o.summoning_sick ==> !usable_mana_source(player)(o)
            &&& usable_mana_source(player)(o) ==> able || o.core_types@.contains(CoreType::Land)
        }),
{
    let a = o.abilities@;
    if exists|i: int| 0 <= i < a.len() && (#[trigger] a[i]).is_mana_ability {
        let i = choose|i: int| 0 <= i < a.len() && (#[trigger] a[i]).is_mana_ability;
        assert(makes_mana()(a[i]));
    }
    if seqs::any(a, makes_mana()) {
        let i = choose|i: int| 0 <= i < a.len() && makes_mana()(#[trigger] a[i]);
        assert(a[i].is_mana_ability);
    }
}

/// What is left after a spell is paid for is what floats and one for each
/// usable source, less the spell's mana value, and never below nothing.
pub proof fn law_mana_is_left_after_the_spell(ctx: PolicyContext<'_>)
    ensures
        ({
            let sources = ctx.state.players[ctx.ai_player.0 as int].mana_pool_total + board::count(
                *ctx.state,
                ctx.state.battlefield@,
                usable_mana_source(ctx.ai_player),
            );
            let left = mana_after_spell(ctx);
            &&& left >= 0
            &&& context::source_of(ctx) is None ==> left == sources
            &&& context::source_of(ctx) matches Some(o) ==> {
                &&& sources >= o.mana_value ==> left + o.mana_value == sources
                &&& sources < o.mana_value ==> left == 0
            }
        }),
{
}

/// A ward cost of mana asks for that much left mana, one of life for more life
/// than it takes, one of a discard for a card besides the spell, one of
/// sacrifices for as many permanents of the AI that it matches, and a compound
/// cost for all of its parts.
pub proof fn law_ward_costs_ask_for_their_price(
    ctx: PolicyContext<'_>,
    ward: WardCost,
    warded: GameObject,
)
    ensures
        ({
            let me = ctx.state.players[ctx.ai_player.0 as int];
            let payable = ward_payable(ctx, ward, warded);
            match ward {
                WardCost::Mana { mana_value } => payable <==> mana_after_spell(ctx) >= mana_value,
                WardCost::Waterbend { mana_value } => payable <==> mana_after_spell(ctx)
                    >= mana_value,
                WardCost::PayLife { amount } => payable <==> me.life - amount > 0,
                WardCost::PayLifeEqualToPower => match warded.power {
                    Some(n) => payable <==> me.life > 0 && me.life - n > 0,
                    None => payable <==> me.life > 0,
                },
                WardCost::DiscardCard => match context::source_of(ctx) {
                    Some(source) => payable <==> exists|i: int|
                        0 <= i < me.hand@.len() && #[trigger] me.hand@[i] != source.id,
                    None => payable <==> me.hand@.len() > 0,
                },
                WardCost::Sacrifice { count, filter } => match context::source_of(ctx) {
                    Some(_) => payable <==> seqs::count(
                        ctx.state.battlefield@,
                        |id: ObjectId|
                            match ctx.state.obj(id) {
                                Some(o) => o.controller == ctx.ai_player
                                    && filter.matching_objects@.contains(id),
                                None => false,
                            },
                    ) >= count,
                    None => payable,
                },
                WardCost::Compound { costs } => {
                    &&& costs@.len() == 0 ==> payable
                    &&& forall|i: int|
                        0 <= i < costs@.len() && payable ==> ward_payable(
                            ctx,
                            #[trigger] costs@[i],
                            warded,
                        )
                    &&& !payable ==> exists|i: int|
                        0 <= i < costs@.len() && !ward_payable(ctx, #[trigger] costs@[i], warded)
                },
            }
        }),
{
    match ward {
        WardCost::DiscardCard => {
            let hand = ctx.state.players[ctx.ai_player.0 as int].hand@;
            if let Some(source) = context::source_of(ctx) {
                let q = |id: ObjectId| id != source.id;
                if exists|i: int| 0 <= i < hand.len() && #[trigger] hand[i] != source.id {
                    let i = choose|i: int| 0 <= i < hand.len() && #[trigger] hand[i] != source.id;
                    assert(q(hand[i]));
                }
                if seqs::any(hand, q) {
                    let i = choose|i: int| 0 <= i < hand.len() && q(#[trigger] hand[i]);
                    assert(hand[i] != source.id);
                }
            }
        },
        WardCost::Sacrifice { count, filter } => {
            assert(own_matched(*ctx.state, ctx.ai_player, filter) =~= (|id: ObjectId|
                match ctx.state.obj(id) {
                    Some(o) => o.controller == ctx.ai_player && filter.matching_objects@.contains(
                        id,
                    ),
                    None => false,
                }));
        },
        _ => {},
    }
}

// ---------------------------------------------------------------------------
// What the functions return
// ---------------------------------------------------------------------------

/// What `sacrifice_cost` returns for a creature that is no land is at least
/// what `evaluate_creature` returns for it, and just that unless it is a token
/// that is worth less than the token cost.
pub proof fn law_sacrifice_cost_covers_the_creature(
    state: &GameState,
    id: ObjectId,
    penalties: &PolicyPenalties,
    o: GameObject,
    cost: i128,
    value: i128,
)
    requires
        call_ensures(sacrifice_cost, (state, id, penalties), cost),
        call_ensures(evaluate_creature, (state, id), value),
        state.obj(id) == Some(o),
        o.core_types@.contains(CoreType::Creature),
        !o.core_types@.contains(CoreType::Land),
    ensures
        cost >= value,
        !o.is_token ==> cost == value,
        o.is_token && value >= penalties.sacrifice_token_cost ==> cost == value,
        o.is_token && value < penalties.sacrifice_token_cost ==> cost
            == penalties.sacrifice_token_cost,
{
}

/// What `sacrifice_cost` returns for anything else: the penalty of a land, the
/// cost of a token, the mana value up to four, nothing for what is no object.
pub proof fn law_sacrifice_cost_of_other_permanents(
    state: &GameState,
    id: ObjectId,
    penalties: &PolicyPenalties,
    cost: i128,
)
    requires
        call_ensures(sacrifice_cost, (state, id, penalties), cost),
    ensures
        state.obj(id) is None ==> cost == 0,
        state.obj(id) matches Some(o) ==> {
            let land = o.core_types@.contains(CoreType::Land);
            let creature = o.core_types@.contains(CoreType::Creature);
            &&& land ==> cost == penalties.sacrifice_land_penalty
            &&& !land && !creature && o.is_token ==> cost == penalties.sacrifice_token_cost
            &&& !land && !creature && !o.is_token && o.mana_value <= 4 ==> cost == 1_000_000
                * o.mana_value
            &&& !land && !creature && !o.is_token && o.mana_value > 4 ==> cost == 4_000_000
        },
{
}

/// What the readings of the opposing creatures return: the worst threat among
/// all of them, among those untapped, and among those a filter matches; none
/// of the last two is worse than the first.
pub proof fn law_threat_readings_return_the_worst(
    state: &GameState,
    ai_player: PlayerId,
    filter: &TargetFilter,
    all: i128,
    blocking: i128,
    hit: i128,
)
    requires
        call_ensures(visible_opponent_creature_value, (state, ai_player), all),
        call_ensures(untapped_opponent_blocker_value, (state, ai_player), blocking),
        call_ensures(targetable_threat_value, (state, ai_player, filter), hit),
    ensures
        all == worst_threat(*state, ai_player, |id: ObjectId| true),
        blocking == worst_threat(
            *state,
            ai_player,
            |id: ObjectId|
                match state.obj(id) {
                    Some(o) => !o.tapped,
                    None => false,
                },
        ),
        hit == worst_threat(
            *state,
            ai_player,
            |id: ObjectId| filter.matching_objects@.contains(id),
        ),
        blocking <= all,
        hit <= all,
{
    assert(anything() =~= (|id: ObjectId| true));
    assert(untapped(*state) =~= (|id: ObjectId|
        match state.obj(id) {
            Some(o) => !o.tapped,
            None => false,
        }));
    assert(matched(*filter) =~= (|id: ObjectId| filter.matching_objects@.contains(id)));
    law_narrower_filter_never_hits_more(*state, ai_player, untapped(*state), anything());
    law_narrower_filter_never_hits_more(*state, ai_player, matched(*filter), anything());
}

/// What the readings of the board return are the counts and sums that they are
/// named after.
pub proof fn law_board_readings_return_their_totals(
    state: &GameState,
    player: PlayerId,
    attacker: ObjectId,
    lands: usize,
    pressure: i128,
    can_block: bool,
    blockers: usize,
    damage: i64,
    counterspells: usize,
)
    requires
        call_ensures(count_own_lands, (state, player), lands),
        call_ensures(battlefield_pressure_delta, (state, player), pressure),
        call_ensures(ai_can_block, (state, player, attacker), can_block),
        call_ensures(legal_blocker_count, (state, player, attacker), blockers),
        call_ensures(opponent_lethal_damage, (state, player), damage),
        call_ensures(count_counterspells_in_hand, (state, player), counterspells),
    ensures
        lands == land_count(*state, player),
        pressure == seqs::sum(state.battlefield@, pressure_of(*state, player)),
        can_block <==> blockers > 0,
        blockers == seqs::count(state.battlefield@, blocker_of(*state, player, attacker)),
        damage == lethal_damage(*state, player),
        counterspells == board::count(
            *state,
            state.players[player.0 as int].hand@,
            counterspell(),
        ),
        state.battlefield@.len() == 0 ==> lands == 0 && pressure == 0 && !can_block && damage == 0,
{
    law_blockers_are_untapped_creatures(*state, player, attacker);
}

/// What the readings of a candidate return.
pub proof fn law_candidate_readings_return_their_values(
    ctx: &PolicyContext<'_>,
    object: &GameObject,
    ward: &WardCost,
    quiet: bool,
    presence_score: i128,
    best: i128,
    mana: u64,
    payable: bool,
)
    requires
        call_ensures(is_own_main_phase, (ctx,), quiet),
        call_ensures(board_presence_score, (object,), presence_score),
        call_ensures(best_proactive_cast_score, (ctx,), best),
        call_ensures(available_mana_after_spell, (ctx,), mana),
        call_ensures(can_pay_ward_cost, (ctx, ward, object), payable),
    ensures
        quiet <==> own_main_phase(*ctx),
        presence_score == presence(*object),
        best == best_proactive(*ctx),
        mana == mana_after_spell(*ctx),
        payable <==> ward_payable(*ctx, *ward, *object),
        (*ward matches WardCost::Mana { mana_value } ==> (payable <==> mana >= mana_value)),
{
}

} // verus!
