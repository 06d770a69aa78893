//! Looking at hands and taking cards from them.

use vstd::prelude::*;

use crate::features::DeckFeatures;
use crate::model;
use crate::model::{
    contains_object, contains_player, stat_or_zero, CoreType, Effect, EffectKind, FilterShape,
    GameAction, GameObject, GameState, ObjectId, Player, PlayerId, TargetFilter, TargetRef,
};
use crate::score;
use crate::score::{div_floor, min_score};
use crate::seqs;

use super::activation;
use super::activation::turn_only;
use super::context;
use super::context::{any_effect, CastFacts, PolicyContext};
use super::registry;
use super::registry::{
    DecisionKind, PolicyId, PolicyReason, PolicyVerdict, Ruling, TacticalPolicy,
};
use super::strategy_helpers;
use super::strategy_helpers::best_proactive_cast_score;

verus! {

/// Times discard and hand-revealing spells, and points them at full hands.
#[derive(Debug)]
pub struct HandDisruptionPolicy;

/// What disrupting hands is worth now.
#[derive(Debug, Clone, Copy, PartialEq, Eq, Structural)]
pub struct DisruptionWindow {
    pub tactical_score: i128,
    pub hint_priority: i128,
}

// ---------------------------------------------------------------------------
// Casting a disruption spell
// ---------------------------------------------------------------------------

/// Whether an effect discards.
pub open spec fn discards() -> spec_fn(Effect) -> bool {
    |e: Effect| e.kind is DiscardCard
}

/// Whether an effect reveals a hand.
pub open spec fn reveals() -> spec_fn(Effect) -> bool {
    |e: Effect| e.kind is RevealHand
}

/// What the first effect that reveals a hand may take.
pub open spec fn reveal_filter(effects: Seq<Effect>) -> Option<TargetFilter>
    decreases effects.len(),
{
    if effects.len() == 0 {
        None
    } else {
        match effects[0].kind {
            EffectKind::RevealHand { card_filter, .. } => Some(card_filter),
            _ => reveal_filter(effects.drop_first()),
        }
    }
}

/// Whether a spell may take any card.
pub open spec fn takes_anything(filter: Option<TargetFilter>) -> bool {
    match filter {
        Some(f) => f.shape is Any,
        None => true,
    }
}

/// How many cards a player holds.
pub open spec fn hand_size(state: GameState) -> spec_fn(PlayerId) -> int {
    |p: PlayerId| state.seat(p).hand@.len() as int
}

/// How many cards the opponent with the fullest hand holds.
pub open spec fn fullest_hand(state: GameState, ai_player: PlayerId) -> int {
    seqs::largest(state.opponents_of(ai_player), 0, hand_size(state))
}

/// The revealed cards that a spell may take.
pub open spec fn visible_hit(
    state: GameState,
    filter: Option<TargetFilter>,
) -> spec_fn(ObjectId) -> bool {
    |id: ObjectId|
        state.revealed_cards@.contains(id) && state.obj(id) is Some && (match filter {
            Some(f) => f.matching_objects@.contains(id),
            None => true,
        })
}

/// How much a card in hand is worth.
pub open spec fn hand_card_value(o: GameObject) -> int {
    score::lesser(o.mana_value * 100_000, 140_000) + (if o.has_type(CoreType::Creature) {
        score::lesser(
            (score::greater(model::stat(o.power) + model::stat(o.toughness), 0) * 1_000_000) / 12,
            180_000,
        )
    } else {
        80_000
    })
}

/// How much a revealed card is worth that a spell may take; nothing for any
/// other.
pub open spec fn hit_value(
    state: GameState,
    filter: Option<TargetFilter>,
) -> spec_fn(ObjectId) -> int {
    |id: ObjectId|
        match state.obj(id) {
            Some(o) => if visible_hit(state, filter)(id) {
                hand_card_value(o)
            } else {
                0
            },
            None => 0,
        }
}

/// Whether a player holds a revealed card that a spell may take.
pub open spec fn holds_hit(
    state: GameState,
    filter: Option<TargetFilter>,
) -> spec_fn(PlayerId) -> bool {
    |p: PlayerId| seqs::any(state.seat(p).hand@, visible_hit(state, filter))
}

/// How much the best such card is worth that a player holds.
pub open spec fn best_hit(
    state: GameState,
    filter: Option<TargetFilter>,
) -> spec_fn(PlayerId) -> int {
    |p: PlayerId| seqs::largest(state.seat(p).hand@, 0, hit_value(state, filter))
}

/// What a disruption spell is worth for the fullest hand alone.
pub open spec fn hand_size_score(discards: bool, broad: bool, hand: int) -> int {
    if discards {
        if hand == 0 {
            -520_000
        } else if hand == 1 {
            if broad {
                20_000
            } else {
                -220_000
            }
        } else if hand == 2 {
            if broad {
                80_000
            } else {
                -80_000
            }
        } else if broad {
            140_000
        } else {
            -20_000
        }
    } else if hand == 0 {
        -240_000
    } else if hand == 1 {
        20_000
    } else if hand == 2 {
        60_000
    } else {
        100_000
    }
}

/// What a disruption spell is worth: better for each full hand and for a card
/// that is known to be there, worse for a narrow spell that may find nothing.
/// Looking alone is never worth much.
pub open spec fn tactical_value(
    discards: bool,
    reveals: bool,
    broad: bool,
    hand: int,
    hit: Option<int>,
) -> int {
    let size = hand_size_score(discards, broad, hand);
    let found = match hit {
        Some(value) => size + score::lesser(value, 280_000) + 60_000,
        None => if broad {
            size
        } else if discards {
            size - 220_000
        } else {
            size - 120_000
        },
    };
    if reveals && !discards {
        score::lesser(found, 120_000)
    } else {
        found
    }
}

/// How urgent a disruption spell is.
pub open spec fn hint_value(
    discards: bool,
    reveals: bool,
    broad: bool,
    hand: int,
    hit: Option<int>,
) -> int {
    match hit {
        Some(value) => score::lesser(420_000 + score::lesser(value, 240_000), 720_000),
        None => {
            let urgency = if discards && broad {
                if hand == 0 {
                    160_000
                } else if hand == 1 {
                    280_000
                } else if hand == 2 {
                    400_000
                } else {
                    500_000
                }
            } else if reveals {
                220_000
            } else {
                180_000
            };
            if broad {
                urgency
            } else {
                score::lesser(urgency, 240_000)
            }
        },
    }
}

/// The best card that a spell is known to find, where it is known to find one.
pub open spec fn known_hit(
    state: GameState,
    ai_player: PlayerId,
    filter: Option<TargetFilter>,
) -> Option<int> {
    let opponents = state.opponents_of(ai_player);
    if seqs::any(opponents, holds_hit(state, filter)) {
        Some(seqs::largest(opponents, 0, best_hit(state, filter)))
    } else {
        None
    }
}

/// What a disruption spell is worth now, and how urgent it is; `None` for any
/// other spell.
pub open spec fn window(
    state: GameState,
    ai_player: PlayerId,
    facts: CastFacts,
) -> Option<(int, int)> {
    let effects = facts.immediate_effects@;
    let filter = reveal_filter(effects);
    let (discards, reveals) = (seqs::any(effects, discards()), seqs::any(effects, reveals()));
    let broad = takes_anything(filter);
    let hand = fullest_hand(state, ai_player);
    let hit = known_hit(state, ai_player, filter);
    if facts.profile.has_reveal_hand_or_discard {
        Some(
            (
                tactical_value(discards, reveals, broad, hand, hit),
                hint_value(discards, reveals, broad, hand, hit),
            ),
        )
    } else {
        None
    }
}

/// To know that a card is there never makes a disruption spell worth less, nor
/// one less urgent that is narrow or only looks.
pub proof fn law_known_hit_never_hurts(
    discards: bool,
    reveals: bool,
    broad: bool,
    hand: int,
    value: int,
)
    requires
        value >= 0,
    ensures
        tactical_value(discards, reveals, broad, hand, None) <= tactical_value(
            discards,
            reveals,
            broad,
            hand,
            Some(value),
        ),
        !broad || !discards ==> hint_value(discards, reveals, broad, hand, None) <= hint_value(
            discards,
            reveals,
            broad,
            hand,
            Some(value),
        ),
{
}

/// A fuller hand never makes disruption worth less.
pub proof fn law_fuller_hand_never_hurts(
    discards: bool,
    reveals: bool,
    broad: bool,
    hand: int,
    fuller: int,
    hit: Option<int>,
)
    requires
        0 <= hand <= fuller,
    ensures
        tactical_value(discards, reveals, broad, hand, hit) <= tactical_value(
            discards,
            reveals,
            broad,
            fuller,
            hit,
        ),
{
}

/// How much a card in hand is worth.
fn visible_hand_card_value(o: &GameObject) -> (r: i128)
    ensures
        r == hand_card_value(*o),
        0 <= r <= 320_000,
{
    let mana: i128 = min_score(o.mana_value as i128 * 100_000, 140_000);
    if o.is_type(CoreType::Creature) {
        let stats: i128 = score::max_score(
            stat_or_zero(o.power) as i128 + stat_or_zero(o.toughness) as i128,
            0,
        );
        mana + min_score(div_floor(stats * 1_000_000, 12), 180_000)
    } else {
        mana + 80_000
    }
}

/// What the first effect that reveals a hand may take.
fn first_reveal_filter<'b>(effects: &'b Vec<Effect>) -> (r: Option<&'b TargetFilter>)
    ensures
        model::deref_opt(r) == reveal_filter(effects@),
{
    let mut i: usize = 0;
    assert(effects@.skip(0) =~= effects@);
    while i < effects.len()
        invariant
            i <= effects@.len(),
            reveal_filter(effects@.skip(i as int)) == reveal_filter(effects@),
        decreases effects@.len() - i,
    {
        assert(effects@.skip(i as int).drop_first() =~= effects@.skip(i + 1));
        if let EffectKind::RevealHand { card_filter, .. } = &effects[i].kind {
            return Some(card_filter);
        }
        i += 1;
    }
    None
}

/// How many cards the opponent with the fullest hand holds.
fn max_hand_size(state: &GameState, ai_player: PlayerId) -> (r: usize)
    requires
        state.valid(),
        state.seated(ai_player),
    ensures
        r == fullest_hand(*state, ai_player),
{
    let ghost seat = ai_player.0 as int;
    let opponents = &state.player(ai_player).opponents;
    let ghost f = hand_size(*state);
    let mut most: usize = 0;
    let mut i: usize = 0;
    while i < opponents.len()
        invariant
            state.valid(),
            0 <= seat < state.players.len(),
            *opponents == state.players[seat].opponents,
            f == hand_size(*state),
            i <= opponents@.len(),
            most == seqs::largest(opponents@.take(i as int), 0, f),
        decreases opponents@.len() - i,
    {
        proof {
            seqs::lemma_largest_step(opponents@, i as int, 0, f);
            assert(state.seated(state.players[seat].opponents[i as int]));
        }
        let size: usize = state.player(opponents[i]).hand.len();
        if size > most {
            most = size;
        }
        i += 1;
    }
    assert(opponents@.take(opponents@.len() as int) =~= opponents@);
    most
}

/// The best card in a hand that a spell is known to find.
fn best_hit_in_hand(
    state: &GameState,
    hand: &Vec<ObjectId>,
    filter: Option<&TargetFilter>,
) -> (r: Option<i128>)
    ensures
        r is Some == seqs::any(hand@, visible_hit(*state, model::deref_opt(filter))),
        (match r {
            Some(v) => v as int,
            None => 0,
        }) == seqs::largest(hand@, 0, hit_value(*state, model::deref_opt(filter))),
        r matches Some(v) ==> 0 <= v <= 320_000,
{
    let ghost owned = model::deref_opt(filter);
    let ghost f = hit_value(*state, owned);
    let ghost p = visible_hit(*state, owned);
    let mut best: Option<i128> = None;
    let mut i: usize = 0;
    while i < hand.len()
        invariant
            owned == model::deref_opt(filter),
            f == hit_value(*state, owned),
            p == visible_hit(*state, owned),
            i <= hand@.len(),
            best is Some == seqs::any(hand@.take(i as int), p),
            (match best {
                Some(v) => v as int,
                None => 0,
            }) == seqs::largest(hand@.take(i as int), 0, f),
            best matches Some(v) ==> 0 <= v <= 320_000,
        decreases hand@.len() - i,
    {
        let ghost before = hand@.take(i as int);
        let ghost after = hand@.take(i + 1);
        proof {
            seqs::lemma_largest_step(hand@, i as int, 0, f);
            lemma_any_step(hand@, i as int, p);
        }
        let id: ObjectId = hand[i];
        if contains_object(&state.revealed_cards, id) {
            if let Some(o) = state.object(id) {
                let legal: bool = match filter {
                    Some(f) => contains_object(&f.matching_objects, id),
                    None => true,
                };
                if legal {
                    let value: i128 = visible_hand_card_value(o);
                    best = match best {
                        Some(b) => if value > b {
                            Some(value)
                        } else {
                            Some(b)
                        },
                        None => Some(value),
                    };
                }
            }
        }
        i += 1;
    }
    assert(hand@.take(hand@.len() as int) =~= hand@);
    best
}

/// Whether something satisfies a predicate is decided element by element.
proof fn lemma_any_step<A>(s: Seq<A>, i: int, p: spec_fn(A) -> bool)
    requires
        0 <= i < s.len(),
    ensures
        seqs::any(s.take(i + 1), p) == (seqs::any(s.take(i), p) || p(s[i])),
{
    seqs::lemma_count_any(s.take(i + 1), p);
    seqs::lemma_count_any(s.take(i), p);
    seqs::lemma_count_step(s, i, p);
}

/// The best card that a spell is known to find.
fn best_known_hit(
    state: &GameState,
    ai_player: PlayerId,
    filter: Option<&TargetFilter>,
) -> (r: Option<i128>)
    requires
        state.valid(),
        state.seated(ai_player),
    ensures
        crate::eval::int_opt(r) == known_hit(*state, ai_player, model::deref_opt(filter)),
        r matches Some(v) ==> 0 <= v <= 320_000,
{
    let ghost seat = ai_player.0 as int;
    let opponents = &state.player(ai_player).opponents;
    let ghost owned = model::deref_opt(filter);
    let ghost f = best_hit(*state, owned);
    let ghost p = holds_hit(*state, owned);
    let mut best: Option<i128> = None;
    let mut i: usize = 0;
    while i < opponents.len()
        invariant
            state.valid(),
            0 <= seat < state.players.len(),
            *opponents == state.players[seat].opponents,
            owned == model::deref_opt(filter),
            f == best_hit(*state, owned),
            p == holds_hit(*state, owned),
            i <= opponents@.len(),
            best is Some == seqs::any(opponents@.take(i as int), p),
            (match best {
                Some(v) => v as int,
                None => 0,
            }) == seqs::largest(opponents@.take(i as int), 0, f),
            best matches Some(v) ==> 0 <= v <= 320_000,
        decreases opponents@.len() - i,
    {
        proof {
            seqs::lemma_largest_step(opponents@, i as int, 0, f);
            lemma_any_step(opponents@, i as int, p);
            assert(state.seated(state.players[seat].opponents[i as int]));
        }
        if let Some(value) = best_hit_in_hand(state, &state.player(opponents[i]).hand, filter) {
            best = match best {
                Some(b) => if value > b {
                    Some(value)
                } else {
                    Some(b)
                },
                None => Some(value),
            };
        }
        i += 1;
    }
    assert(opponents@.take(opponents@.len() as int) =~= opponents@);
    best
}

/// What a disruption spell is worth for the fullest hand alone.
fn score_of_hand_size(discards: bool, broad: bool, hand: usize) -> (r: i128)
    ensures
        r == hand_size_score(discards, broad, hand as int),
        -520_000 <= r <= 140_000,
{
    if discards {
        match hand {
            0 => -520_000,
            1 => if broad {
                20_000
            } else {
                -220_000
            },
            2 => if broad {
                80_000
            } else {
                -80_000
            },
            _ => if broad {
                140_000
            } else {
                -20_000
            },
        }
    } else {
        match hand {
            0 => -240_000,
            1 => 20_000,
            2 => 60_000,
            _ => 100_000,
        }
    }
}

/// What a disruption spell is worth.
fn tactical_score(
    discards: bool,
    reveals: bool,
    broad: bool,
    hand: usize,
    hit: Option<i128>,
) -> (r: i128)
    requires
        hit matches Some(v) ==> 0 <= v <= 320_000,
    ensures
        r == tactical_value(discards, reveals, broad, hand as int, crate::eval::int_opt(hit)),
        -1_000_000 <= r <= 1_000_000,
{
    let mut score: i128 = score_of_hand_size(discards, broad, hand);
    match hit {
        Some(value) => {
            score += min_score(value, 280_000) + 60_000;
        },
        None => {
            if !broad {
                score -= if discards {
                    220_000
                } else {
                    120_000
                };
            }
        },
    }
    if reveals && !discards {
        score = min_score(score, 120_000);
    }
    score
}

/// How urgent a disruption spell is.
fn hint_priority(
    discards: bool,
    reveals: bool,
    broad: bool,
    hand: usize,
    hit: Option<i128>,
) -> (r: i128)
    requires
        hit matches Some(v) ==> 0 <= v <= 320_000,
    ensures
        r == hint_value(discards, reveals, broad, hand as int, crate::eval::int_opt(hit)),
{
    match hit {
        Some(value) => min_score(420_000 + min_score(value, 240_000), 720_000),
        None => {
            let urgency: i128 = if discards && broad {
                match hand {
                    0 => 160_000,
                    1 => 280_000,
                    2 => 400_000,
                    _ => 500_000,
                }
            } else if reveals {
                220_000
            } else {
                180_000
            };
            if broad {
                urgency
            } else {
                min_score(urgency, 240_000)
            }
        },
    }
}

/// What a disruption spell is worth now; `None` for any other spell.
pub fn disruption_window_score(
    state: &GameState,
    ai_player: PlayerId,
    facts: &CastFacts,
) -> (r: Option<DisruptionWindow>)
    requires
        state.valid(),
        state.seated(ai_player),
    ensures
        window(*state, ai_player, *facts) == (match r {
            Some(w) => Some((w.tactical_score as int, w.hint_priority as int)),
            None => None,
        }),
        r matches Some(window) ==> -1_000_000 <= window.tactical_score <= 1_000_000,
{
    if !facts.profile.has_reveal_hand_or_discard {
        return None;
    }
    let effects = &facts.immediate_effects;
    let is_discard = |e: &Effect| -> (b: bool)
        ensures
            b == discards()(*e),
        { matches!(e.kind, EffectKind::DiscardCard) };
    let is_reveal = |e: &Effect| -> (b: bool)
        ensures
            b == reveals()(*e),
        { matches!(e.kind, EffectKind::RevealHand { .. }) };
    let has_discard: bool = seqs::any_of(effects, is_discard, Ghost(discards()));
    let has_reveal: bool = seqs::any_of(effects, is_reveal, Ghost(reveals()));
    let card_filter = first_reveal_filter(effects);
    let broad: bool = match card_filter {
        Some(f) => matches!(f.shape, FilterShape::Any),
        None => true,
    };
    let hand: usize = max_hand_size(state, ai_player);
    let hit: Option<i128> = best_known_hit(state, ai_player, card_filter);
    Some(
        DisruptionWindow {
            tactical_score: tactical_score(has_discard, has_reveal, broad, hand, hit),
            hint_priority: hint_priority(has_discard, has_reveal, broad, hand, hit),
        },
    )
}

// ---------------------------------------------------------------------------
// Choosing whose hand
// ---------------------------------------------------------------------------

/// The effects that reveal the hand of a player when pointed at them.
pub open spec fn reveals_hand_of(player: PlayerId) -> spec_fn(Effect) -> bool {
    |e: Effect|
        match e.kind {
            EffectKind::RevealHand { target, .. } => target.matching_players@.contains(player),
            _ => false,
        }
}

/// The player with the given id.
pub open spec fn find_player(players: Seq<Player>, id: PlayerId) -> Option<Player>
    decreases players.len(),
{
    if players.len() == 0 {
        None
    } else if players[0].id == id {
        Some(players[0])
    } else {
        find_player(players.drop_first(), id)
    }
}

/// The cards that have not been revealed.
pub open spec fn hidden(state: GameState) -> spec_fn(ObjectId) -> bool {
    |id: ObjectId| !state.revealed_cards@.contains(id)
}

/// What pointing a hand-revealing effect at a player is worth: a full hand of
/// an opponent that has not been seen is best, anybody else's is a blunder.
pub open spec fn player_target_value(ctx: PolicyContext<'_>, player: PlayerId) -> int {
    if !seqs::any(context::effects_of(ctx), reveals_hand_of(player)) {
        0
    } else if !ctx.state.opponents_of(ctx.ai_player).contains(player) {
        -6_000_000
    } else {
        match find_player(ctx.state.players@, player) {
            Some(p) => {
                let unseen = seqs::count(p.hand@, hidden(*ctx.state)) as int;
                1_250_000 + unseen * 200_000 + (p.hand@.len() - unseen) * 20_000
            },
            None => 0,
        }
    }
}

/// What a target is worth; only players are.
pub open spec fn target_value(ctx: PolicyContext<'_>) -> spec_fn(TargetRef) -> int {
    |t: TargetRef|
        match t {
            TargetRef::Player(p) => player_target_value(ctx, p),
            TargetRef::Object(_) => 0,
        }
}

/// What casting a disruption spell is worth: less where there is something
/// better to do.
pub open spec fn cast_value(ctx: PolicyContext<'_>) -> int {
    match context::facts_of(ctx) {
        Some(facts) => match window(*ctx.state, ctx.ai_player, facts) {
            Some((tactical, _)) => if strategy_helpers::best_proactive(ctx) >= 400_000 {
                tactical - 180_000
            } else {
                tactical
            },
            None => 0,
        },
        None => 0,
    }
}

/// What the policy adds to a candidate.
pub open spec fn disruption_score(ctx: PolicyContext<'_>) -> int {
    match ctx.candidate.action {
        GameAction::CastSpell { .. } => cast_value(ctx),
        GameAction::ChooseTarget { target } => match target {
            Some(t) => target_value(ctx)(t),
            None => 0,
        },
        GameAction::SelectTargets { targets } => seqs::sum(targets@, target_value(ctx)),
        _ => 0,
    }
}

/// The player with the given id.
fn player_with_id<'b>(state: &'b GameState, id: PlayerId) -> (r: Option<&'b Player>)
    requires
        state.valid(),
    ensures
        model::deref_opt(r) == find_player(state.players@, id),
        r matches Some(p) ==> p.hand@.len() <= u32::MAX,
{
    let ghost players = state.players@;
    let mut i: usize = 0;
    assert(players.skip(0) =~= players);
    while i < state.players.len()
        invariant
            state.valid(),
            players == state.players@,
            i <= players.len(),
            find_player(players.skip(i as int), id) == find_player(players, id),
        decreases players.len() - i,
    {
        assert(players.skip(i as int).drop_first() =~= players.skip(i + 1));
        if state.players[i].id == id {
            assert(state.players[i as int].hand.len() <= u32::MAX);
            return Some(&state.players[i]);
        }
        i += 1;
    }
    None
}

/// How many cards of a hand have not been revealed.
fn count_hidden(state: &GameState, hand: &Vec<ObjectId>) -> (r: usize)
    ensures
        r == seqs::count(hand@, hidden(*state)),
        r <= hand@.len(),
{
    let ghost q = hidden(*state);
    let mut n: usize = 0;
    let mut i: usize = 0;
    while i < hand.len()
        invariant
            q == hidden(*state),
            i <= hand@.len(),
            n <= i,
            n == seqs::count(hand@.take(i as int), q),
        decreases hand@.len() - i,
    {
        proof {
            seqs::lemma_count_step(hand@, i as int, q);
        }
        if !contains_object(&state.revealed_cards, hand[i]) {
            n += 1;
        }
        i += 1;
    }
    assert(hand@.take(hand@.len() as int) =~= hand@);
    n
}

/// Whether an effect reveals a hand, and may reveal that of `target_player`.
pub fn reveal_hand_matches_chosen_player_target(effect: &Effect, target_player: PlayerId) -> (r:
    bool)
    ensures
        r == reveals_hand_of(target_player)(*effect),
{
    match &effect.kind {
        EffectKind::RevealHand { target, .. } => contains_player(
            &target.matching_players,
            target_player,
        ),
        _ => false,
    }
}

/// What pointing a hand-revealing effect at a player is worth.
fn score_reveal_hand_player_target(ctx: &PolicyContext<'_>, target_player: PlayerId) -> (r: i128)
    requires
        ctx.valid(),
    ensures
        r == player_target_value(*ctx, target_player),
        -0x10_0000_0000_0000 <= r <= 0x10_0000_0000_0000,
{
    let reveals_hand = |e: &Effect| -> (b: bool)
        ensures
            b == reveals_hand_of(target_player)(*e),
        { reveal_hand_matches_chosen_player_target(e, target_player) };
    if !any_effect(&ctx.effects(), reveals_hand, Ghost(reveals_hand_of(target_player))) {
        return 0;
    }
    if !contains_player(&ctx.state.player(ctx.ai_player).opponents, target_player) {
        return -6_000_000;
    }
    match player_with_id(ctx.state, target_player) {
        Some(player) => {
            let held: i128 = player.hand.len() as i128;
            let unseen: i128 = count_hidden(ctx.state, &player.hand) as i128;
            1_250_000 + unseen * 200_000 + (held - unseen) * 20_000
        },
        None => 0,
    }
}

/// What a target is worth.
fn score_target(ctx: &PolicyContext<'_>, target: TargetRef) -> (r: i128)
    requires
        ctx.valid(),
    ensures
        r == target_value(*ctx)(target),
        -0x10_0000_0000_0000 <= r <= 0x10_0000_0000_0000,
{
    match target {
        TargetRef::Player(player) => score_reveal_hand_player_target(ctx, player),
        TargetRef::Object(_) => 0,
    }
}

impl HandDisruptionPolicy {
    /// What the policy adds to a candidate.
    pub fn score(&self, ctx: &PolicyContext<'_>) -> (r: i128)
        requires
            ctx.valid(),
        ensures
            r == disruption_score(*ctx),
    {
        match &ctx.candidate.action {
            GameAction::CastSpell { .. } => {
                let facts = match ctx.cast_facts() {
                    Some(f) => f,
                    None => return 0,
                };
                match disruption_window_score(ctx.state, ctx.ai_player, facts) {
                    Some(window) => {
                        let mut score: i128 = window.tactical_score;
                        if best_proactive_cast_score(ctx) >= 400_000 {
                            score -= 180_000;
                        }
                        score
                    },
                    None => 0,
                }
            },
            GameAction::ChooseTarget { target } => match target {
                Some(t) => score_target(ctx, *t),
                None => 0,
            },
            GameAction::SelectTargets { targets } => {
                let ghost f = target_value(*ctx);
                let mut total: i128 = 0;
                let mut i: usize = 0;
                while i < targets.len()
                    invariant
                        ctx.valid(),
                        f == target_value(*ctx),
                        i <= targets@.len(),
                        -0x10_0000_0000_0000 * i <= total <= 0x10_0000_0000_0000 * i,
                        total == seqs::sum(targets@.take(i as int), f),
                    decreases targets@.len() - i,
                {
                    proof {
                        seqs::lemma_sum_step(targets@, i as int, f);
                    }
                    total += score_target(ctx, targets[i]);
                    i += 1;
                }
                assert(targets@.take(targets@.len() as int) =~= targets@);
                total
            },
            _ => 0,
        }
    }
}

impl TacticalPolicy for HandDisruptionPolicy {
    open spec fn identity(&self) -> PolicyId {
        PolicyId::HandDisruption
    }

    open spec fn kinds(&self) -> Seq<DecisionKind> {
        seq![DecisionKind::CastSpell, DecisionKind::SelectTarget]
    }

    open spec fn weight(&self, features: DeckFeatures, state: GameState) -> Option<int> {
        activation::by_turn(features)
    }

    open spec fn ruling(&self, ctx: PolicyContext<'_>) -> Ruling {
        registry::scores(
            disruption_score(ctx),
            registry::because("hand_disruption_score"@),
        )
    }

    fn id(&self) -> PolicyId {
        PolicyId::HandDisruption
    }

    fn decision_kinds(&self) -> Vec<DecisionKind> {
        vec![DecisionKind::CastSpell, DecisionKind::SelectTarget]
    }

    fn activation(
        &self,
        features: &DeckFeatures,
        _state: &GameState,
        _player: PlayerId,
    ) -> Option<i128> {
        turn_only(features)
    }

    fn verdict(&self, ctx: &PolicyContext<'_>) -> PolicyVerdict {
        PolicyVerdict::Score {
            delta: self.score(ctx),
            reason: PolicyReason::new("hand_disruption_score"),
        }
    }
}

// ---------------------------------------------------------------------------
// What disruption promises
// ---------------------------------------------------------------------------

/// The fullest hand is at least every opponent's, and one of theirs unless it
/// is empty.
pub proof fn law_fullest_hand_is_the_fullest(state: GameState, ai_player: PlayerId)
    ensures
        ({
            let opponents = state.players[ai_player.0 as int].opponents@;
            let most = fullest_hand(state, ai_player);
            &&& most >= 0
            &&& forall|i: int|
                0 <= i < opponents.len() ==> state.players[(#[trigger] opponents[i]).0 as
                    int].hand@.len() <= most
            &&& most > 0 ==> exists|i: int|
                0 <= i < opponents.len() && state.players[(#[trigger] opponents[i]).0 as
                    int].hand@.len() == most
        }),
{
    let opponents = state.opponents_of(ai_player);
    seqs::lemma_largest_attained(opponents, 0, hand_size(state));
    assert forall|i: int| 0 <= i < opponents.len() implies state.players[(
    #[trigger] opponents[i]).0 as int].hand@.len() <= fullest_hand(state, ai_player) by {
        assert(hand_size(state)(opponents[i]) <= fullest_hand(state, ai_player));
    }
    if fullest_hand(state, ai_player) > 0 {
        let i = choose|i: int|
            0 <= i < opponents.len() && hand_size(state)(#[trigger] opponents[i]) == fullest_hand(
                state,
                ai_player,
            );
        assert(state.players[opponents[i].0 as int].hand@.len() == fullest_hand(state, ai_player));
    }
}

/// A card in hand is worth a tenth for each point of mana value, up to fourteen
/// hundredths, and eight more, or for a creature a twelfth of its power and
/// toughness together, up to eighteen.
pub proof fn law_card_in_hand_is_worth_its_cost_and_body(o: GameObject)
    ensures
        ({
            let power = match o.power {
                Some(n) => n as int,
                None => 0,
            };
            let toughness = match o.toughness {
                Some(n) => n as int,
                None => 0,
            };
            let creature = o.core_types@.contains(CoreType::Creature);
            let mana = if o.mana_value == 0 {
                0int
            } else if o.mana_value == 1 {
                100_000int
            } else {
                140_000int
            };
            let body = hand_card_value(o) - mana;
            &&& !creature ==> body == 80_000
            &&& creature && power + toughness <= 0 ==> body == 0
            &&& creature && 0 < power + toughness <= 2 ==> 12 * body <= 1_000_000 * (power
                + toughness) < 12 * (body + 1)
            &&& creature && power + toughness > 2 ==> body == 180_000
        }),
{
}

/// A revealed card is a hit where it is a known object that the filter, if
/// there is one, matches.
pub proof fn law_hits_are_revealed(state: GameState, filter: Option<TargetFilter>, id: ObjectId)
    ensures
        visible_hit(state, filter)(id) <==> state.revealed_cards@.contains(id) && state.obj(id)
            is Some && (filter matches Some(f) ==> f.matching_objects@.contains(id)),
{
}

/// A spell is known to find a card exactly where an opponent holds a revealed
/// card that it may take, and then finds one at least as good as any of them.
pub proof fn law_known_hit_is_the_best(
    state: GameState,
    ai_player: PlayerId,
    filter: Option<TargetFilter>,
    i: int,
    j: int,
)
    requires
        0 <= i < state.opponents_of(ai_player).len(),
        0 <= j < state.seat(state.opponents_of(ai_player)[i]).hand@.len(),
        visible_hit(state, filter)(state.seat(state.opponents_of(ai_player)[i]).hand@[j]),
    ensures
        known_hit(state, ai_player, filter) is Some,
        ({
            let card = state.obj(state.seat(state.opponents_of(ai_player)[i]).hand@[j])->Some_0;
            known_hit(state, ai_player, filter)->Some_0 >= hand_card_value(card)
        }),
{
    let opponents = state.opponents_of(ai_player);
    let p = opponents[i];
    let hand = state.seat(p).hand@;
    seqs::lemma_largest_attained(opponents, 0, best_hit(state, filter));
    seqs::lemma_largest_attained(hand, 0, hit_value(state, filter));
    assert(holds_hit(state, filter)(opponents[i]));
    assert(hit_value(state, filter)(hand[j]) <= best_hit(state, filter)(p));
    assert(best_hit(state, filter)(opponents[i]) <= seqs::largest(
        opponents,
        0,
        best_hit(state, filter),
    ));
}

/// A spell is not known to find anything where no opponent holds such a card.
pub proof fn law_no_known_hit(
    state: GameState,
    ai_player: PlayerId,
    filter: Option<TargetFilter>,
)
    requires
        forall|i: int, j: int|
            0 <= i < state.opponents_of(ai_player).len() && 0 <= j < state.seat(
                state.opponents_of(ai_player)[i],
            ).hand@.len() ==> !visible_hit(state, filter)(
                #[trigger] state.seat(state.opponents_of(ai_player)[i]).hand@[j],
            ),
    ensures
        known_hit(state, ai_player, filter) is None,
{
    let opponents = state.opponents_of(ai_player);
    if seqs::any(opponents, holds_hit(state, filter)) {
        let i = choose|i: int| 0 <= i < opponents.len() && holds_hit(state, filter)(
            #[trigger] opponents[i],
        );
        let hand = state.seat(opponents[i]).hand@;
        let j = choose|j: int| 0 <= j < hand.len() && visible_hit(state, filter)(
            #[trigger] hand[j],
        );
        assert(!visible_hit(state, filter)(state.seat(opponents[i]).hand@[j]));
    }
}

/// A narrow discard spell is never worth casting for the hand alone, a broad
/// one is worth it against any hand but an empty one, and a look against any
/// hand but an empty one too.
pub proof fn law_empty_hands_are_not_worth_it(reveals: bool, hand: int)
    requires
        hand >= 0,
    ensures
        tactical_value(true, reveals, false, hand, None) < 0,
        tactical_value(true, reveals, true, hand, None) > 0 <==> hand > 0,
        tactical_value(false, true, true, hand, None) > 0 <==> hand > 0,
        tactical_value(true, reveals, true, 0, None) == -520_000,
        tactical_value(true, reveals, true, 1, None) == 20_000,
        tactical_value(true, reveals, true, 2, None) == 80_000,
        hand >= 3 ==> tactical_value(true, reveals, true, hand, None) == 140_000,
        tactical_value(false, true, true, 0, None) == -240_000,
        tactical_value(false, true, true, 1, None) == 20_000,
        tactical_value(false, true, true, 2, None) == 60_000,
        hand >= 3 ==> tactical_value(false, true, true, hand, None) == 100_000,
        tactical_value(true, reveals, false, 1, None) == -440_000,
        tactical_value(true, reveals, false, 2, None) == -300_000,
        hand >= 3 ==> tactical_value(true, reveals, false, hand, None) == -240_000,
{
}

/// A known card adds its value, up to twenty-eight hundredths, and six more to
/// what the hand alone is worth; but looking alone is never worth more than
/// twelve.
pub proof fn law_known_hit_adds_its_value(
    discards: bool,
    reveals: bool,
    hand: int,
    value: int,
)
    requires
        0 <= value,
    ensures
        discards && value <= 280_000 ==> tactical_value(discards, reveals, true, hand, Some(value))
            == tactical_value(discards, reveals, true, hand, None) + value + 60_000,
        discards && value >= 280_000 ==> tactical_value(discards, reveals, true, hand, Some(value))
            == tactical_value(discards, reveals, true, hand, None) + 340_000,
        !discards && reveals ==> tactical_value(discards, reveals, true, hand, Some(value))
            <= 120_000,
{
}

/// A spell that is known to find a card is more urgent than any that is not,
/// but for a broad discard spell against a full hand; the fuller the hand, the
/// more urgent the discard.
pub proof fn law_urgency_of_disruption(
    discards: bool,
    reveals: bool,
    broad: bool,
    hand: int,
    value: int,
)
    requires
        0 <= value,
        hand >= 0,
    ensures
        value <= 240_000 ==> hint_value(discards, reveals, broad, hand, Some(value)) == 420_000
            + value,
        value >= 240_000 ==> hint_value(discards, reveals, broad, hand, Some(value)) == 660_000,
        hint_value(true, reveals, true, 0, None) == 160_000,
        hint_value(true, reveals, true, 1, None) == 280_000,
        hint_value(true, reveals, true, 2, None) == 400_000,
        hand >= 3 ==> hint_value(true, reveals, true, hand, None) == 500_000,
        !(discards && broad) ==> hint_value(discards, reveals, broad, hand, None) == (if reveals {
            220_000int
        } else {
            180_000
        }),
{
}

/// A spell may take anything where it names no filter or one without a
/// condition, and it is the filter of the first effect that reveals a hand.
pub proof fn law_reveal_filter_is_the_first(effects: Seq<Effect>, n: int)
    requires
        0 <= n <= effects.len(),
        forall|i: int| 0 <= i < n ==> !((#[trigger] effects[i]).kind is RevealHand),
    ensures
        n < effects.len() ==> (effects[n].kind matches EffectKind::RevealHand { card_filter, .. }
            ==> reveal_filter(effects) == Some(card_filter)),
        n == effects.len() ==> reveal_filter(effects) is None,
        takes_anything(None),
    decreases n,
{
    if n > 0 {
        let rest = effects.drop_first();
        assert(!(effects[0].kind is RevealHand));
        assert forall|i: int| 0 <= i < n - 1 implies !((#[trigger] rest[i]).kind
            is RevealHand) by {
            assert(rest[i] == effects[i + 1]);
        }
        law_reveal_filter_is_the_first(rest, n - 1);
    }
}

/// What a disruption spell is worth depends on whether it discards, reveals,
/// what it may take, the fullest opposing hand and what is known of the hands;
/// a spell that does neither has no such worth.
pub proof fn law_window_reads_the_spell(
    state: GameState,
    ai_player: PlayerId,
    facts: CastFacts,
)
    ensures
        window(state, ai_player, facts) is Some <==> facts.profile.has_reveal_hand_or_discard,
        window(state, ai_player, facts) matches Some((tactical, hint)) ==> {
            let effects = facts.immediate_effects@;
            let filter = reveal_filter(effects);
            let discard = exists|i: int|
                0 <= i < effects.len() && (#[trigger] effects[i]).kind is DiscardCard;
            let reveal = exists|i: int|
                0 <= i < effects.len() && (#[trigger] effects[i]).kind is RevealHand;
            let broad = filter matches Some(f) ==> f.shape is Any;
            let hand = fullest_hand(state, ai_player);
            let hit = known_hit(state, ai_player, filter);
            &&& tactical == tactical_value(discard, reveal, broad, hand, hit)
            &&& hint == hint_value(discard, reveal, broad, hand, hit)
        },
{
    let effects = facts.immediate_effects@;
    if exists|i: int| 0 <= i < effects.len() && (#[trigger] effects[i]).kind is DiscardCard {
        let i = choose|i: int|
            0 <= i < effects.len() && (#[trigger] effects[i]).kind is DiscardCard;
        assert(discards()(effects[i]));
    }
    if seqs::any(effects, discards()) {
        let i = choose|i: int| 0 <= i < effects.len() && discards()(#[trigger] effects[i]);
        assert(effects[i].kind is DiscardCard);
    }
    if exists|i: int| 0 <= i < effects.len() && (#[trigger] effects[i]).kind is RevealHand {
        let i = choose|i: int| 0 <= i < effects.len() && (#[trigger] effects[i]).kind is RevealHand;
        assert(reveals()(effects[i]));
    }
    if seqs::any(effects, reveals()) {
        let i = choose|i: int| 0 <= i < effects.len() && reveals()(#[trigger] effects[i]);
        assert(effects[i].kind is RevealHand);
    }
}

/// Casting a disruption spell is worth its window, eighteen hundredths less
/// where some spell is worth four tenths for its own sake.
pub proof fn law_better_spells_come_first(ctx: PolicyContext<'_>, facts: CastFacts)
    requires
        ctx.candidate.action is CastSpell,
        context::facts_of(ctx) == Some(facts),
    ensures
        match window(*ctx.state, ctx.ai_player, facts) {
            Some((tactical, _)) => {
                &&& strategy_helpers::best_proactive(ctx) < 400_000
                    ==> HandDisruptionPolicy.ruling(ctx).worth() == Some(tactical)
                &&& strategy_helpers::best_proactive(ctx) >= 400_000
                    ==> HandDisruptionPolicy.ruling(ctx).worth() == Some(tactical - 180_000)
            },
            None => HandDisruptionPolicy.ruling(ctx).worth() == Some(0int),
        },
{
}

/// Pointing a hand-revealing effect at anybody but an opponent is a blunder; at
/// an opponent it is worth one and a quarter, a fifth for each card that has
/// not been seen and a fiftieth for each that has.
pub proof fn law_reveal_unseen_opposing_hands(
    ctx: PolicyContext<'_>,
    player: PlayerId,
    seat: Player,
)
    requires
        find_player(ctx.state.players@, player) == Some(seat),
        exists|i: int|
            0 <= i < context::effects_of(ctx).len() && (match (
            #[trigger] context::effects_of(ctx)[i]).kind {
                EffectKind::RevealHand { target, .. } => target.matching_players@.contains(player),
                _ => false,
            }),
    ensures
        ({
            let unseen = seqs::count(
                seat.hand@,
                |id: ObjectId| !ctx.state.revealed_cards@.contains(id),
            );
            let worth = player_target_value(ctx, player);
            &&& !ctx.state.opponents_of(ctx.ai_player).contains(player) ==> worth == -6_000_000
            &&& ctx.state.opponents_of(ctx.ai_player).contains(player) ==> worth == 1_250_000
                + 200_000 * unseen + 20_000 * (seat.hand@.len() - unseen)
        }),
{
    let effects = context::effects_of(ctx);
    let i = choose|i: int|
        0 <= i < effects.len() && (match (#[trigger] effects[i]).kind {
            EffectKind::RevealHand { target, .. } => target.matching_players@.contains(player),
            _ => false,
        });
    assert(reveals_hand_of(player)(effects[i]));
    assert(hidden(*ctx.state) =~= (|id: ObjectId| !ctx.state.revealed_cards@.contains(id)));
}

/// A target is worth something only where it is a player that one of the
/// effects may reveal the hand of; targets chosen together add up.
pub proof fn law_targets_add_up(ctx: PolicyContext<'_>, id: ObjectId, player: PlayerId)
    ensures
        target_value(ctx)(TargetRef::Object(id)) == 0,
        target_value(ctx)(TargetRef::Player(player)) == player_target_value(ctx, player),
        (forall|i: int|
            0 <= i < context::effects_of(ctx).len() ==> !((
            #[trigger] context::effects_of(ctx)[i]).kind is RevealHand)) ==> player_target_value(
            ctx,
            player,
        ) == 0,
        match ctx.candidate.action {
            GameAction::ChooseTarget { target } => match target {
                Some(t) => HandDisruptionPolicy.ruling(ctx).worth() == Some(target_value(ctx)(t)),
                None => HandDisruptionPolicy.ruling(ctx).worth() == Some(0int),
            },
            GameAction::SelectTargets { targets } => {
                &&& targets@.len() == 0 ==> HandDisruptionPolicy.ruling(ctx).worth() == Some(0int)
                &&& targets@.len() == 1 ==> HandDisruptionPolicy.ruling(ctx).worth() == Some(
                    target_value(ctx)(targets@[0]),
                )
                &&& targets@.len() == 2 ==> HandDisruptionPolicy.ruling(ctx).worth() == Some(
                    target_value(ctx)(targets@[0]) + target_value(ctx)(targets@[1]),
                )
            },
            GameAction::CastSpell { .. } => true,
            _ => HandDisruptionPolicy.ruling(ctx).worth() == Some(0int),
        },
{
    reveal_with_fuel(seqs::sum, 3);
    if let GameAction::SelectTargets { targets } = ctx.candidate.action {
        if targets@.len() == 2 {
            assert(targets@.drop_last().last() == targets@[0]);
        }
    }
}

/// A lookup by id finds the player with that id.
pub proof fn law_player_lookup(players: Seq<Player>, id: PlayerId)
    ensures
        match find_player(players, id) {
            Some(p) => players.contains(p) && p.id == id,
            None => forall|i: int| 0 <= i < players.len() ==> (#[trigger] players[i]).id != id,
        },
    decreases players.len(),
{
    if players.len() > 0 {
        assert(players.contains(players[0]));
        if players[0].id != id {
            let rest = players.drop_first();
            law_player_lookup(rest, id);
            match find_player(rest, id) {
                Some(p) => {
                    let k = choose|k: int| 0 <= k < rest.len() && rest[k] == p;
                    assert(players[k + 1] == p);
                },
                None => {
                    assert forall|i: int| 0 <= i < players.len() implies (
                    #[trigger] players[i]).id != id by {
                        if i > 0 {
                            assert(rest[i - 1] == players[i]);
                        }
                    }
                },
            }
        }
    }
}

/// What `disruption_window_score` and `reveal_hand_matches_chosen_player_target`
/// return.
pub proof fn law_disruption_readings_return_their_values(
    state: &GameState,
    ai_player: PlayerId,
    facts: &CastFacts,
    r: Option<DisruptionWindow>,
    effect: &Effect,
    player: PlayerId,
    reveals: bool,
)
    requires
        call_ensures(disruption_window_score, (state, ai_player, facts), r),
        call_ensures(reveal_hand_matches_chosen_player_target, (effect, player), reveals),
    ensures
        r is Some <==> facts.profile.has_reveal_hand_or_discard,
        r matches Some(w) ==> window(*state, ai_player, *facts) == Some(
            (w.tactical_score as int, w.hint_priority as int),
        ),
        reveals <==> (effect.kind matches EffectKind::RevealHand { target, .. }
            && target.matching_players@.contains(player)),
{
}

/// The value of a known hit is that of a revealed card that an opponent holds
/// and the spell may take, unless it is nothing.
pub proof fn law_known_hit_is_in_a_hand(
    state: GameState,
    ai_player: PlayerId,
    filter: Option<TargetFilter>,
    value: int,
)
    requires
        known_hit(state, ai_player, filter) == Some(value),
        value > 0,
    ensures
        exists|i: int, j: int|
            0 <= i < state.opponents_of(ai_player).len() && 0 <= j < state.seat(
                state.opponents_of(ai_player)[i],
            ).hand@.len() && is_hit_of(
                state,
                filter,
                #[trigger] state.seat(state.opponents_of(ai_player)[i]).hand@[j],
                value,
            ),
{
    let opponents = state.opponents_of(ai_player);
    seqs::lemma_largest_attained(opponents, 0, best_hit(state, filter));
    let i = choose|i: int|
        0 <= i < opponents.len() && best_hit(state, filter)(#[trigger] opponents[i]) == value;
    let hand = state.seat(opponents[i]).hand@;
    seqs::lemma_largest_attained(hand, 0, hit_value(state, filter));
    let j = choose|j: int|
        0 <= j < hand.len() && hit_value(state, filter)(#[trigger] hand[j]) == value;
    assert(is_hit_of(state, filter, state.seat(opponents[i]).hand@[j], value));
}

/// Whether an object is a revealed card of the given value that a spell may
/// take.
pub open spec fn is_hit_of(
    state: GameState,
    filter: Option<TargetFilter>,
    id: ObjectId,
    value: int,
) -> bool {
    &&& state.revealed_cards@.contains(id)
    &&& filter matches Some(f) ==> f.matching_objects@.contains(id)
    &&& state.obj(id) matches Some(o) && hand_card_value(o) == value
}

} // verus!
