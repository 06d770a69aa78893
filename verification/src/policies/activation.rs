//! How much a policy's word counts.

use vstd::prelude::*;

use crate::eval;
use crate::features::DeckFeatures;
use crate::score;
use crate::score::{mul_scaled, UNIT};

verus! {

/// A weight that never changes.
pub open spec fn constant() -> Option<int> {
    Some(UNIT as int)
}

/// A weight that grows and shrinks with the stage of the game.
pub open spec fn by_turn(features: DeckFeatures) -> Option<int> {
    Some(features.turn_multiplier as int)
}

/// A weight that goes with the stage of the game and the strategy of the deck.
pub open spec fn by_archetype_and_turn(features: DeckFeatures, scale: int) -> Option<int> {
    Some(score::scaled(scale, features.turn_multiplier as int))
}

/// A weight that never changes.
pub fn always() -> (r: Option<i128>)
    ensures
        eval::int_opt(r) == constant(),
{
    Some(UNIT)
}

/// A weight that grows and shrinks with the stage of the game.
pub fn turn_only(features: &DeckFeatures) -> (r: Option<i128>)
    ensures
        eval::int_opt(r) == by_turn(*features),
{
    Some(features.turn_multiplier as i128)
}

/// A weight that goes with the stage of the game and the strategy of the deck.
pub fn arch_times_turn(features: &DeckFeatures, scale: i64) -> (r: Option<i128>)
    ensures
        eval::int_opt(r) == by_archetype_and_turn(*features, scale as int),
{
    proof {
        score::lemma_product_bound(
            scale as int,
            features.turn_multiplier as int,
            0x8000_0000_0000_0000,
            0x8000_0000_0000_0000,
        );
    }
    Some(mul_scaled(scale as i128, features.turn_multiplier as i128))
}

/// A constant weight is one; a weight by turn is the multiplier of the stage
/// of the game; one by strategy too is their product, so that a strategy of
/// one leaves the multiplier and a strategy of nothing leaves nothing.
pub proof fn law_weights_follow_their_name(features: DeckFeatures, scale: int)
    ensures
        constant() == Some(1_000_000int),
        by_turn(features) == Some(features.turn_multiplier as int),
        by_archetype_and_turn(features, 1_000_000) == Some(features.turn_multiplier as int),
        by_archetype_and_turn(features, 0) == Some(0int),
        by_archetype_and_turn(features, scale) matches Some(w) && 1_000_000 * w <= scale
            * features.turn_multiplier < 1_000_000 * (w + 1),
{
}

} // verus!
