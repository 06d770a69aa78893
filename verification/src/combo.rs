//! How near a deck is to its combos.

use vstd::prelude::*;

use crate::model::GameAction;

verus! {

/// How near a combo line is to being played.
#[derive(Debug)]
pub enum ComboReachability {
    /// All pieces are there.
    ReachableThisTurn { missing_mana: u32, required_actions: Vec<GameAction> },
    /// A piece or a turn is missing.
    ReachableNextTurn,
    Unreachable,
}

} // verus!
