//! The rules engine of the Royal Game of Ur: board state, dice, moves with
//! capture, turn handoff, and the mapping between grid cells and each
//! player's path.

use vstd::prelude::*;

pub mod dice;
pub mod gameboard;
pub mod topology;

pub use crate::gameboard::{Gameboard, MoveOutcome, Player};
