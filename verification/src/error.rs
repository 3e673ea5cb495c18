//! What can go wrong in a round of the game.

use vstd::prelude::*;

verus! {

/// The two ways in which the game refuses what it is given.
#[derive(Clone, Copy, Debug, PartialEq, Eq, Structural)]
pub enum ErrorKind {
    /// A line of input does not hold an unsigned number of 32 bits. The round
    /// goes on: the line is dropped and the player is asked again.
    InvalidInput,
    /// A range was named whose lower bound lies above its upper bound. No
    /// session comes of it.
    InvalidRange,
}

} // verus!
