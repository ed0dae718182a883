//! The feedback that a guess earns.

use vstd::prelude::*;
use crate::mastermind::scoring::{in_right_position, in_wrong_position};
use crate::mastermind::CODE_LENGTH;

verus! {

/// What one guess told the player: how many of its digits are in the secret
/// at the same position, and how many matches it has with other positions.
#[derive(Clone, Copy, Debug, PartialEq, Eq, Structural)]
pub struct Hint {
    pub in_right_position: u32,
    pub in_wrong_position: u32,
}

impl Hint {
    /// A hint with the two given counts.
    pub fn new(in_right_position: u32, in_wrong_position: u32) -> (hint: Hint)
        ensures
            hint == (Hint { in_right_position, in_wrong_position }),
    {
        Hint { in_right_position, in_wrong_position }
    }

    /// Whether the hint reports every digit of the guess in the right
    /// position, which is how a winning guess shows.
    pub fn is_win(&self) -> (win: bool)
        ensures
            win == (self.in_right_position == CODE_LENGTH),
    {
        self.in_right_position == CODE_LENGTH as u32
    }

    /// This hint is the one that `guess` earns against `secret`.
    pub open spec fn scores(self, guess: Seq<u32>, secret: Seq<u32>) -> bool {
        &&& self.in_right_position == in_right_position(guess, secret)
        &&& self.in_wrong_position == in_wrong_position(guess, secret)
    }
}

} // verus!
