//! A single-player code-breaking game: a hidden code of four distinct digits,
//! a bounded number of guesses, and after each guess a hint that counts the
//! digits found in the right place and the digits found in a wrong place.
//!
//! [`mastermind`] holds the game engine, the hint and the mathematical model
//! that their contracts are stated over. [`input`] reads a guess from a line
//! of text.

pub mod input;
pub mod mastermind;
