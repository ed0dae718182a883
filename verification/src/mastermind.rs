//! The game engine and the parts it is made of.

mod counting;
pub mod hint;
pub mod scoring;
pub mod state;

use vstd::prelude::*;
use crate::mastermind::counting::{
    right_position_count, wrong_position_count, wrong_position_count_in_row,
};
use crate::mastermind::hint::Hint;
use crate::mastermind::scoring::lemma_counted_by_position;
use crate::mastermind::state::GameState;

verus! {

/// Number of digits in a secret and in a guess.
pub const CODE_LENGTH: usize = 4;

/// Why the engine turned a call down.
#[derive(Clone, Copy, Debug, PartialEq, Eq, Structural)]
pub enum Error {
    /// Every guess that the game allows has been made.
    MaxGuesses,
    /// The secret holds some digit twice.
    InvalidSecret,
}

/// One game: the secret, whether it was found, and the guesses counted
/// against the limit.
#[derive(Debug, PartialEq)]
pub struct Mastermind {
    secret: [u32; 4],
    resolved: bool,
    guesses: u32,
    max_guesses: u32,
}

impl View for Mastermind {
    type V = GameState;

    /// The abstract value of the game.
    closed spec fn view(&self) -> GameState {
        GameState {
            secret: self.secret@,
            resolved: self.resolved,
            guesses_made: self.guesses as nat,
            max_guesses: self.max_guesses as nat,
        }
    }
}

impl Mastermind {
    /// Every game that exists is valid.
    #[verifier::type_invariant]
    spec fn well_formed(self) -> bool {
        self@.valid()
    }

    /// Starts a game. The secret is accepted when its four digits are
    /// pairwise distinct, and refused otherwise.
    pub fn new(secret: [u32; 4], max_guesses: u32) -> (result: Result<Mastermind, Error>)
        ensures
            match result {
                Ok(game) => {
                    &&& secret@.no_duplicates()
                    &&& game@ == GameState::fresh(secret@, max_guesses as nat)
                    &&& game@.valid()
                },
                Err(error) => !secret@.no_duplicates() && error == Error::InvalidSecret,
            },
    {
        if !Self::check_secret(secret) {
            return Err(Error::InvalidSecret);
        }
        Ok(Mastermind { secret, resolved: false, guesses: 0, max_guesses })
    }

    /// The secret, at any time of the game.
    pub fn get_secret(&self) -> (secret: [u32; 4])
        ensures
            secret@ == self@.secret,
    {
        self.secret
    }

    /// Whether some accepted guess was equal to the secret.
    pub fn is_resolved(&self) -> (resolved: bool)
        ensures
            resolved == self@.resolved,
    {
        self.resolved
    }

    /// Number of guesses accepted so far.
    pub fn guesses_made(&self) -> (count: u32)
        ensures
            count == self@.guesses_made,
    {
        self.guesses
    }

    /// Number of guesses that the game accepts in all.
    pub fn max_guesses(&self) -> (limit: u32)
        ensures
            limit == self@.max_guesses,
    {
        self.max_guesses
    }

    /// Takes one guess. A game whose guesses are spent refuses it and stays
    /// as it is. Otherwise the guess is counted, the game is resolved if the
    /// guess is equal to the secret, and the hint for the guess is returned.
    pub fn guess(&mut self, guess: [u32; 4]) -> (result: Result<Hint, Error>)
        ensures
            final(self)@ == old(self)@.after_guess(guess@),
            final(self)@.valid(),
            match result {
                Ok(hint) => !old(self)@.exhausted() && hint.scores(guess@, old(self)@.secret),
                Err(error) => old(self)@.exhausted() && error == Error::MaxGuesses,
            },
    {
        proof {
            use_type_invariant(&*self);
        }
        if self.guesses >= self.max_guesses {
            return Err(Error::MaxGuesses);
        }
        if Self::same_code(&guess, &self.secret) {
            self.resolved = true;
        }
        self.guesses += 1;
        Ok(self.compare_guess_and_secret(guess))
    }

    /// Holds every digit of the guess against every digit of the secret and
    /// counts the equal pairs: as right where the two positions are the same,
    /// as wrong where they differ.
    fn compare_guess_and_secret(&self, guess: [u32; 4]) -> (hint: Hint)
        ensures
            hint.scores(guess@, self@.secret),
    {
        let mut in_right_position: u32 = 0;
        let mut in_wrong_position: u32 = 0;
        for i in 0..CODE_LENGTH
            invariant
                in_right_position == right_position_count(guess@, self.secret@, i as int),
                in_wrong_position == wrong_position_count(guess@, self.secret@, i as int),
                in_right_position <= i,
                in_wrong_position <= CODE_LENGTH * i,
        {
            for j in 0..CODE_LENGTH
                invariant
                    i < CODE_LENGTH,
                    in_right_position == right_position_count(guess@, self.secret@, i as int)
                        + if i < j && guess@[i as int] == self.secret@[i as int] {
                        1nat
                    } else {
                        0nat
                    },
                    in_wrong_position == wrong_position_count(guess@, self.secret@, i as int)
                        + wrong_position_count_in_row(guess@, self.secret@, i as int, j as int),
                    right_position_count(guess@, self.secret@, i as int) <= i,
                    in_wrong_position <= CODE_LENGTH * i + j,
            {
                if guess[i] == self.secret[j] && i == j {
                    in_right_position += 1;
                } else if guess[i] == self.secret[j] && i != j {
                    in_wrong_position += 1;
                }
            }
        }
        proof {
            lemma_counted_by_position(guess@, self.secret@);
        }
        Hint::new(in_right_position, in_wrong_position)
    }

    /// Whether two codes hold the same digit at every position.
    fn same_code(left: &[u32; 4], right: &[u32; 4]) -> (same: bool)
        ensures
            same == (left@ == right@),
    {
        for i in 0..CODE_LENGTH
            invariant
                forall|k: int| 0 <= k < i ==> left@[k] == right@[k],
        {
            if left[i] != right[i] {
                return false;
            }
        }
        assert(left@ =~= right@);
        true
    }

    /// Whether no two positions of the secret hold the same digit.
    fn check_secret(secret: [u32; 4]) -> (distinct: bool)
        ensures
            distinct == secret@.no_duplicates(),
    {
        for i in 0..CODE_LENGTH
            invariant
                forall|a: int, b: int|
                    0 <= a < i && a < b < CODE_LENGTH ==> secret@[a] != secret@[b],
        {
            for j in (i + 1)..CODE_LENGTH
                invariant
                    i < CODE_LENGTH,
                    forall|b: int| i < b < j ==> secret@[i as int] != secret@[b],
            {
                if secret[i] == secret[j] {
                    return false;
                }
            }
        }
        true
    }
}

/// The queries answer from the state of the game alone: asked again of the
/// same game, each gives the answer it gave before.
pub proof fn lemma_queries_repeat_their_answers(
    game: Mastermind,
    secret_once: [u32; 4],
    secret_again: [u32; 4],
    resolved_once: bool,
    resolved_again: bool,
)
    requires
        call_ensures(Mastermind::get_secret, (&game,), secret_once),
        call_ensures(Mastermind::get_secret, (&game,), secret_again),
        call_ensures(Mastermind::is_resolved, (&game,), resolved_once),
        call_ensures(Mastermind::is_resolved, (&game,), resolved_again),
    ensures
        secret_once == secret_again,
        resolved_once == resolved_again,
{
}

} // verus!
