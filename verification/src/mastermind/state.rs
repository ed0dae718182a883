//! The game as a mathematical state machine.
//!
//! The engine's contracts are stated over [`GameState`], the abstract value
//! of a game, and over the transition that one guess makes.

use vstd::prelude::*;
use crate::mastermind::hint::Hint;
use crate::mastermind::scoring::lemma_exact_guess_hint;
use crate::mastermind::CODE_LENGTH;

verus! {

/// The abstract value of a game.
#[verifier::ext_equal]
pub struct GameState {
    /// The hidden code.
    pub secret: Seq<u32>,
    /// Whether some accepted guess was equal to the secret.
    pub resolved: bool,
    /// Number of guesses accepted so far.
    pub guesses_made: nat,
    /// Number of guesses that the game accepts in all.
    pub max_guesses: nat,
}

/// Where a game stands from the player's point of view.
pub enum Phase {
    /// Not won, and guesses are left.
    Active,
    /// Some accepted guess was equal to the secret.
    Resolved,
    /// Every guess is spent and none was equal to the secret.
    Exhausted,
}

impl GameState {
    /// The game before the first guess.
    pub open spec fn fresh(secret: Seq<u32>, max_guesses: nat) -> GameState {
        GameState { secret, resolved: false, guesses_made: 0, max_guesses }
    }

    /// What holds of every game: the secret has four digits, no two of them
    /// equal, and no more guesses were accepted than the limit allows.
    pub open spec fn valid(self) -> bool {
        &&& self.secret.len() == CODE_LENGTH
        &&& self.secret.no_duplicates()
        &&& self.guesses_made <= self.max_guesses
    }

    /// No further guess is accepted.
    pub open spec fn exhausted(self) -> bool {
        self.guesses_made >= self.max_guesses
    }

    /// The game after `guess` was submitted. An exhausted game stays as it
    /// is. Otherwise the guess is counted, whatever it holds, and it resolves
    /// the game when it is equal to the secret. A resolved game stays resolved.
    pub open spec fn after_guess(self, guess: Seq<u32>) -> GameState {
        if self.exhausted() {
            self
        } else {
            GameState {
                resolved: self.resolved || guess == self.secret,
                guesses_made: self.guesses_made + 1,
                ..self
            }
        }
    }

    /// The game after each of `guesses` was submitted in turn.
    pub open spec fn after_guesses(self, guesses: Seq<Seq<u32>>) -> GameState
        decreases guesses.len(),
    {
        if guesses.len() == 0 {
            self
        } else {
            self.after_guesses(guesses.drop_last()).after_guess(guesses.last())
        }
    }

    /// The phase that the game is in. A game that is won with its last guess
    /// counts as resolved.
    pub open spec fn phase(self) -> Phase {
        if self.resolved {
            Phase::Resolved
        } else if self.exhausted() {
            Phase::Exhausted
        } else {
            Phase::Active
        }
    }
}

/// Guesses change neither the secret nor the limit, and they keep a game
/// valid: each one is counted until the limit is reached, and none after.
pub proof fn lemma_guesses_are_counted_up_to_the_limit(state: GameState, guesses: Seq<Seq<u32>>)
    requires
        state.valid(),
    ensures
        state.after_guesses(guesses).valid(),
        state.after_guesses(guesses).secret == state.secret,
        state.after_guesses(guesses).max_guesses == state.max_guesses,
        state.after_guesses(guesses).guesses_made == if state.guesses_made + guesses.len()
            <= state.max_guesses {
            state.guesses_made + guesses.len()
        } else {
            state.max_guesses
        },
    decreases guesses.len(),
{
    if guesses.len() > 0 {
        lemma_guesses_are_counted_up_to_the_limit(state, guesses.drop_last());
    }
}

/// A game is resolved after a run of guesses exactly when it was resolved
/// before, or one of the guesses that it still accepted was equal to the
/// secret.
pub proof fn lemma_resolved_iff_exact_guess_accepted(state: GameState, guesses: Seq<Seq<u32>>)
    requires
        state.valid(),
    ensures
        state.after_guesses(guesses).resolved <==> state.resolved || exists|k: int|
            0 <= k < guesses.len() && state.guesses_made + k < state.max_guesses
                && #[trigger] guesses[k] == state.secret,
    decreases guesses.len(),
{
    if guesses.len() > 0 {
        let earlier = guesses.drop_last();
        let last = guesses.len() - 1;
        lemma_resolved_iff_exact_guess_accepted(state, earlier);
        lemma_guesses_are_counted_up_to_the_limit(state, earlier);
        if !state.resolved && exists|k: int|
            0 <= k < guesses.len() && state.guesses_made + k < state.max_guesses
                && #[trigger] guesses[k] == state.secret {
            // An exact guess before the last one had already resolved the game.
            let k = choose|k: int|
                0 <= k < guesses.len() && state.guesses_made + k < state.max_guesses
                    && #[trigger] guesses[k] == state.secret;
            if k < last {
                assert(earlier[k] == state.secret);
            }
        }
    }
}

/// How one guess moves a game between its phases. A resolved game stays
/// resolved. An exhausted game does not change at all. An active game is
/// resolved by a guess equal to the secret; any other guess exhausts it if it
/// was the last one allowed, and leaves it active if not.
pub proof fn lemma_phase_after_guess(state: GameState, guess: Seq<u32>)
    ensures
        state.phase() is Resolved ==> state.after_guess(guess).phase() is Resolved,
        state.phase() is Exhausted ==> state.after_guess(guess) == state,
        state.phase() is Active ==> state.after_guess(guess).phase() == if guess == state.secret {
            Phase::Resolved
        } else if state.guesses_made + 1 == state.max_guesses {
            Phase::Exhausted
        } else {
            Phase::Active
        },
{
}

/// A guess equal to the secret, made while guesses are left, resolves the
/// game, and its hint has all four digits in the right position and none in
/// a wrong one.
pub proof fn lemma_exact_guess_resolves(state: GameState, hint: Hint)
    requires
        state.valid(),
        !state.exhausted(),
        hint.scores(state.secret, state.secret),
    ensures
        state.after_guess(state.secret).resolved,
        hint == (Hint { in_right_position: 4, in_wrong_position: 0 }),
{
    lemma_exact_guess_hint(state.secret);
}

} // verus!
