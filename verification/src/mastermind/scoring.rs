//! What a hint counts, stated over sequences of four digits.
//!
//! Every position of the guess is held against every position of the secret.
//! A pair of equal digits counts as "right position" when the two positions
//! are the same and as "wrong position" when they differ. Nothing is used up:
//! a digit that the guess repeats is counted again for each repetition.

use vstd::prelude::*;
use crate::mastermind::counting::{
    lemma_hits_against_shared_digits, lemma_right_positions_upto,
    lemma_wrong_position_pairs_upto, right_position_count, right_positions_upto,
    wrong_position_count, wrong_position_count_in_row, wrong_position_pairs_upto,
};
use crate::mastermind::CODE_LENGTH;

verus! {

/// 1 where `guess` at position `i` and `secret` at position `j` hold the same
/// digit, and 0 where they do not.
pub open spec fn hit(guess: Seq<u32>, secret: Seq<u32>, i: int, j: int) -> nat {
    if guess[i] == secret[j] {
        1
    } else {
        0
    }
}

/// Number of positions at which `guess` and `secret` hold the same digit.
pub open spec fn in_right_position(guess: Seq<u32>, secret: Seq<u32>) -> nat
    recommends
        guess.len() == CODE_LENGTH,
        secret.len() == CODE_LENGTH,
{
    hit(guess, secret, 0, 0) + hit(guess, secret, 1, 1) + hit(guess, secret, 2, 2) + hit(
        guess,
        secret,
        3,
        3,
    )
}

/// Number of pairs of a position of `guess` and a different position of
/// `secret` that hold the same digit.
pub open spec fn in_wrong_position(guess: Seq<u32>, secret: Seq<u32>) -> nat
    recommends
        guess.len() == CODE_LENGTH,
        secret.len() == CODE_LENGTH,
{
    hit(guess, secret, 0, 1) + hit(guess, secret, 0, 2) + hit(guess, secret, 0, 3)
        + hit(guess, secret, 1, 0) + hit(guess, secret, 1, 2) + hit(guess, secret, 1, 3)
        + hit(guess, secret, 2, 0) + hit(guess, secret, 2, 1) + hit(guess, secret, 2, 3)
        + hit(guess, secret, 3, 0) + hit(guess, secret, 3, 1) + hit(guess, secret, 3, 2)
}

/// The positions at which `guess` and `secret` hold the same digit.
pub open spec fn right_positions(guess: Seq<u32>, secret: Seq<u32>) -> Set<int> {
    Set::new(|i: int| 0 <= i < guess.len() && i < secret.len() && guess[i] == secret[i])
}

/// The pairs of a position of `guess` and a different position of `secret`
/// that hold the same digit.
pub open spec fn wrong_position_pairs(guess: Seq<u32>, secret: Seq<u32>) -> Set<(int, int)> {
    Set::new(
        |pair: (int, int)|
            {
                &&& 0 <= pair.0 < guess.len()
                &&& 0 <= pair.1 < secret.len()
                &&& pair.0 != pair.1
                &&& guess[pair.0] == secret[pair.1]
            },
    )
}

/// The digit values that occur both in `guess` and in `secret`.
pub open spec fn shared_digits(guess: Seq<u32>, secret: Seq<u32>) -> Set<u32> {
    guess.to_set().intersect(secret.to_set())
}

/// For codes of four digits, counting position by position gives the two
/// counts.
pub(crate) proof fn lemma_counted_by_position(guess: Seq<u32>, secret: Seq<u32>)
    requires
        secret.len() == CODE_LENGTH,
    ensures
        right_position_count(guess, secret, 4) == in_right_position(guess, secret),
        wrong_position_count(guess, secret, 4) == in_wrong_position(guess, secret),
{
    reveal_with_fuel(right_position_count, 5);
    reveal_with_fuel(wrong_position_count, 5);
    reveal_with_fuel(wrong_position_count_in_row, 5);
}

/// The two counts are numbers of pairs of positions: of the positions at
/// which guess and secret agree, and of the pairs of different positions at
/// which they hold the same digit.
pub proof fn lemma_counts_are_numbers_of_pairs(guess: Seq<u32>, secret: Seq<u32>)
    requires
        guess.len() == CODE_LENGTH,
        secret.len() == CODE_LENGTH,
    ensures
        right_positions(guess, secret).finite(),
        wrong_position_pairs(guess, secret).finite(),
        in_right_position(guess, secret) == right_positions(guess, secret).len(),
        in_wrong_position(guess, secret) == wrong_position_pairs(guess, secret).len(),
{
    lemma_counted_by_position(guess, secret);
    lemma_right_positions_upto(guess, secret, 4);
    lemma_wrong_position_pairs_upto(guess, secret, 4);
    assert(right_positions(guess, secret) =~= right_positions_upto(guess, secret, 4));
}

/// With a secret of distinct digits, the two counts of a hint together lie
/// between the number of digit values that guess and secret share and four
/// times that number: every shared value is found at least once, and a guess
/// that repeats it finds it once for each repetition. Nor can they exceed
/// four.
pub proof fn lemma_hint_bounded_by_shared_digits(guess: Seq<u32>, secret: Seq<u32>)
    requires
        guess.len() == CODE_LENGTH,
        secret.len() == CODE_LENGTH,
        secret.no_duplicates(),
    ensures
        shared_digits(guess, secret).finite(),
        shared_digits(guess, secret).len() <= in_right_position(guess, secret) + in_wrong_position(
            guess,
            secret,
        ) <= 4 * shared_digits(guess, secret).len(),
        in_right_position(guess, secret) + in_wrong_position(guess, secret) <= 4,
{
    lemma_counted_by_position(guess, secret);
    lemma_hits_against_shared_digits(guess, secret, 4);
    assert(guess.take(4) =~= guess);
}

/// Where neither the guess nor the secret repeats a digit, the two counts of
/// a hint add up to the number of digit values that guess and secret share.
pub proof fn lemma_hint_counts_shared_digits(guess: Seq<u32>, secret: Seq<u32>)
    requires
        guess.len() == CODE_LENGTH,
        secret.len() == CODE_LENGTH,
        guess.no_duplicates(),
        secret.no_duplicates(),
    ensures
        in_right_position(guess, secret) + in_wrong_position(guess, secret) == shared_digits(
            guess,
            secret,
        ).len(),
{
    lemma_counted_by_position(guess, secret);
    assert(guess.take(4) =~= guess);
    lemma_hits_against_shared_digits(guess, secret, 4);
}

/// Every digit of a guess is in the right position exactly when the guess is
/// equal to the secret.
pub proof fn lemma_all_in_right_position_iff_equal(guess: Seq<u32>, secret: Seq<u32>)
    requires
        guess.len() == CODE_LENGTH,
        secret.len() == CODE_LENGTH,
    ensures
        in_right_position(guess, secret) <= 4,
        in_right_position(guess, secret) == 4 <==> guess == secret,
{
    if in_right_position(guess, secret) == 4 {
        assert(guess =~= secret);
    }
}

/// A guess equal to a secret of distinct digits has every digit in the right
/// position and none in a wrong one.
pub proof fn lemma_exact_guess_hint(secret: Seq<u32>)
    requires
        secret.len() == CODE_LENGTH,
        secret.no_duplicates(),
    ensures
        in_right_position(secret, secret) == 4,
        in_wrong_position(secret, secret) == 0,
{
}

} // verus!
