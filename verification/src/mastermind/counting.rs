//! Counting the equal pairs of a guess and a secret position by position.
//!
//! The counts are built up row by row, a row being one position of the guess
//! held against the positions of the secret, for codes of any length. This is
//! how the engine's loops count, and what the facts on hints are proved from.

use vstd::prelude::*;
use crate::mastermind::scoring::shared_digits;

verus! {

/// Number of positions below `rows` at which `guess` and `secret` hold the
/// same digit.
pub(crate) open spec fn right_position_count(
    guess: Seq<u32>,
    secret: Seq<u32>,
    rows: int,
) -> nat
    recommends
        rows <= guess.len(),
        rows <= secret.len(),
    decreases rows,
{
    if rows <= 0 {
        0
    } else {
        right_position_count(guess, secret, rows - 1) + if guess[rows - 1] == secret[rows - 1] {
            1nat
        } else {
            0nat
        }
    }
}

/// Number of positions `j` below `cols`, other than `row`, at which `secret`
/// holds the digit that `guess` holds at `row`.
pub(crate) open spec fn wrong_position_count_in_row(
    guess: Seq<u32>,
    secret: Seq<u32>,
    row: int,
    cols: int,
) -> nat
    recommends
        0 <= row < guess.len(),
        cols <= secret.len(),
    decreases cols,
{
    if cols <= 0 {
        0
    } else {
        wrong_position_count_in_row(guess, secret, row, cols - 1) + if cols - 1 != row
            && guess[row] == secret[cols - 1] {
            1nat
        } else {
            0nat
        }
    }
}

/// Number of pairs of positions `(i, j)` with `i` below `rows` and `i != j`
/// at which `guess[i]` equals `secret[j]`.
pub(crate) open spec fn wrong_position_count(
    guess: Seq<u32>,
    secret: Seq<u32>,
    rows: int,
) -> nat
    recommends
        rows <= guess.len(),
    decreases rows,
{
    if rows <= 0 {
        0
    } else {
        wrong_position_count(guess, secret, rows - 1) + wrong_position_count_in_row(
            guess,
            secret,
            rows - 1,
            secret.len() as int,
        )
    }
}

/// Number of positions below `cols` at which `secret` holds the digit that
/// `guess` holds at `row`, the position `row` itself included.
pub(crate) open spec fn hits_in_row(
    guess: Seq<u32>,
    secret: Seq<u32>,
    row: int,
    cols: int,
) -> nat {
    wrong_position_count_in_row(guess, secret, row, cols) + if row < cols && guess[row]
        == secret[row] {
        1nat
    } else {
        0nat
    }
}

/// Number of pairs of positions `(i, j)` with `i` below `rows` at which
/// `guess[i]` equals `secret[j]`.
pub(crate) open spec fn hits(guess: Seq<u32>, secret: Seq<u32>, rows: int) -> nat {
    right_position_count(guess, secret, rows) + wrong_position_count(guess, secret, rows)
}

/// The positions below `rows` at which `guess` and `secret` hold the same
/// digit.
pub(crate) open spec fn right_positions_upto(
    guess: Seq<u32>,
    secret: Seq<u32>,
    rows: int,
) -> Set<int> {
    Set::new(|i: int| 0 <= i < rows && guess[i] == secret[i])
}

/// The pairs of the position `row` of the guess and a different position of
/// the secret below `cols` that hold the same digit.
pub(crate) open spec fn wrong_position_pairs_in_row(
    guess: Seq<u32>,
    secret: Seq<u32>,
    row: int,
    cols: int,
) -> Set<(int, int)> {
    Set::new(
        |pair: (int, int)|
            {
                &&& pair.0 == row
                &&& 0 <= pair.1 < cols
                &&& pair.0 != pair.1
                &&& guess[pair.0] == secret[pair.1]
            },
    )
}

/// The pairs of a position of the guess below `rows` and a different
/// position of the secret that hold the same digit.
pub(crate) open spec fn wrong_position_pairs_upto(
    guess: Seq<u32>,
    secret: Seq<u32>,
    rows: int,
) -> Set<(int, int)> {
    Set::new(
        |pair: (int, int)|
            {
                &&& 0 <= pair.0 < rows
                &&& 0 <= pair.1 < secret.len()
                &&& pair.0 != pair.1
                &&& guess[pair.0] == secret[pair.1]
            },
    )
}

/// The digit values that occur both among the first `rows` digits of `guess`
/// and in `secret`.
pub(crate) open spec fn shared_digits_upto(
    guess: Seq<u32>,
    secret: Seq<u32>,
    rows: int,
) -> Set<u32> {
    shared_digits(guess.take(rows), secret)
}

/// The right positions below `rows` are as many as were counted.
pub(crate) proof fn lemma_right_positions_upto(guess: Seq<u32>, secret: Seq<u32>, rows: int)
    requires
        0 <= rows,
    ensures
        right_positions_upto(guess, secret, rows).finite(),
        right_positions_upto(guess, secret, rows).len() == right_position_count(
            guess,
            secret,
            rows,
        ),
    decreases rows,
{
    let now = right_positions_upto(guess, secret, rows);
    if rows == 0 {
        assert(now =~= Set::<int>::empty());
    } else {
        let before = right_positions_upto(guess, secret, rows - 1);
        lemma_right_positions_upto(guess, secret, rows - 1);
        if guess[rows - 1] == secret[rows - 1] {
            assert(now =~= before.insert(rows - 1));
        } else {
            assert(now =~= before);
        }
    }
}

/// The wrong-position pairs of one row are as many as were counted.
pub(crate) proof fn lemma_wrong_position_pairs_in_row(
    guess: Seq<u32>,
    secret: Seq<u32>,
    row: int,
    cols: int,
)
    requires
        0 <= cols,
    ensures
        wrong_position_pairs_in_row(guess, secret, row, cols).finite(),
        wrong_position_pairs_in_row(guess, secret, row, cols).len()
            == wrong_position_count_in_row(guess, secret, row, cols),
    decreases cols,
{
    let now = wrong_position_pairs_in_row(guess, secret, row, cols);
    if cols == 0 {
        assert(now =~= Set::<(int, int)>::empty());
    } else {
        let before = wrong_position_pairs_in_row(guess, secret, row, cols - 1);
        lemma_wrong_position_pairs_in_row(guess, secret, row, cols - 1);
        if cols - 1 != row && guess[row] == secret[cols - 1] {
            assert(now =~= before.insert((row, cols - 1)));
        } else {
            assert(now =~= before);
        }
    }
}

/// The wrong-position pairs of the rows below `rows` are as many as were
/// counted: the pairs of different rows are different pairs.
pub(crate) proof fn lemma_wrong_position_pairs_upto(
    guess: Seq<u32>,
    secret: Seq<u32>,
    rows: int,
)
    requires
        0 <= rows,
    ensures
        wrong_position_pairs_upto(guess, secret, rows).finite(),
        wrong_position_pairs_upto(guess, secret, rows).len() == wrong_position_count(
            guess,
            secret,
            rows,
        ),
    decreases rows,
{
    let now = wrong_position_pairs_upto(guess, secret, rows);
    if rows == 0 {
        assert(now =~= Set::<(int, int)>::empty());
    } else {
        let before = wrong_position_pairs_upto(guess, secret, rows - 1);
        let row = wrong_position_pairs_in_row(guess, secret, rows - 1, secret.len() as int);
        lemma_wrong_position_pairs_upto(guess, secret, rows - 1);
        lemma_wrong_position_pairs_in_row(guess, secret, rows - 1, secret.len() as int);
        assert(now =~= before + row);
        vstd::set_lib::lemma_set_disjoint_lens(before, row);
    }
}

/// A digit of the guess meets a secret of distinct digits at most once, and
/// exactly once when the secret holds it.
pub(crate) proof fn lemma_hits_in_row(guess: Seq<u32>, secret: Seq<u32>, row: int, cols: int)
    requires
        secret.no_duplicates(),
        0 <= row < guess.len(),
        0 <= cols <= secret.len(),
    ensures
        hits_in_row(guess, secret, row, cols) <= 1,
        hits_in_row(guess, secret, row, cols) == 1 <==> exists|j: int|
            0 <= j < cols && #[trigger] secret[j] == guess[row],
    decreases cols,
{
    if cols > 0 {
        lemma_hits_in_row(guess, secret, row, cols - 1);
    }
}

/// How the hits of the first `rows` digits of the guess relate to the digit
/// values that those digits share with a secret of distinct digits: there is
/// at least one hit for each shared value and at most one for each row, no
/// hit without a shared value, and exactly one hit for each shared value
/// where those digits of the guess are distinct too.
pub(crate) proof fn lemma_hits_against_shared_digits(
    guess: Seq<u32>,
    secret: Seq<u32>,
    rows: int,
)
    requires
        secret.no_duplicates(),
        0 <= rows <= guess.len(),
        rows <= secret.len(),
    ensures
        shared_digits_upto(guess, secret, rows).finite(),
        shared_digits_upto(guess, secret, rows).len() <= hits(guess, secret, rows) <= rows,
        hits(guess, secret, rows) > 0 ==> shared_digits_upto(guess, secret, rows).len() > 0,
        guess.take(rows).no_duplicates() ==> hits(guess, secret, rows) == shared_digits_upto(
            guess,
            secret,
            rows,
        ).len(),
    decreases rows,
{
    broadcast use vstd::seq_lib::seq_to_set_is_finite;

    let shared = shared_digits_upto(guess, secret, rows);
    if rows == 0 {
        assert(shared =~= Set::<u32>::empty());
    } else {
        let before = shared_digits_upto(guess, secret, rows - 1);
        let digit = guess[rows - 1];
        lemma_hits_against_shared_digits(guess, secret, rows - 1);
        lemma_hits_in_row(guess, secret, rows - 1, secret.len() as int);
        assert(guess.take(rows) =~= guess.take(rows - 1).push(digit));
        guess.take(rows - 1).lemma_push_to_set_commute(digit);
        if secret.contains(digit) {
            assert(shared =~= before.insert(digit));
            if guess.take(rows).no_duplicates() {
                let earlier = guess.take(rows - 1);
                assert(!earlier.contains(digit)) by {
                    if earlier.contains(digit) {
                        let i = earlier.index_of(digit);
                        assert(guess.take(rows)[i] == guess.take(rows)[rows - 1]);
                    }
                }
            }
        } else {
            assert(shared =~= before);
        }
    }
}

} // verus!
