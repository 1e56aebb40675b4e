//! The sources of randomness the library draws on. Nothing is claimed
//! about which of the possible outcomes a draw gives; two draws may differ.

use rand::seq::IteratorRandom;
use rand::Rng;
use vstd::prelude::*;

verus! {

/// Draws a number from the closed range `low..=high` with
/// `rand::Rng::gen_range` on the generator of `rand::thread_rng`.
///
/// Not proved: that the sample lies in the range. `gen_range` refuses an
/// empty range, which `low <= high` rules out.
#[verifier::external_body]
pub(crate) fn random_between(low: u64, high: u64) -> (sample: u64)
    requires
        low <= high,
    ensures
        low <= sample <= high,
{
    rand::thread_rng().gen_range(low..=high)
}

/// Picks one of the indexes `0..len` with `rand::seq::IteratorRandom::choose`
/// on the generator of `rand::thread_rng`.
///
/// Not proved: that an index is picked if and only if there is one, and
/// that it lies below `len`.
#[verifier::external_body]
pub(crate) fn choose_index(len: usize) -> (index: Option<usize>)
    ensures
        match index {
            Some(i) => i < len,
            None => len == 0,
        },
{
    (0..len).choose(&mut rand::thread_rng())
}

/// Picks `amount` of the indexes `0..len`, none of them twice, with
/// `rand::seq::IteratorRandom::choose_multiple` on the generator of
/// `rand::thread_rng`.
///
/// Not proved: that exactly `amount` indexes come back, each below `len`
/// and no two the same.
#[verifier::external_body]
pub(crate) fn choose_indexes(len: usize, amount: usize) -> (picks: Vec<usize>)
    requires
        amount <= len,
    ensures
        picks.len() == amount,
        forall|i: int| 0 <= i < picks.len() ==> (#[trigger] picks@[i]) < len,
        forall|i: int, j: int|
            0 <= i < j < picks.len() ==> (#[trigger] picks@[i]) != (#[trigger] picks@[j]),
{
    (0..len).choose_multiple(&mut rand::thread_rng(), amount)
}

} // verus!
