//! Random picks, from the thread's generator or from a seeded ChaCha stream.

use vstd::prelude::*;
use vstd::pervasive::cloned;
use rand::{Rng, SeedableRng};
use rand_chacha::ChaCha8Rng;

verus! {

/// The value that a ChaCha stream with eight rounds, freshly seeded with
/// `seed`, draws first from the integers `min..max`.
pub uninterp spec fn seeded_value(seed: u64, min: int, max: int) -> int;

/// The index that a ChaCha stream with eight rounds, freshly seeded with
/// `seed`, draws first from `0..len`.
pub uninterp spec fn seeded_index(seed: u64, len: nat) -> nat;

/// Calls `Rng::random_range` on `rand::rng()`, the generator of the current
/// thread. Trusted: the value lies in `min..max`; nothing else is known of
/// it.
#[verifier::external_body]
fn thread_range(min: i64, max: i64) -> (value: i64)
    requires
        min < max,
    ensures
        min <= value < max,
{
    rand::rng().random_range(min..max)
}

/// Calls `Rng::random_range` on `rand::rng()` for an index. Trusted: the
/// index lies in `0..len`; nothing else is known of it.
#[verifier::external_body]
fn thread_index(len: usize) -> (index: usize)
    requires
        len > 0,
    ensures
        index < len,
{
    rand::rng().random_range(0..len)
}

/// Calls `ChaCha8Rng::seed_from_u64` and then `Rng::random_range` once.
/// Trusted: the value lies in `min..max` and depends on `seed`, `min` and
/// `max` alone.
#[verifier::external_body]
fn chacha_range(seed: u64, min: i64, max: i64) -> (value: i64)
    requires
        min < max,
    ensures
        min <= value < max,
        value == seeded_value(seed, min as int, max as int),
{
    let mut rng = ChaCha8Rng::seed_from_u64(seed);
    rng.random_range(min..max)
}

/// Calls `ChaCha8Rng::seed_from_u64` and then `Rng::random_range` once for
/// an index. Trusted: the index lies in `0..len` and depends on `seed` and
/// `len` alone.
#[verifier::external_body]
fn chacha_index(seed: u64, len: usize) -> (index: usize)
    requires
        len > 0,
    ensures
        index < len,
        index == seeded_index(seed, len as nat),
{
    let mut rng = ChaCha8Rng::seed_from_u64(seed);
    rng.random_range(0..len)
}

/// A copy of the item at `index`.
pub fn item_at<T: Clone>(vect: &[T], index: usize) -> (item: T)
    requires
        index < vect@.len(),
    ensures
        cloned(vect@[index as int], item),
{
    vect[index].clone()
}

/// A copy of an item of `vect`, picked by the thread's generator.
pub fn random_vec<T: Clone>(vect: &[T]) -> (item: T)
    requires
        vect@.len() > 0,
    ensures
        exists|i: int| 0 <= i < vect@.len() && cloned(vect@[i], item),
{
    let index: usize = thread_index(vect.len());
    item_at(vect, index)
}

/// An integer of `min..max`, picked by the thread's generator.
pub fn random_range(min: i64, max: i64) -> (value: i64)
    requires
        min < max,
    ensures
        min <= value < max,
{
    thread_range(min, max)
}

/// The integer of `min..max` that `seed` stands for.
pub fn seeded_random_range(seed: u64, min: i64, max: i64) -> (value: i64)
    requires
        min < max,
    ensures
        min <= value < max,
        value == seeded_value(seed, min as int, max as int),
{
    chacha_range(seed, min, max)
}

/// A copy of the item of `vect` that `seed` stands for.
pub fn seeded_random_vec<T: Clone>(seed: u64, vect: &[T]) -> (item: T)
    requires
        vect@.len() > 0,
    ensures
        seeded_index(seed, vect@.len()) < vect@.len(),
        cloned(vect@[seeded_index(seed, vect@.len()) as int], item),
{
    let index: usize = chacha_index(seed, vect.len());
    item_at(vect, index)
}

} // verus!
