//! Chance.

use rand::seq::IndexedRandom;
use rand::Rng;
use vstd::prelude::*;

verus! {

/// `IndexedRandom::choose` picks one of the items, if there are any. Which one
/// is left to chance.
#[verifier::external_body]
pub(crate) fn random_word(words: &[String]) -> (r: Option<&String>)
    ensures
        r is None <==> words@.len() == 0,
        r matches Some(w) ==> words@.contains(*w),
{
    words.choose(&mut rand::rng())
}

/// `Rng::random` draws a number. Which one is left to chance, so nothing is
/// claimed of it.
#[verifier::external_body]
pub(crate) fn random_id() -> u128 {
    rand::rng().random()
}

/// `Rng::fill` draws thirty-two bytes. Which ones is left to chance, so nothing
/// is claimed of them.
#[verifier::external_body]
pub(crate) fn random_bytes() -> [u8; 32] {
    let mut data = [0u8; 32];
    rand::rng().fill(&mut data);
    data
}

} // verus!
