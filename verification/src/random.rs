//! The trusted boundary to the `rand` crate. What stands here is believed,
//! not proved: each contract says no more than the source of `rand` shows.
//! The generator is seeded by the operating system, and `rand` ends the
//! program where the system gives it no random bytes; no contract here can
//! rule that out.

use vstd::prelude::*;
use rand::rngs::ThreadRng;
use rand::seq::SliceRandom;
use rand::Rng;
use crate::blackjack::card::Card;

verus! {

/// `rand::rngs::ThreadRng`, the handle to a thread's generator. The verifier
/// sees nothing inside it.
#[verifier::external_type_specification]
#[verifier::external_body]
pub struct ExThreadRng(rand::rngs::ThreadRng);

/// `rand::thread_rng` hands out the calling thread's random number
/// generator. Nothing is claimed of it.
pub assume_specification[ rand::thread_rng ]() -> (rng: ThreadRng);

/// `SliceRandom::shuffle` of `rand`, on the cards of a shoe. It only swaps
/// cards: afterwards the shoe holds the same cards, each as often as before,
/// in an order that nothing is claimed of.
#[verifier::external_body]
pub(crate) fn shuffle_cards(cards: &mut Vec<Card>, rng: &mut ThreadRng)
    ensures
        final(cards)@.len() == old(cards)@.len(),
        final(cards)@.to_multiset() == old(cards)@.to_multiset(),
{
    cards.shuffle(rng);
}

/// `Rng::fill` of `rand`, on a buffer of bytes: it overwrites the buffer
/// with random bytes. Nothing is claimed of them.
#[verifier::external_body]
pub(crate) fn fill_random(rng: &mut ThreadRng, buffer: &mut [u8; 1000]) {
    rng.fill(&mut buffer[..]);
}

} // verus!
