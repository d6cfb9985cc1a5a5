//! A Monte Carlo count of where the dealer ends up from a given upcard.
//!
//! This simulation stands apart from the round engine: cards are plain
//! values from 1 (the ace) to 10, drawn with replacement.

use vstd::prelude::*;
use std::collections::HashMap;
use crate::random::fill_random;

verus! {

/// The values of the thirteen ranks, the ace first.
pub const DECK: [u8; 13] = [1, 2, 3, 4, 5, 6, 7, 8, 9, 10, 10, 10, 10];

/// The number of random bytes fetched at a time.
pub const RNG_ARRAY_SIZE: usize = 1000;

/// The total of a hand whose cards sum to `hand` with aces counted 1: ten
/// more where it holds an ace and that does not exceed 21.
pub open spec fn soft_total(hand: int, has_ace: bool) -> int {
    if has_ace && hand + 10 <= 21 {
        hand + 10
    } else {
        hand
    }
}

/// The card that a random byte draws.
pub open spec fn card_for(byte: u8) -> u8 {
    DECK[byte as int % 13]
}

/// A total on which the simulated dealer can come to stand from `upcard`:
/// one of at least 17 and at most 26, and more than the upcard. A hand that
/// draws again stood below 17 and gains at most 10; the first draw gives at
/// most 21 with an ace counted 11. Only an upcard above 16 can end higher,
/// with its one draw, on at most 10 more than itself.
pub open spec fn is_stand_total(upcard: u8, total: u8) -> bool {
    17 <= total && upcard < total && (total <= 26 || total <= upcard + 10)
}

/// A bound on the draws that a hand below 17 still takes: each draw adds at
/// least 1 to the sum, and a hand that has not drawn yet draws once before
/// its total counts.
pub open spec fn draws_left(hand: u8, total: u8) -> nat {
    if total == 0 {
        18
    } else if hand <= 17 {
        (17 - hand) as nat
    } else {
        0
    }
}

/// The sum of the counts under the keys below `n`.
pub open spec fn count_below(histogram: Map<u8, u32>, n: nat) -> nat
    decreases n,
{
    if n == 0 {
        0
    } else {
        let key = (n - 1) as u8;
        count_below(histogram, (n - 1) as nat) + if histogram.contains_key(key) {
            histogram[key] as nat
        } else {
            0
        }
    }
}

/// The sum of all counts of a histogram.
pub open spec fn total_count(histogram: Map<u8, u32>) -> nat {
    count_below(histogram, 256)
}

/// A histogram without entries counts nothing.
proof fn lemma_count_empty(n: nat)
    ensures
        count_below(Map::<u8, u32>::empty(), n) == 0,
    decreases n,
{
    if n > 0 {
        lemma_count_empty((n - 1) as nat);
    }
}

/// Setting the count under `key` changes the sum by the change of that
/// count, for the keys below `n` where `key` is among them.
proof fn lemma_count_insert(histogram: Map<u8, u32>, key: u8, count: u32, n: nat)
    requires
        n <= 256,
    ensures
        count_below(histogram.insert(key, count), n) == count_below(histogram, n) + if key < n {
            count - if histogram.contains_key(key) {
                histogram[key] as int
            } else {
                0
            }
        } else {
            0
        },
        histogram.contains_key(key) && key < n ==> histogram[key] <= count_below(histogram, n),
    decreases n,
{
    if n > 0 {
        lemma_count_insert(histogram, key, count, (n - 1) as nat);
    }
}

/// The total of a dealer hand; see [`soft_total`].
pub fn hand_value(hand: u8, has_ace: bool) -> (total: u8)
    ensures
        total == soft_total(hand as int, has_ace),
{
    if has_ace && hand <= 11 {
        hand + 10
    } else {
        hand
    }
}

/// One draw: the card that `random_byte` stands for joins the hand. Returns
/// the new sum with aces counted 1, whether the hand now holds an ace, and
/// the new total.
pub fn draw_card(hand: u8, has_ace: bool, random_byte: u8) -> (drawn: (u8, bool, u8))
    requires
        hand + 10 <= u8::MAX,
    ensures
        drawn.0 == hand + card_for(random_byte),
        drawn.1 == (has_ace || card_for(random_byte) == 1),
        drawn.2 == soft_total(drawn.0 as int, drawn.1),
        1 <= card_for(random_byte) <= 10,
{
    let random_card = DECK[(random_byte % 13) as usize];
    let has_ace = has_ace || random_card == 1;
    let hand = hand + random_card;
    (hand, has_ace, hand_value(hand, has_ace))
}

/// Plays `iterations` dealer hands from `upcard` (1 for an ace, up to 10)
/// and counts the totals on which the dealer comes to stand. Each hand draws
/// at least once and then until its total is 17 or more. Whatever cards are
/// drawn, every total listed is a standing total (from 17 to 26 for an
/// upcard of a card's value) and was reached at least once, the counts add
/// up to `iterations`, and no hands give an empty histogram. The upcard must
/// leave room in a byte for one more card.
pub fn simulate_dealer_stand_outcome(upcard: u8, iterations: u32) -> (results: HashMap<u8, u32>)
    requires
        upcard + 10 <= u8::MAX,
    ensures
        forall|total: u8| #[trigger]
            results@.contains_key(total) ==> is_stand_total(upcard, total) && results@[total] >= 1,
        total_count(results@) == iterations,
        iterations == 0 ==> results@ == Map::<u8, u32>::empty(),
{
    let mut rng_array: [u8; 1000] = [0u8; 1000];
    let mut rng = rand::thread_rng();

    let mut results: HashMap<u8, u32> = HashMap::new();
    proof {
        lemma_count_empty(256);
    }
    let mut index: usize = 0;
    let mut done: u32 = 0;
    while done < iterations
        invariant
            done <= iterations,
            index < RNG_ARRAY_SIZE,
            upcard + 10 <= u8::MAX,
            forall|total: u8| #[trigger]
                results@.contains_key(total) ==> is_stand_total(upcard, total) && results@[total]
                    >= 1,
            total_count(results@) == done,
            done == 0 ==> results@ == Map::<u8, u32>::empty(),
        decreases iterations - done,
    {
        let mut dealer_hand = upcard;
        let mut has_ace = upcard == 1;
        let mut dealer_hand_value: u8 = 0;
        while dealer_hand_value < 17
            invariant
                index < RNG_ARRAY_SIZE,
                upcard + 10 <= u8::MAX,
                dealer_hand_value == 0 ==> dealer_hand == upcard,
                dealer_hand_value != 0 ==> dealer_hand_value == soft_total(
                    dealer_hand as int,
                    has_ace,
                ) && dealer_hand > upcard,
                dealer_hand_value >= 17 ==> is_stand_total(upcard, dealer_hand_value),
            decreases draws_left(dealer_hand, dealer_hand_value),
        {
            if index == 0 {
                fill_random(&mut rng, &mut rng_array);
            }
            let random_byte = rng_array[index];
            index = if index + 1 == RNG_ARRAY_SIZE {
                0
            } else {
                index + 1
            };
            let (hand, ace, total) = draw_card(dealer_hand, has_ace, random_byte);
            dealer_hand = hand;
            has_ace = ace;
            dealer_hand_value = total;
        }
        let count: u32 = match results.get(&dealer_hand_value) {
            Some(count) => *count,
            None => 0,
        };
        proof {
            lemma_count_insert(results@, dealer_hand_value, count, 256);
        }
        let count = count + 1;
        proof {
            lemma_count_insert(results@, dealer_hand_value, count, 256);
        }
        results.insert(dealer_hand_value, count);
        done = done + 1;
    }
    results
}

} // verus!
