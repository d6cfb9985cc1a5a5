//! The shoe: eight decks, shuffled, and the fresh round that is dealt from
//! it.

use vstd::prelude::*;
use crate::blackjack::card::{Card, FaceValue, Suit};
use crate::blackjack::round::{all_face_up, lemma_hands_len_push, ROUND_SUPPLY};
use crate::blackjack::ruleset::BlackjackRuleset;
use crate::blackjack::table::{BlackjackState, GameState, Table};
use crate::random::shuffle_cards;

verus! {

/// The number of decks in a shoe.
pub const NUM_DECKS: usize = 8;

/// The number of cards in a deck.
pub const DECK_SIZE: usize = 52;

/// The suit of the `i`-th run of thirteen cards in a new deck.
pub open spec fn suit_at(i: int) -> Suit {
    if i == 0 {
        Suit::Hearts
    } else if i == 1 {
        Suit::Diamonds
    } else if i == 2 {
        Suit::Clubs
    } else {
        Suit::Spades
    }
}

/// The `i`-th rank of a suit in a new deck, from the two up to the ace.
pub open spec fn rank_at(i: int) -> FaceValue {
    if i == 0 {
        FaceValue::Two
    } else if i == 1 {
        FaceValue::Three
    } else if i == 2 {
        FaceValue::Four
    } else if i == 3 {
        FaceValue::Five
    } else if i == 4 {
        FaceValue::Six
    } else if i == 5 {
        FaceValue::Seven
    } else if i == 6 {
        FaceValue::Eight
    } else if i == 7 {
        FaceValue::Nine
    } else if i == 8 {
        FaceValue::Ten
    } else if i == 9 {
        FaceValue::Jack
    } else if i == 10 {
        FaceValue::Queen
    } else if i == 11 {
        FaceValue::King
    } else {
        FaceValue::Ace
    }
}

/// A new deck: hearts, diamonds, clubs, spades, each from the two up to the
/// ace, every card face up.
pub open spec fn new_deck() -> Seq<Card> {
    Seq::new(
        52,
        |i: int| Card { suit: suit_at(i / 13), face_value: rank_at(i % 13), face_down: false },
    )
}

/// Eight new decks, one after the other.
pub open spec fn new_shoe() -> Seq<Card> {
    Seq::new(416, |i: int| new_deck()[i % 52])
}

/// The `i`-th card of a new deck.
fn deck_card(i: usize) -> (card: Card)
    requires
        i < DECK_SIZE,
    ensures
        card == new_deck()[i as int],
{
    let suit = match i / 13 {
        0 => Suit::Hearts,
        1 => Suit::Diamonds,
        2 => Suit::Clubs,
        _ => Suit::Spades,
    };
    let face_value = match i % 13 {
        0 => FaceValue::Two,
        1 => FaceValue::Three,
        2 => FaceValue::Four,
        3 => FaceValue::Five,
        4 => FaceValue::Six,
        5 => FaceValue::Seven,
        6 => FaceValue::Eight,
        7 => FaceValue::Nine,
        8 => FaceValue::Ten,
        9 => FaceValue::Jack,
        10 => FaceValue::Queen,
        11 => FaceValue::King,
        _ => FaceValue::Ace,
    };
    Card { suit, face_value, face_down: false }
}

/// A new deck in its factory order; see [`new_deck`].
pub fn unshuffled_deck() -> (deck: Vec<Card>)
    ensures
        deck@ == new_deck(),
{
    let mut deck: Vec<Card> = Vec::with_capacity(DECK_SIZE);
    let mut i: usize = 0;
    while i < DECK_SIZE
        invariant
            i <= DECK_SIZE,
            deck@.len() == i,
            forall|k: int| 0 <= k < i ==> deck@[k] == new_deck()[k],
        decreases DECK_SIZE - i,
    {
        deck.push(deck_card(i));
        i = i + 1;
    }
    deck
}

/// Eight new decks, one after the other; see [`new_shoe`].
pub fn unshuffled_shoe() -> (shoe: Vec<Card>)
    ensures
        shoe@ == new_shoe(),
{
    let deck = unshuffled_deck();
    let mut shoe: Vec<Card> = Vec::with_capacity(DECK_SIZE * NUM_DECKS);
    let mut n: usize = 0;
    while n < NUM_DECKS
        invariant
            n <= NUM_DECKS,
            deck@ == new_deck(),
            shoe@.len() == n * 52,
            forall|k: int| 0 <= k < shoe@.len() ==> shoe@[k] == new_deck()[k % 52],
        decreases NUM_DECKS - n,
    {
        let mut i: usize = 0;
        while i < DECK_SIZE
            invariant
                i <= DECK_SIZE,
                n < NUM_DECKS,
                deck@ == new_deck(),
                shoe@.len() == n * 52 + i,
                forall|k: int| 0 <= k < shoe@.len() ==> shoe@[k] == new_deck()[k % 52],
            decreases DECK_SIZE - i,
        {
            shoe.push(deck[i]);
            i = i + 1;
        }
        n = n + 1;
    }
    shoe
}

/// A round that is about to be dealt from `shoe`: one empty player hand
/// with a stake of `starting_bet`, no dealer card, and the given rules. The
/// first card dealt is the last card of `shoe`.
pub fn init_state_with_shoe(starting_bet: u32, rules: BlackjackRuleset, shoe: Vec<Card>) -> (game:
    BlackjackState)
    ensures
        game@ == (Table {
            starting_bet: starting_bet as nat,
            shoe: shoe@,
            dealer_hand: Seq::empty(),
            player_hands: seq![Seq::empty()],
            hand_index: 0,
            bets: seq![starting_bet as nat],
            rules,
            state: GameState::Dealing,
        }),
        game@.wf(),
        all_face_up(shoe@) && shoe@.len() >= ROUND_SUPPLY ==> game@.sound_round(),
{
    let mut player_hands: Vec<Vec<Card>> = Vec::with_capacity(4);
    player_hands.push(Vec::with_capacity(8));
    let mut bets: Vec<u64> = Vec::new();
    bets.push(starting_bet as u64);
    let game = BlackjackState {
        starting_bet,
        shoe,
        dealer_hand: Vec::with_capacity(8),
        player_hands,
        hand_index: 0,
        bets,
        rules,
        state: GameState::Dealing,
    };
    proof {
        lemma_hands_len_push(Seq::empty(), Seq::<Card>::empty());
    }
    game
}

/// A fresh round: as [`init_state_with_shoe`], dealt from eight new decks in
/// a random order. The shoe holds the 416 cards of eight decks, each as
/// often as eight decks hold it; nothing is said of their order.
pub fn init_state(starting_bet: u32, rules: BlackjackRuleset) -> (game: BlackjackState)
    ensures
        game@.shoe.len() == 416,
        game@.shoe.to_multiset() == new_shoe().to_multiset(),
        game@ == (Table {
            starting_bet: starting_bet as nat,
            shoe: game@.shoe,
            dealer_hand: Seq::empty(),
            player_hands: seq![Seq::empty()],
            hand_index: 0,
            bets: seq![starting_bet as nat],
            rules,
            state: GameState::Dealing,
        }),
        game@.wf(),
        game@.sound_round(),
{
    let mut shoe = unshuffled_shoe();
    let mut rng = rand::thread_rng();
    shuffle_cards(&mut shoe, &mut rng);
    proof {
        assert forall|k: int| 0 <= k < shoe@.len() implies !(#[trigger] shoe@[k]).face_down by {
            shoe@.to_multiset_ensures();
            new_shoe().to_multiset_ensures();
            assert(new_shoe().to_multiset().count(shoe@[k]) > 0);
        }
    }
    init_state_with_shoe(starting_bet, rules, shoe)
}

} // verus!
