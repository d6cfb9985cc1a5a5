//! The table: the state of one round, and the mathematical model that the
//! contracts of the engine are stated over.

use vstd::prelude::*;
use crate::blackjack::card::{Card, FaceValue};
use crate::blackjack::hand::{hand_value, is_bust, low_sum, HandValue};
use crate::blackjack::ruleset::BlackjackRuleset;

verus! {

/// The phase of a round.
#[derive(Debug, Clone, Copy, PartialEq, Eq, Structural)]
pub enum GameState {
    Dealing,
    PlayerTurn,
    DealerTurn,
    GameOver,
}

/// What the player may ask for on the active hand.
#[derive(Debug, Clone, Copy, PartialEq, Eq, Structural)]
pub enum PlayerAction {
    Hit,
    Stand,
    DoubleDown,
    Split,
    Surrender,
}

/// One round of Blackjack. Cards are dealt from the end of `shoe`; `bets`
/// runs parallel to `player_hands`; `hand_index` names the hand in play.
/// Stakes are whole units of the smallest coin.
#[derive(Debug)]
pub struct BlackjackState {
    pub starting_bet: u32,
    pub shoe: Vec<Card>,
    pub dealer_hand: Vec<Card>,
    pub player_hands: Vec<Vec<Card>>,
    pub hand_index: usize,
    pub bets: Vec<u64>,
    pub rules: BlackjackRuleset,
    pub state: GameState,
}

/// The mathematical content of a [`BlackjackState`].
#[verifier::ext_equal]
pub struct Table {
    pub starting_bet: nat,
    pub shoe: Seq<Card>,
    pub dealer_hand: Seq<Card>,
    pub player_hands: Seq<Seq<Card>>,
    pub hand_index: nat,
    pub bets: Seq<nat>,
    pub rules: BlackjackRuleset,
    pub state: GameState,
}

impl View for BlackjackState {
    type V = Table;

    open spec fn view(&self) -> Table {
        Table {
            starting_bet: self.starting_bet as nat,
            shoe: self.shoe@,
            dealer_hand: self.dealer_hand@,
            player_hands: Seq::new(self.player_hands@.len(), |i: int| self.player_hands@[i]@),
            hand_index: self.hand_index as nat,
            bets: Seq::new(self.bets@.len(), |i: int| self.bets@[i] as nat),
            rules: self.rules,
            state: self.state,
        }
    }
}

impl Clone for BlackjackState {
    fn clone(&self) -> (copy: Self)
        ensures
            copy@ == self@,
    {
        let shoe = self.shoe.clone();
        let dealer_hand = self.dealer_hand.clone();
        let bets = self.bets.clone();
        let mut player_hands: Vec<Vec<Card>> = Vec::with_capacity(4);
        let mut i: usize = 0;
        while i < self.player_hands.len()
            invariant
                i <= self.player_hands.len(),
                player_hands@.len() == i,
                forall|k: int| 0 <= k < i ==> player_hands@[k]@ == self.player_hands@[k]@,
            decreases self.player_hands.len() - i,
        {
            let hand = self.player_hands[i].clone();
            player_hands.push(hand);
            i = i + 1;
        }
        BlackjackState {
            starting_bet: self.starting_bet,
            shoe,
            dealer_hand,
            player_hands,
            hand_index: self.hand_index,
            bets,
            rules: self.rules,
            state: self.state,
        }
    }
}

/// The hands come from splitting aces: there are two or more and each of
/// them opens with an ace.
pub open spec fn opened_with_aces(hands: Seq<Seq<Card>>) -> bool {
    &&& hands.len() >= 2
    &&& forall|i: int|
        0 <= i < hands.len() ==> {
            let hand = #[trigger] hands[i];
            hand.len() > 0 && hand[0].face_value == FaceValue::Ace
        }
}

/// No hand is empty.
pub open spec fn all_dealt(hands: Seq<Seq<Card>>) -> bool {
    forall|i: int| 0 <= i < hands.len() ==> (#[trigger] hands[i]).len() >= 1
}

/// The low sum of every hand fits the byte that carries a total.
pub open spec fn all_fit(hands: Seq<Seq<Card>>) -> bool {
    forall|i: int| 0 <= i < hands.len() ==> low_sum(#[trigger] hands[i]) <= u8::MAX
}

/// Every hand is bust.
pub open spec fn all_hands_bust(hands: Seq<Seq<Card>>) -> bool {
    forall|i: int| 0 <= i < hands.len() ==> is_bust(#[trigger] hands[i])
}

/// A stake is in order for its hand: it is the starting bet, or twice that
/// on a hand that has been doubled down and so holds three cards or more.
pub open spec fn stake_in_order(starting_bet: nat, stake: nat, hand: Seq<Card>) -> bool {
    stake == starting_bet || (stake == 2 * starting_bet && hand.len() >= 3)
}

/// Every stake is in order for its hand.
pub open spec fn stakes_in_order(starting_bet: nat, bets: Seq<nat>, hands: Seq<Seq<Card>>) -> bool {
    forall|i: int|
        0 <= i < hands.len() ==> stake_in_order(starting_bet, bets[i], #[trigger] hands[i])
}

impl Table {
    /// The hand in play.
    pub open spec fn active_hand(self) -> Seq<Card> {
        self.player_hands[self.hand_index as int]
    }

    /// The hands come from splitting aces; see [`opened_with_aces`].
    pub open spec fn split_aces(self) -> bool {
        opened_with_aces(self.player_hands)
    }

    /// The value of player hand `i` as the round counts it.
    pub open spec fn player_value(self, i: int) -> HandValue {
        hand_value(self.player_hands[i], self.rules, self.split_aces())
    }

    /// The value of the dealer's visible cards.
    pub open spec fn dealer_value(self) -> HandValue {
        hand_value(self.dealer_hand, self.rules, false)
    }

    /// Every player hand is bust.
    pub open spec fn all_bust(self) -> bool {
        all_hands_bust(self.player_hands)
    }

    /// Every player hand is a natural.
    pub open spec fn all_blackjack(self) -> bool {
        forall|i: int|
            0 <= i < self.player_hands.len() ==> hand_value(
                #[trigger] self.player_hands[i],
                self.rules,
                self.split_aces(),
            ) == HandValue::Blackjack
    }

    /// The opening deal is under way: one player hand, and the cards have
    /// gone out alternately, the player first.
    pub open spec fn opening(self) -> bool {
        &&& self.player_hands.len() == 1
        &&& self.dealer_hand.len() <= 1
        &&& self.dealer_hand.len() <= self.player_hands[0].len() <= self.dealer_hand.len() + 1
    }

    /// The opening deal is complete: the dealer holds an upcard and a hole
    /// card, and no player hand is empty.
    pub open spec fn seated(self) -> bool {
        self.dealer_hand.len() >= 2 && all_dealt(self.player_hands)
    }

    /// After a split, the hand in play holds one card and waits for its
    /// second.
    pub open spec fn awaiting_card(self) -> bool {
        &&& self.seated()
        &&& self.player_hands.len() >= 2
        &&& self.active_hand().len() == 1
    }

    /// The hand in play is finished: it is bust, it counts 21, it is a
    /// natural, or it comes from split aces that may neither be hit nor
    /// split again.
    pub open spec fn player_hand_finished(self) -> bool {
        let hand = self.active_hand();
        let value = self.player_value(self.hand_index as int);
        ||| is_bust(hand)
        ||| self.split_ace_finished()
        ||| value == HandValue::Hard(21)
        ||| value == HandValue::Soft(21)
        ||| value == HandValue::Blackjack
    }

    /// The hand in play is exactly two aces.
    pub open spec fn pair_of_aces(self) -> bool {
        let hand = self.active_hand();
        &&& hand.len() == 2
        &&& hand[0].face_value == FaceValue::Ace
        &&& hand[1].face_value == FaceValue::Ace
    }

    /// The hand in play is two cards of one rank.
    pub open spec fn is_pair(self) -> bool {
        let hand = self.active_hand();
        hand.len() == 2 && hand[0].face_value == hand[1].face_value
    }

    /// The number of ace hands that earlier splits of aces have made.
    pub open spec fn ace_hands(self) -> nat {
        if self.split_aces() {
            self.player_hands.len()
        } else {
            0
        }
    }

    /// Split is open on a pair while the number of hands is below the
    /// house's cap and, for a pair of aces, while the number of ace hands is
    /// below the limit on splitting aces.
    pub open spec fn can_split(self) -> bool {
        &&& self.is_pair()
        &&& self.player_hands.len() < self.rules.max_hands_after_split.cap()
        &&& (self.active_hand()[0].face_value == FaceValue::Ace ==> self.ace_hands()
            < self.rules.split_aces.limit())
    }

    /// The hand in play comes from split aces that take no further card, and
    /// it cannot be split again: it is closed.
    pub open spec fn split_ace_finished(self) -> bool {
        &&& self.split_aces()
        &&& !self.rules.hit_on_split_ace
        &&& !self.can_split()
    }

    /// The stakes are as play leaves them: the starting bet fits 32 bits
    /// and every stake is in order for its hand; see [`stake_in_order`]. No
    /// function of the engine asks this of a round, and every step keeps it.
    pub open spec fn stakes_ok(self) -> bool {
        &&& self.starting_bet <= u32::MAX
        &&& stakes_in_order(self.starting_bet, self.bets, self.player_hands)
    }

    /// The cards are in order: one to four hands, a stake for each, a hand
    /// in play, totals that fit the byte that carries them, and a hole card
    /// that is face up once the dealer has drawn.
    pub open spec fn cards_ok(self) -> bool {
        &&& 1 <= self.player_hands.len() <= 4
        &&& self.bets.len() == self.player_hands.len()
        &&& self.hand_index < self.player_hands.len()
        &&& all_fit(self.player_hands)
        &&& low_sum(self.dealer_hand) <= u8::MAX
        &&& (self.dealer_hand.len() > 2 ==> !self.dealer_hand[1].face_down)
    }

    /// The well-formedness of a round: its cards are in order, and they are
    /// where its phase has them. While dealing, the opening deal is under
    /// way or a split hand waits for its card; in the player's turn the hand
    /// in play is not finished. Every step of the engine keeps it.
    pub open spec fn wf(self) -> bool {
        &&& self.cards_ok()
        &&& match self.state {
            GameState::Dealing => self.opening() || self.awaiting_card(),
            GameState::PlayerTurn => self.seated() && !self.player_hand_finished(),
            GameState::DealerTurn | GameState::GameOver => self.seated(),
        }
    }
}

} // verus!
