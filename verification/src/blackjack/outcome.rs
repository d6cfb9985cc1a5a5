//! Settlement: how each hand fared once the round is over.

use vstd::prelude::*;
use crate::blackjack::hand::HandValue;
use crate::blackjack::table::{BlackjackState, GameState, Table};

verus! {

/// Why a hand won.
#[derive(Debug, Clone, Copy, PartialEq, Eq, Structural)]
pub enum WinReason {
    DealerBust,
    HigherHand,
    Blackjack,
}

/// Why a hand lost.
#[derive(Debug, Clone, Copy, PartialEq, Eq, Structural)]
pub enum LossReason {
    Bust,
    LowerHand,
    DealerBlackjack,
}

/// How one hand fared.
#[derive(Debug, Clone, Copy, PartialEq, Eq, Structural)]
pub enum HandOutcome {
    Won(WinReason),
    Lost(LossReason),
    Push,
    Surrendered,
}

/// How a hand of value `player` fares against a dealer hand of value
/// `dealer`. Two naturals tie; one natural wins. Else a player total above
/// 21 loses, then a dealer total above 21 loses, and else the higher total
/// wins and equal totals tie.
pub open spec fn settle(player: HandValue, dealer: HandValue) -> HandOutcome {
    if player == HandValue::Blackjack && dealer == HandValue::Blackjack {
        HandOutcome::Push
    } else if player == HandValue::Blackjack {
        HandOutcome::Won(WinReason::Blackjack)
    } else if dealer == HandValue::Blackjack {
        HandOutcome::Lost(LossReason::DealerBlackjack)
    } else if player.total() > 21 {
        HandOutcome::Lost(LossReason::Bust)
    } else if dealer.total() > 21 {
        HandOutcome::Won(WinReason::DealerBust)
    } else if player.total() > dealer.total() {
        HandOutcome::Won(WinReason::HigherHand)
    } else if player.total() < dealer.total() {
        HandOutcome::Lost(LossReason::LowerHand)
    } else {
        HandOutcome::Push
    }
}

impl Table {
    /// The round ended by surrender: a single two-card hand, and the
    /// dealer's hole card was never turned.
    pub open spec fn surrendered(self) -> bool {
        &&& self.player_hands.len() == 1
        &&& self.player_hands[0].len() == 2
        &&& self.dealer_hand[1].face_down
    }

    /// The outcome of every hand, in the order of the hands: the single
    /// outcome `Surrendered` after a surrender, and else each hand settled
    /// against the dealer's visible cards.
    pub open spec fn outcomes(self) -> Seq<HandOutcome> {
        if self.surrendered() {
            seq![HandOutcome::Surrendered]
        } else {
            Seq::new(
                self.player_hands.len(),
                |i: int| settle(self.player_value(i), self.dealer_value()),
            )
        }
    }
}

/// How a hand of value `player` fares against a dealer hand of value
/// `dealer`; see [`settle`].
pub fn hand_outcome(player: HandValue, dealer: HandValue) -> (outcome: HandOutcome)
    ensures
        outcome == settle(player, dealer),
{
    match (player, dealer) {
        (HandValue::Blackjack, HandValue::Blackjack) => HandOutcome::Push,
        (HandValue::Blackjack, _) => HandOutcome::Won(WinReason::Blackjack),
        (_, HandValue::Blackjack) => HandOutcome::Lost(LossReason::DealerBlackjack),
        (HandValue::Hard(p) | HandValue::Soft(p), HandValue::Hard(d) | HandValue::Soft(d)) => {
            if p > 21 {
                HandOutcome::Lost(LossReason::Bust)
            } else if d > 21 {
                HandOutcome::Won(WinReason::DealerBust)
            } else if p > d {
                HandOutcome::Won(WinReason::HigherHand)
            } else if p < d {
                HandOutcome::Lost(LossReason::LowerHand)
            } else {
                HandOutcome::Push
            }
        },
    }
}

impl BlackjackState {
    /// The outcome of every player hand of a round that is over; see
    /// [`Table::outcomes`].
    pub fn player_hand_outcomes(&self) -> (outcomes: Vec<HandOutcome>)
        requires
            self@.wf(),
            self@.state == GameState::GameOver,
        ensures
            outcomes@ == self@.outcomes(),
    {
        if self.player_hands.len() == 1 && self.player_hands[0].len() == 2
            && self.dealer_hand[1].face_down {
            let mut outcomes: Vec<HandOutcome> = Vec::new();
            outcomes.push(HandOutcome::Surrendered);
            return outcomes;
        }
        let split_aces = self.player_split_aces();
        let dealer = self.dealer_hand_value(&self.dealer_hand);
        let mut outcomes: Vec<HandOutcome> = Vec::with_capacity(self.player_hands.len());
        let mut i: usize = 0;
        while i < self.player_hands.len()
            invariant
                i <= self.player_hands.len(),
                self@.cards_ok(),
                split_aces == self@.split_aces(),
                dealer == self@.dealer_value(),
                outcomes@.len() == i,
                forall|k: int|
                    0 <= k < i ==> outcomes@[k] == settle(
                        #[trigger] self@.player_value(k),
                        self@.dealer_value(),
                    ),
            decreases self.player_hands.len() - i,
        {
            assert(self@.player_hands[i as int] == self.player_hands@[i as int]@);
            let player = self.player_hand_value(&self.player_hands[i], split_aces);
            outcomes.push(hand_outcome(player, dealer));
            i = i + 1;
        }
        outcomes
    }
}

} // verus!
