//! Run-time checks of what the engine's functions require, for callers that
//! hold a round of unknown origin.

use vstd::prelude::*;
use crate::blackjack::card::Card;
use crate::blackjack::hand::{low_sum, low_sum_fits, low_sum_within};
use crate::blackjack::round::{all_face_up, hands_len, lemma_low_sum_counts_cards, ROUND_SUPPLY};
use crate::blackjack::table::{
    stake_in_order, BlackjackState, GameState, PlayerAction, Table,
};

verus! {

/// Why a step of a round was refused.
#[derive(Debug, Clone, Copy, PartialEq, Eq, Structural)]
pub enum EngineError {
    /// The round is over: no step leads out of it.
    InvalidPhase,
    /// In the player's turn no action was given, or one that is not allowed.
    IllegalAction,
    /// The round is not well formed, or the step needs what is not there: a
    /// card from an empty shoe, or the double of a stake that does not fit.
    UnreachableState,
}

impl Table {
    /// Why a step is refused, if it is: an ill-formed round first, then a
    /// round that is over, then a missing or forbidden action, then an empty
    /// shoe or a stake too large to double.
    pub open spec fn step_error(self, action: Option<PlayerAction>) -> Option<EngineError> {
        if !self.wf() {
            Some(EngineError::UnreachableState)
        } else if self.state == GameState::GameOver {
            Some(EngineError::InvalidPhase)
        } else if self.state == GameState::PlayerTurn && !(action.is_some() && self.is_allowed(
            action.unwrap(),
        )) {
            Some(EngineError::IllegalAction)
        } else if self.draws(action) && self.shoe.len() == 0 {
            Some(EngineError::UnreachableState)
        } else if self.doubles(action) && 2 * self.bets[self.hand_index as int] > u64::MAX {
            Some(EngineError::UnreachableState)
        } else {
            None
        }
    }

    /// A step is refused exactly where the round is ill formed or the step
    /// is not defined.
    pub proof fn lemma_step_error(self, action: Option<PlayerAction>)
        ensures
            self.step_error(action).is_none() <==> self.wf() && self.can_step(action),
    {
    }
}

/// Whether every card of `cards` lies face up, the card at position
/// `hidden` left aside.
fn face_up_except(cards: &Vec<Card>, hidden: Option<usize>) -> (b: bool)
    ensures
        b == forall|k: int|
            0 <= k < cards.len() && Some(k as usize) != hidden ==> !(
            #[trigger] cards@[k]).face_down,
{
    let mut i: usize = 0;
    while i < cards.len()
        invariant
            i <= cards.len(),
            forall|k: int|
                0 <= k < i && Some(k as usize) != hidden ==> !(#[trigger] cards@[k]).face_down,
        decreases cards.len() - i,
    {
        let aside = match hidden {
            Some(position) => position == i,
            None => false,
        };
        if !aside && cards[i].face_down {
            return false;
        }
        i = i + 1;
    }
    true
}

impl BlackjackState {
    /// Whether no player hand is empty and the dealer holds two cards or
    /// more; see [`Table::seated`].
    fn is_seated(&self) -> (b: bool)
        ensures
            b == self@.seated(),
    {
        if self.dealer_hand.len() < 2 {
            return false;
        }
        let mut i: usize = 0;
        while i < self.player_hands.len()
            invariant
                i <= self.player_hands.len(),
                forall|k: int| 0 <= k < i ==> (#[trigger] self@.player_hands[k]).len() >= 1,
            decreases self.player_hands.len() - i,
        {
            assert(self@.player_hands[i as int] == self.player_hands@[i as int]@);
            if self.player_hands[i].len() == 0 {
                return false;
            }
            i = i + 1;
        }
        true
    }

    /// Whether the cards are in order; see [`Table::cards_ok`].
    fn cards_in_order(&self) -> (b: bool)
        ensures
            b == self@.cards_ok(),
    {
        let n = self.player_hands.len();
        if n < 1 || n > 4 || self.bets.len() != n || self.hand_index >= n {
            return false;
        }
        if !low_sum_fits(&self.dealer_hand) {
            return false;
        }
        if self.dealer_hand.len() > 2 && self.dealer_hand[1].face_down {
            return false;
        }
        let mut i: usize = 0;
        while i < n
            invariant
                i <= n,
                n == self.player_hands.len(),
                forall|k: int|
                    0 <= k < i ==> low_sum(#[trigger] self@.player_hands[k]) <= u8::MAX,
            decreases n - i,
        {
            assert(self@.player_hands[i as int] == self.player_hands@[i as int]@);
            if !low_sum_fits(&self.player_hands[i]) {
                return false;
            }
            i = i + 1;
        }
        true
    }

    /// Whether the stakes are as play leaves them; see [`Table::stakes_ok`].
    pub fn stakes_in_order(&self) -> (b: bool)
        requires
            self.bets.len() == self.player_hands.len(),
        ensures
            b == self@.stakes_ok(),
    {
        let single = self.starting_bet as u64;
        let mut i: usize = 0;
        while i < self.player_hands.len()
            invariant
                i <= self.player_hands.len(),
                self.bets.len() == self.player_hands.len(),
                single == self.starting_bet,
                forall|k: int|
                    0 <= k < i ==> stake_in_order(
                        self@.starting_bet,
                        self@.bets[k],
                        #[trigger] self@.player_hands[k],
                    ),
            decreases self.player_hands.len() - i,
        {
            let stake = self.bets[i];
            let in_order = stake == single || (stake == 2 * single && self.player_hands[i].len()
                >= 3);
            if !in_order {
                assert(!stake_in_order(
                    self@.starting_bet,
                    self@.bets[i as int],
                    self@.player_hands[i as int],
                ));
                return false;
            }
            i = i + 1;
        }
        true
    }

    /// Whether the round is well formed; see [`Table::wf`].
    pub fn is_well_formed(&self) -> (b: bool)
        ensures
            b == self@.wf(),
    {
        if !self.cards_in_order() {
            return false;
        }
        match self.state {
            GameState::Dealing => {
                let dealer = self.dealer_hand.len();
                let first = self.player_hands[0].len();
                let opening = self.player_hands.len() == 1 && dealer <= 1 && dealer <= first
                    && first <= dealer + 1;
                opening || (self.is_seated() && self.player_hands.len() >= 2
                    && self.player_hands[self.hand_index].len() == 1)
            },
            GameState::PlayerTurn => self.is_seated() && !self.player_hand_finished(),
            GameState::DealerTurn | GameState::GameOver => self.is_seated(),
        }
    }

    /// Whether the round is in honest play from a shoe that will last; see
    /// [`Table::sound_round`].
    pub fn is_sound_round(&self) -> (b: bool)
        ensures
            b == self@.sound_round(),
    {
        if !self.is_well_formed() || !self.stakes_in_order() {
            return false;
        }
        if !face_up_except(&self.shoe, None) || !face_up_except(&self.dealer_hand, Some(1))
            || !low_sum_within(&self.dealer_hand, 26) {
            return false;
        }
        let mut cards_out: usize = self.dealer_hand.len();
        let ghost hands = self@.player_hands;
        let mut i: usize = 0;
        proof {
            lemma_low_sum_counts_cards(self@.dealer_hand, 1);
        }
        while i < self.player_hands.len()
            invariant
                i <= self.player_hands.len() <= 4,
                hands == self@.player_hands,
                cards_out == self.dealer_hand.len() + hands_len(hands.take(i as int)),
                cards_out <= 27 + 31 * i,
                forall|k: int| 0 <= k < i ==> all_face_up(#[trigger] hands[k]),
                forall|k: int| 0 <= k < i ==> low_sum(#[trigger] hands[k]) <= 31,
            decreases self.player_hands.len() - i,
        {
            let hand = &self.player_hands[i];
            assert(hands[i as int] == hand@);
            if !face_up_except(hand, None) || !low_sum_within(hand, 31) {
                return false;
            }
            proof {
                assert(hands.take(i + 1).drop_last() =~= hands.take(i as int));
                lemma_low_sum_counts_cards(hand@, -1);
            }
            cards_out = cards_out + hand.len();
            i = i + 1;
        }
        proof {
            assert(hands.take(i as int) =~= hands);
        }
        if self.shoe.len() >= ROUND_SUPPLY {
            true
        } else {
            cards_out >= ROUND_SUPPLY - self.shoe.len()
        }
    }

    /// Whether `action` is allowed on the hand in play; see
    /// [`Table::is_allowed`].
    pub fn is_allowed(&self, action: PlayerAction) -> (b: bool)
        requires
            self@.wf(),
            self@.state == GameState::PlayerTurn,
        ensures
            b == self@.is_allowed(action),
    {
        let allowed = self.allowed_actions();
        let mut i: usize = 0;
        while i < allowed.len()
            invariant
                i <= allowed.len(),
                forall|k: int| 0 <= k < i ==> allowed@[k] != action,
                allowed@.contains(action) == self@.is_allowed(action),
            decreases allowed.len() - i,
        {
            if allowed[i] == action {
                return true;
            }
            i = i + 1;
        }
        false
    }

    /// Whether a step with `player_action` is defined on this well-formed
    /// round; see [`Table::can_step`].
    pub fn can_step(&self, player_action: Option<PlayerAction>) -> (b: bool)
        requires
            self@.wf(),
        ensures
            b == self@.can_step(player_action),
    {
        match self.state {
            GameState::Dealing => self.shoe.len() > 0,
            GameState::PlayerTurn => match player_action {
                None => false,
                Some(action) => {
                    let draws = action == PlayerAction::Hit || action == PlayerAction::DoubleDown;
                    let doubles = action == PlayerAction::DoubleDown;
                    self.is_allowed(action) && (!draws || self.shoe.len() > 0) && (!doubles
                        || self.bets[self.hand_index] <= u64::MAX / 2)
                },
            },
            GameState::DealerTurn => {
                let draws = !self.dealer_should_stand() && !self.dealer_hand[1].face_down;
                !draws || self.shoe.len() > 0
            },
            GameState::GameOver => false,
        }
    }

    /// Advances the round by one step where that is defined, and else
    /// leaves it as it is and says why: see [`Table::step_error`] and
    /// [`BlackjackState::next_state`].
    pub fn try_next_state(&mut self, player_action: Option<PlayerAction>) -> (result: Result<
        (),
        EngineError,
    >)
        ensures
            match result {
                Ok(()) => old(self)@.wf() && old(self)@.can_step(player_action) && final(self)@
                    == old(self)@.step(player_action) && final(self)@.wf(),
                Err(error) => old(self)@.step_error(player_action) == Some(error) && *final(self)
                    == *old(self),
            },
            result.is_ok() <==> old(self)@.step_error(player_action).is_none(),
    {
        if !self.is_well_formed() {
            return Err(EngineError::UnreachableState);
        }
        if self.can_step(player_action) {
            self.next_state(player_action);
            return Ok(());
        }
        match self.state {
            GameState::GameOver => Err(EngineError::InvalidPhase),
            GameState::PlayerTurn => {
                let allowed = match player_action {
                    None => false,
                    Some(action) => self.is_allowed(action),
                };
                if allowed {
                    Err(EngineError::UnreachableState)
                } else {
                    Err(EngineError::IllegalAction)
                }
            },
            _ => Err(EngineError::UnreachableState),
        }
    }
}

} // verus!
