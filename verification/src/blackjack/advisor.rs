//! The basic-strategy advisor: the action that the strategy tables give for
//! the hand in play, made to fit what is allowed.

use vstd::prelude::*;
use crate::blackjack::card::FaceValue;
use crate::blackjack::hand::{hand_value, HandValue};
use crate::blackjack::table::{BlackjackState, GameState, PlayerAction, Table};
use crate::constants::basic_strategy_tables::{Strategy, HARD, SOFT, SPLIT};

verus! {

impl FaceValue {
    /// The place of the rank along a strategy grid: 0 for the two up to 7
    /// for the nine, 8 for ten and court cards, 9 for the ace.
    pub open spec fn grid_index(self) -> int {
        if self == FaceValue::Ace {
            9
        } else {
            self.points() - 2
        }
    }

    /// The place of the rank along a strategy grid; see
    /// [`FaceValue::grid_index`].
    pub fn grid_position(&self) -> (index: usize)
        ensures
            index == self.grid_index(),
            index < 10,
    {
        match self {
            FaceValue::Two => 0,
            FaceValue::Three => 1,
            FaceValue::Four => 2,
            FaceValue::Five => 3,
            FaceValue::Six => 4,
            FaceValue::Seven => 5,
            FaceValue::Eight => 6,
            FaceValue::Nine => 7,
            FaceValue::Ten | FaceValue::Jack | FaceValue::Queen | FaceValue::King => 8,
            FaceValue::Ace => 9,
        }
    }
}

/// The row of the hard grid for a hard total: the first row up to 8, the
/// last row from 20 on.
pub open spec fn hard_row(total: int) -> int {
    if total <= 8 {
        0
    } else if total >= 20 {
        12
    } else {
        total - 8
    }
}

/// The row of the soft grid for a soft total: the first row up to 12, the
/// last row from 20 on.
pub open spec fn soft_row(total: int) -> int {
    if total <= 12 {
        0
    } else if total >= 20 {
        8
    } else {
        total - 12
    }
}

impl Table {
    /// The cell that basic strategy gives for the hand in play against the
    /// dealer's upcard: from the pair grid where a split is allowed, and
    /// else from the hard or the soft grid by the value of the hand.
    pub open spec fn advice(self) -> Strategy {
        let column = self.dealer_hand[0].face_value.grid_index();
        if self.can_split() {
            SPLIT[self.active_hand()[0].face_value.grid_index()][column]
        } else {
            match hand_value(self.active_hand(), self.rules, false) {
                HandValue::Hard(n) => HARD[hard_row(n as int)][column],
                HandValue::Soft(n) => SOFT[soft_row(n as int)][column],
                HandValue::Blackjack => Strategy::S,
            }
        }
    }

    /// The action that a cell stands for on this table: each cell names its
    /// first choice and what to do where that is not allowed.
    pub open spec fn resolve(self, cell: Strategy) -> PlayerAction {
        match cell {
            Strategy::H => if self.can_hit() {
                PlayerAction::Hit
            } else {
                PlayerAction::Stand
            },
            Strategy::S => PlayerAction::Stand,
            Strategy::D => if self.can_double_down() {
                PlayerAction::DoubleDown
            } else {
                PlayerAction::Hit
            },
            Strategy::P => PlayerAction::Split,
            Strategy::DS => if self.can_double_down() {
                PlayerAction::DoubleDown
            } else {
                PlayerAction::Stand
            },
            Strategy::PH => if self.rules.double_after_split {
                PlayerAction::Split
            } else {
                PlayerAction::Hit
            },
            Strategy::RH => if self.can_surrender() {
                PlayerAction::Surrender
            } else {
                PlayerAction::Hit
            },
        }
    }

    /// The action that basic strategy recommends on the hand in play.
    pub open spec fn optimal_action(self) -> PlayerAction {
        self.resolve(self.advice())
    }

    /// In the player's turn of a well-formed round the recommended action is
    /// always one of the allowed actions.
    pub proof fn lemma_optimal_action_allowed(self)
        requires
            self.wf(),
            self.state == GameState::PlayerTurn,
        ensures
            self.is_allowed(self.optimal_action()),
            self.allowed_actions().contains(self.optimal_action()),
    {
        if !self.can_hit() {
            // Split aces that take no card are in play only while they can
            // be split again, and the grid has a pair of aces split.
            assert(self.can_split());
            assert(self.active_hand()[0].face_value == FaceValue::Ace);
        }
        self.lemma_allowed_actions();
        assert(self.allowed_actions().contains(self.optimal_action()) <==> self.is_allowed(
            self.optimal_action(),
        ));
    }
}

/// Whether `action` is in the list.
fn is_listed(actions: &Vec<PlayerAction>, action: PlayerAction) -> (b: bool)
    ensures
        b == actions@.contains(action),
{
    let mut i: usize = 0;
    while i < actions.len()
        invariant
            i <= actions.len(),
            forall|k: int| 0 <= k < i ==> actions@[k] != action,
        decreases actions.len() - i,
    {
        if actions[i] == action {
            return true;
        }
        i = i + 1;
    }
    false
}

impl BlackjackState {
    /// The action that basic strategy recommends on the hand in play. It is
    /// always one of the allowed actions. The round must be in the player's
    /// turn.
    pub fn get_optimal_move(&self) -> (action: PlayerAction)
        requires
            self@.wf(),
            self@.state == GameState::PlayerTurn,
        ensures
            action == self@.optimal_action(),
            self@.is_allowed(action),
            self@.allowed_actions().contains(action),
    {
        let allowed_actions = self.allowed_actions();
        let column = self.dealer_hand[0].face_value.grid_position();
        let player_hand = &self.player_hands[self.hand_index];
        let can_split = is_listed(&allowed_actions, PlayerAction::Split);
        let strategy = if can_split {
            SPLIT[player_hand[0].face_value.grid_position()][column]
        } else {
            match self.player_hand_value(player_hand, false) {
                HandValue::Hard(n) => {
                    let row: usize = if n <= 8 {
                        0
                    } else if n >= 20 {
                        12
                    } else {
                        (n - 8) as usize
                    };
                    HARD[row][column]
                },
                HandValue::Soft(n) => {
                    let row: usize = if n <= 12 {
                        0
                    } else if n >= 20 {
                        8
                    } else {
                        (n - 12) as usize
                    };
                    SOFT[row][column]
                },
                HandValue::Blackjack => Strategy::S,
            }
        };
        proof {
            self@.lemma_optimal_action_allowed();
        }
        match strategy {
            Strategy::H => if is_listed(&allowed_actions, PlayerAction::Hit) {
                PlayerAction::Hit
            } else {
                PlayerAction::Stand
            },
            Strategy::S => PlayerAction::Stand,
            Strategy::D => if is_listed(&allowed_actions, PlayerAction::DoubleDown) {
                PlayerAction::DoubleDown
            } else {
                PlayerAction::Hit
            },
            Strategy::P => PlayerAction::Split,
            Strategy::DS => if is_listed(&allowed_actions, PlayerAction::DoubleDown) {
                PlayerAction::DoubleDown
            } else {
                PlayerAction::Stand
            },
            Strategy::PH => if self.rules.double_after_split {
                PlayerAction::Split
            } else {
                PlayerAction::Hit
            },
            Strategy::RH => if is_listed(&allowed_actions, PlayerAction::Surrender) {
                PlayerAction::Surrender
            } else {
                PlayerAction::Hit
            },
        }
    }
}

} // verus!
