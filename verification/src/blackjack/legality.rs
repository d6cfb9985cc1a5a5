//! Which actions the player may take on the hand in play.

use vstd::prelude::*;
use crate::blackjack::card::{Card, FaceValue};
use crate::blackjack::hand::{bust, low_sum, HandValue};
use crate::blackjack::ruleset::{DoubleDownOn, MaxHandsAfterSplit, SplitAces};
use crate::blackjack::table::{BlackjackState, GameState, PlayerAction, Table};

verus! {

/// The position of the first hand at or after `from` that holds exactly one
/// card, or the number of hands where there is none.
pub open spec fn first_undealt(hands: Seq<Seq<Card>>, from: int) -> int
    decreases hands.len() - from,
{
    if from >= hands.len() {
        hands.len() as int
    } else if from >= 0 && hands[from].len() == 1 {
        from
    } else {
        first_undealt(hands, from + 1)
    }
}

/// `first_undealt` finds the least position from `from` on whose hand holds
/// exactly one card.
pub proof fn lemma_first_undealt(hands: Seq<Seq<Card>>, from: int)
    requires
        0 <= from <= hands.len(),
    ensures
        from <= first_undealt(hands, from) <= hands.len(),
        first_undealt(hands, from) < hands.len() ==> hands[first_undealt(hands, from)].len() == 1,
        forall|k: int| from <= k < first_undealt(hands, from) ==> hands[k].len() != 1,
    decreases hands.len() - from,
{
    if from < hands.len() && hands[from].len() != 1 {
        lemma_first_undealt(hands, from + 1);
    }
}

impl Table {
    /// The hand that play moves to when the hand in play is done: the next
    /// later hand that still waits for its second card, or the hand in play
    /// itself where no such hand is left.
    pub open spec fn next_split_hand_index(self) -> nat {
        let next = first_undealt(self.player_hands, self.hand_index as int + 1);
        if next < self.player_hands.len() {
            next as nat
        } else {
            self.hand_index
        }
    }

    /// Hit is open unless the hands come from split aces and the house
    /// gives such hands no further card.
    pub open spec fn can_hit(self) -> bool {
        self.rules.hit_on_split_ace || !self.split_aces()
    }

    /// Double down is open on a two-card hand that is not a pair of aces and
    /// whose value the house accepts for doubling. Whether the hand comes
    /// from a split makes no difference: the rule on doubling after a split
    /// is read by the advisor alone.
    pub open spec fn can_double_down(self) -> bool {
        let value = self.player_value(self.hand_index as int);
        &&& self.active_hand().len() == 2
        &&& !self.pair_of_aces()
        &&& match self.rules.double_down_on {
            DoubleDownOn::Any => true,
            DoubleDownOn::NineTenEleven => value == HandValue::Hard(9) || value
                == HandValue::Hard(10) || value == HandValue::Hard(11),
            DoubleDownOn::TenEleven => value == HandValue::Hard(10) || value == HandValue::Hard(
                11,
            ),
        }
    }

    /// Surrender is open where the house offers it, on a single two-card
    /// hand, while the dealer's hole card lies face down.
    pub open spec fn can_surrender(self) -> bool {
        &&& self.rules.surrender
        &&& self.player_hands.len() == 1
        &&& self.player_hands[0].len() == 2
        &&& self.dealer_hand[1].face_down
    }

    /// Whether `action` is open on the hand in play. Stand always is.
    pub open spec fn is_allowed(self, action: PlayerAction) -> bool {
        match action {
            PlayerAction::Hit => self.can_hit(),
            PlayerAction::Stand => true,
            PlayerAction::Split => self.can_split(),
            PlayerAction::DoubleDown => self.can_double_down(),
            PlayerAction::Surrender => self.can_surrender(),
        }
    }

    /// The open actions, listed in the order hit, stand, split, double down,
    /// surrender.
    pub open spec fn allowed_actions(self) -> Seq<PlayerAction> {
        let hit: Seq<PlayerAction> = if self.can_hit() {
            seq![PlayerAction::Hit]
        } else {
            seq![]
        };
        let split: Seq<PlayerAction> = if self.can_split() {
            seq![PlayerAction::Split]
        } else {
            seq![]
        };
        let double: Seq<PlayerAction> = if self.can_double_down() {
            seq![PlayerAction::DoubleDown]
        } else {
            seq![]
        };
        let surrender: Seq<PlayerAction> = if self.can_surrender() {
            seq![PlayerAction::Surrender]
        } else {
            seq![]
        };
        hit + seq![PlayerAction::Stand] + split + double + surrender
    }

    /// The list of open actions holds exactly the actions that are allowed,
    /// each once.
    pub proof fn lemma_allowed_actions(self)
        ensures
            forall|action: PlayerAction|
                self.allowed_actions().contains(action) <==> self.is_allowed(action),
            self.allowed_actions().no_duplicates(),
    {
        let list = self.allowed_actions();
        let hit: Seq<PlayerAction> = if self.can_hit() {
            seq![PlayerAction::Hit]
        } else {
            seq![]
        };
        let split: Seq<PlayerAction> = if self.can_split() {
            seq![PlayerAction::Split]
        } else {
            seq![]
        };
        let double: Seq<PlayerAction> = if self.can_double_down() {
            seq![PlayerAction::DoubleDown]
        } else {
            seq![]
        };
        let surrender: Seq<PlayerAction> = if self.can_surrender() {
            seq![PlayerAction::Surrender]
        } else {
            seq![]
        };
        let stand_at = hit.len() as int;
        let split_at = stand_at + 1;
        let double_at = split_at + split.len();
        let surrender_at = double_at + double.len();
        assert(list[stand_at] == PlayerAction::Stand);
        if self.can_hit() {
            assert(list[0] == PlayerAction::Hit);
        }
        if self.can_split() {
            assert(list[split_at] == PlayerAction::Split);
        }
        if self.can_double_down() {
            assert(list[double_at] == PlayerAction::DoubleDown);
        }
        if self.can_surrender() {
            assert(list[surrender_at] == PlayerAction::Surrender);
        }
    }
}

impl BlackjackState {
    /// Whether the hands come from splitting aces: there are two or more and
    /// each opens with an ace.
    pub fn player_split_aces(&self) -> (b: bool)
        ensures
            b == self@.split_aces(),
    {
        if self.player_hands.len() < 2 {
            return false;
        }
        let mut i: usize = 0;
        while i < self.player_hands.len()
            invariant
                i <= self.player_hands.len(),
                forall|k: int|
                    0 <= k < i ==> {
                        let hand = #[trigger] self@.player_hands[k];
                        hand.len() > 0 && hand[0].face_value == FaceValue::Ace
                    },
            decreases self.player_hands.len() - i,
        {
            let hand = &self.player_hands[i];
            if hand.len() == 0 || hand[0].face_value != FaceValue::Ace {
                assert(self@.player_hands[i as int] == hand@);
                return false;
            }
            i = i + 1;
        }
        true
    }

    /// The same question as [`BlackjackState::player_split_aces`], as the
    /// rule on hitting asks it.
    pub fn aces_split(&self) -> (b: bool)
        ensures
            b == self@.split_aces(),
    {
        self.player_split_aces()
    }

    /// The hand that play moves to when the hand in play is done; see
    /// [`Table::next_split_hand_index`].
    pub fn next_split_hand_index(&self) -> (next: usize)
        requires
            self.hand_index < self.player_hands.len(),
        ensures
            next == self@.next_split_hand_index(),
            self.hand_index <= next < self.player_hands.len(),
            next != self.hand_index ==> self@.player_hands[next as int].len() == 1,
    {
        let mut i: usize = self.hand_index + 1;
        while i < self.player_hands.len()
            invariant
                self.hand_index < i <= self.player_hands.len(),
                first_undealt(self@.player_hands, self.hand_index + 1) == first_undealt(
                    self@.player_hands,
                    i as int,
                ),
            decreases self.player_hands.len() - i,
        {
            if self.player_hands[i].len() == 1 {
                return i;
            }
            i = i + 1;
        }
        self.hand_index
    }

    /// Whether the hand in play may be split; see [`Table::can_split`].
    pub fn can_split(&self) -> (b: bool)
        requires
            self.hand_index < self.player_hands.len(),
        ensures
            b == self@.can_split(),
    {
        let player_hand = &self.player_hands[self.hand_index];
        let is_pair = player_hand.len() == 2 && player_hand[0].face_value
            == player_hand[1].face_value;
        let can_split_aces = {
            let num_aces_split = if self.aces_split() {
                self.player_hands.len()
            } else {
                0
            };
            match self.rules.split_aces {
                SplitAces::NotAllowed => false,
                SplitAces::Once => num_aces_split < 1,
                SplitAces::Twice => num_aces_split < 2,
                SplitAces::Thrice => num_aces_split < 3,
            }
        };
        let house_rule_satisfied = match self.rules.max_hands_after_split {
            MaxHandsAfterSplit::One => false,
            MaxHandsAfterSplit::Two => self.player_hands.len() < 2,
            MaxHandsAfterSplit::Three => self.player_hands.len() < 3,
            MaxHandsAfterSplit::Four => self.player_hands.len() < 4,
        };
        is_pair && house_rule_satisfied && (player_hand[0].face_value != FaceValue::Ace
            || can_split_aces)
    }

    /// Whether the hand in play is finished; see
    /// [`Table::player_hand_finished`].
    pub fn player_hand_finished(&self) -> (b: bool)
        requires
            self.hand_index < self.player_hands.len(),
            low_sum(self@.active_hand()) <= u8::MAX,
        ensures
            b == self@.player_hand_finished(),
    {
        let player_hand = &self.player_hands[self.hand_index];
        let split_aces = self.player_split_aces();
        let value = self.player_hand_value(player_hand, split_aces);
        let split_ace_finished = split_aces && !self.rules.hit_on_split_ace && !self.can_split();
        let twenty_one = match value {
            HandValue::Hard(n) => n == 21,
            HandValue::Soft(n) => n == 21,
            HandValue::Blackjack => true,
        };
        bust(player_hand) || split_ace_finished || twenty_one
    }

    /// The actions open to the player on the hand in play, in the order hit,
    /// stand, split, double down, surrender. The round must be in the
    /// player's turn; a well-formed round then has an unfinished hand in
    /// play. The answer depends on the round alone: asked again of the same
    /// round, it is the same.
    pub fn allowed_actions(&self) -> (actions: Vec<PlayerAction>)
        requires
            self@.wf(),
            self@.state == GameState::PlayerTurn,
        ensures
            actions@ == self@.allowed_actions(),
            forall|action: PlayerAction| actions@.contains(action) <==> self@.is_allowed(action),
            actions@.no_duplicates(),
    {
        let player_hand = &self.player_hands[self.hand_index];
        let split_aces = self.aces_split();
        let value = self.player_hand_value(player_hand, split_aces);

        let can_hit = self.rules.hit_on_split_ace || !split_aces;

        let can_split = self.can_split();

        let value_accepted = match self.rules.double_down_on {
            DoubleDownOn::Any => true,
            DoubleDownOn::NineTenEleven => match value {
                HandValue::Hard(n) => 9 <= n && n <= 11,
                _ => false,
            },
            DoubleDownOn::TenEleven => match value {
                HandValue::Hard(n) => 10 <= n && n <= 11,
                _ => false,
            },
        };
        let can_double_down = player_hand.len() == 2 && value_accepted && !(
            player_hand[0].face_value == FaceValue::Ace && player_hand[1].face_value
                == FaceValue::Ace);

        let can_surrender = self.rules.surrender && self.player_hands.len() == 1
            && self.player_hands[0].len() == 2 && self.dealer_hand[1].face_down;

        let mut actions: Vec<PlayerAction> = Vec::with_capacity(5);
        if can_hit {
            actions.push(PlayerAction::Hit);
        }
        actions.push(PlayerAction::Stand);
        if can_split {
            actions.push(PlayerAction::Split);
        }
        if can_double_down {
            actions.push(PlayerAction::DoubleDown);
        }
        if can_surrender {
            actions.push(PlayerAction::Surrender);
        }
        proof {
            assert(actions@ =~= self@.allowed_actions());
            self@.lemma_allowed_actions();
        }
        actions
    }
}

} // verus!
