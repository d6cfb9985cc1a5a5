//! Whole rounds: a round that is dealt from a shoe of eight decks never
//! runs out of cards, and played with the advisor it comes to an end.

use vstd::prelude::*;
use crate::blackjack::card::Card;
use crate::blackjack::hand::{lemma_low_sum_bound, lemma_low_sum_push, low_sum};
use crate::blackjack::legality::lemma_first_undealt;
use crate::blackjack::ruleset::BlackjackRuleset;
use crate::blackjack::shoe::init_state;
use crate::blackjack::table::{BlackjackState, GameState, PlayerAction, Table};

verus! {

/// The number of cards in all of `hands`.
pub open spec fn hands_len(hands: Seq<Seq<Card>>) -> nat
    decreases hands.len(),
{
    if hands.len() == 0 {
        0
    } else {
        hands_len(hands.drop_last()) + hands.last().len()
    }
}

/// Every card lies face up.
pub open spec fn all_face_up(cards: Seq<Card>) -> bool {
    forall|k: int| 0 <= k < cards.len() ==> !(#[trigger] cards[k]).face_down
}

/// A number of cards, in the shoe and on the table together, that is sure to
/// last a round: four hands of at most 31 cards and a dealer hand of at most
/// 27 make 151.
pub const ROUND_SUPPLY: usize = 152;

impl Table {
    /// The number of cards on the table.
    pub open spec fn cards_out(self) -> nat {
        self.dealer_hand.len() + hands_len(self.player_hands)
    }

    /// Every card lies face up, but for the dealer's second card, which may
    /// be hidden.
    pub open spec fn open_faced(self) -> bool {
        &&& all_face_up(self.shoe)
        &&& forall|i: int|
            0 <= i < self.player_hands.len() ==> all_face_up(#[trigger] self.player_hands[i])
        &&& forall|k: int|
            0 <= k < self.dealer_hand.len() && k != 1 ==> !(
            #[trigger] self.dealer_hand[k]).face_down
    }

    /// No hand has grown past one card beyond 21, nor the dealer's past one
    /// card beyond 16.
    pub open spec fn modest(self) -> bool {
        &&& forall|i: int|
            0 <= i < self.player_hands.len() ==> low_sum(#[trigger] self.player_hands[i]) <= 31
        &&& low_sum(self.dealer_hand) <= 26
    }

    /// A round in honest play from a shoe that will last: it is well
    /// formed, the stakes are as play leaves them, no card but the hole card
    /// is hidden, no hand has grown past what play allows, and shoe and table
    /// together hold at least [`ROUND_SUPPLY`] cards.
    pub open spec fn sound_round(self) -> bool {
        &&& self.wf()
        &&& self.stakes_ok()
        &&& self.open_faced()
        &&& self.modest()
        &&& self.shoe.len() + self.cards_out() >= ROUND_SUPPLY
    }

    /// A bound on the number of steps that the round can still take. Every
    /// step lowers it: a split uses up one of the hands that may still be
    /// made, a card dealt one of the cards that the table can take, moving on
    /// one of the hands that are still to play, and turning the hole card or
    /// changing the phase the rest.
    pub open spec fn steps_left(self) -> int {
        1000 * (4 - self.player_hands.len()) + 10 * (self.player_hands.len() - self.hand_index) + (
        ROUND_SUPPLY - self.cards_out()) + match self.state {
            GameState::Dealing | GameState::PlayerTurn => 4,
            GameState::DealerTurn => if self.dealer_hand[1].face_down {
                3int
            } else {
                2int
            },
            GameState::GameOver => 0,
        }
    }
}

/// Replacing one hand changes the number of cards by the difference of the
/// two hands.
pub proof fn lemma_hands_len_update(hands: Seq<Seq<Card>>, i: int, hand: Seq<Card>)
    requires
        0 <= i < hands.len(),
    ensures
        hands_len(hands.update(i, hand)) == hands_len(hands) - hands[i].len() + hand.len(),
    decreases hands.len(),
{
    let after = hands.update(i, hand);
    if i == hands.len() - 1 {
        assert(after.drop_last() =~= hands.drop_last());
    } else {
        lemma_hands_len_update(hands.drop_last(), i, hand);
        assert(after.drop_last() =~= hands.drop_last().update(i, hand));
    }
}

/// A further hand adds its cards.
pub proof fn lemma_hands_len_push(hands: Seq<Seq<Card>>, hand: Seq<Card>)
    ensures
        hands_len(hands.push(hand)) == hands_len(hands) + hand.len(),
{
    assert(hands.push(hand).drop_last() =~= hands);
}

/// Hands of at most `bound` cards each hold at most `bound` cards a hand.
pub proof fn lemma_hands_len_bound(hands: Seq<Seq<Card>>, bound: nat)
    requires
        forall|i: int| 0 <= i < hands.len() ==> (#[trigger] hands[i]).len() <= bound,
    ensures
        hands_len(hands) <= bound * hands.len(),
    decreases hands.len(),
{
    if hands.len() > 0 {
        let rest = hands.drop_last();
        lemma_hands_len_bound(rest, bound);
        assert(bound * hands.len() == bound * rest.len() + bound) by (nonlinear_arith)
            requires
                hands.len() == rest.len() + 1,
        ;
    }
}

/// Face-up cards count at least 1 each: the low sum of a hand is no less
/// than the number of its cards, less those that lie face down.
pub proof fn lemma_low_sum_counts_cards(hand: Seq<Card>, hidden: int)
    requires
        forall|k: int| 0 <= k < hand.len() && k != hidden ==> !(#[trigger] hand[k]).face_down,
    ensures
        low_sum(hand) + 1 >= hand.len(),
        hidden < 0 || hidden >= hand.len() ==> low_sum(hand) >= hand.len(),
    decreases hand.len(),
{
    if hand.len() > 0 {
        lemma_low_sum_counts_cards(hand.drop_last(), hidden);
    }
}

/// On a table in honest play fewer than [`ROUND_SUPPLY`] cards are out.
proof fn lemma_cards_out_bound(t: Table)
    requires
        t.cards_ok(),
        t.open_faced(),
        t.modest(),
    ensures
        t.cards_out() < ROUND_SUPPLY,
{
    assert forall|i: int| 0 <= i < t.player_hands.len() implies (
    #[trigger] t.player_hands[i]).len() <= 31 by {
        lemma_low_sum_counts_cards(t.player_hands[i], -1);
    }
    lemma_hands_len_bound(t.player_hands, 31);
    lemma_low_sum_counts_cards(t.dealer_hand, 1);
    assert(31 * t.player_hands.len() <= 124) by (nonlinear_arith)
        requires
            t.player_hands.len() <= 4,
    ;
}

/// A card from the shoe for the hand in play, in honest play.
proof fn lemma_honest_give_player(t: Table)
    requires
        t.cards_ok(),
        t.open_faced(),
        t.modest(),
        t.shoe.len() > 0,
        low_sum(t.active_hand()) <= 21,
    ensures
        t.give_player().open_faced(),
        t.give_player().modest(),
        t.give_player().cards_out() == t.cards_out() + 1,
        t.give_player().shoe.len() == t.shoe.len() - 1,
{
    let card = t.shoe.last();
    lemma_low_sum_push(t.active_hand(), card);
    lemma_hands_len_update(t.player_hands, t.hand_index as int, t.active_hand().push(card));
}

/// A card from the shoe for the dealer, in honest play: face down only as
/// the second card.
proof fn lemma_honest_give_dealer(t: Table, hole: bool)
    requires
        t.open_faced(),
        t.shoe.len() > 0,
        hole <==> t.dealer_hand.len() == 1,
        low_sum(t.dealer_hand) <= 16,
    ensures
        t.give_dealer(hole).open_faced(),
        low_sum(t.give_dealer(hole).dealer_hand) <= 26,
        t.give_dealer(hole).cards_out() == t.cards_out() + 1,
        t.give_dealer(hole).shoe.len() == t.shoe.len() - 1,
        t.give_dealer(hole).player_hands == t.player_hands,
{
    let card = t.shoe.last();
    lemma_low_sum_push(t.dealer_hand, card);
    lemma_low_sum_push(t.dealer_hand, Card { face_down: true, ..card });
}

/// Turning the hole card of a dealer who holds two cards, in honest play.
proof fn lemma_honest_reveal(t: Table)
    requires
        t.open_faced(),
        t.dealer_hand.len() == 2,
    ensures
        t.reveal_hole().open_faced(),
        low_sum(t.reveal_hole().dealer_hand) <= 20,
        t.reveal_hole().cards_out() == t.cards_out(),
        t.reveal_hole().shoe == t.shoe,
        t.reveal_hole().player_hands == t.player_hands,
        !t.reveal_hole().dealer_hand[1].face_down,
{
    lemma_low_sum_bound(t.reveal_hole().dealer_hand);
}

/// Splitting the pair in play, in honest play.
proof fn lemma_honest_split(t: Table)
    requires
        t.cards_ok(),
        t.open_faced(),
        t.modest(),
        t.active_hand().len() == 2,
    ensures
        t.split().open_faced(),
        t.split().modest(),
        t.split().cards_out() == t.cards_out(),
        t.split().shoe == t.shoe,
{
    let s = t.split();
    let idx = t.hand_index as int;
    let hand = t.active_hand();
    let kept = t.player_hands.update(idx, hand.drop_last());
    lemma_hands_len_update(t.player_hands, idx, hand.drop_last());
    lemma_hands_len_push(kept, seq![hand.last()]);
    assert forall|i: int| 0 <= i < s.player_hands.len() implies all_face_up(
        #[trigger] s.player_hands[i],
    ) && low_sum(s.player_hands[i]) <= 31 by {
        if i >= t.player_hands.len() {
            lemma_low_sum_bound(s.player_hands[i]);
        }
    }
}

impl Table {
    /// Honest play goes on: from a sound round that is not over, the step
    /// (with an allowed action in the player's turn) is defined, so the shoe
    /// is never found empty; the round stays sound, with the same number of
    /// cards in shoe and table together; and fewer steps are left.
    pub proof fn lemma_sound_step(self, action: Option<PlayerAction>)
        requires
            self.sound_round(),
            self.state != GameState::GameOver,
            self.state == GameState::PlayerTurn ==> action.is_some() && self.is_allowed(
                action.unwrap(),
            ),
        ensures
            self.can_step(action),
            self.step(action).sound_round(),
            self.step(action).shoe.len() + self.step(action).cards_out() == self.shoe.len()
                + self.cards_out(),
            0 <= self.step(action).steps_left() < self.steps_left(),
    {
        let t = self;
        let idx = t.hand_index as int;
        lemma_cards_out_bound(t);
        if t.doubles(action) {
            t.lemma_stake_doubles();
        }
        t.lemma_step_wf(action);
        t.lemma_step_stakes(action);
        lemma_first_undealt(t.player_hands, idx + 1);
        match t.state {
            GameState::Dealing => {
                if t.opening() {
                    lemma_low_sum_bound(t.player_hands[0]);
                    lemma_low_sum_bound(t.dealer_hand);
                    if t.dealer_hand.len() == t.player_hands[0].len() {
                        lemma_honest_give_player(t);
                    } else if t.dealer_hand.len() == 0 {
                        lemma_honest_give_dealer(t, false);
                    } else {
                        lemma_honest_give_dealer(t, true);
                        lemma_honest_reveal(t.give_dealer(true));
                    }
                } else {
                    lemma_low_sum_bound(t.active_hand());
                    lemma_honest_give_player(t);
                    lemma_first_undealt(t.give_player().player_hands, idx + 1);
                }
            },
            GameState::PlayerTurn => {
                match action.unwrap() {
                    PlayerAction::Hit => {
                        lemma_honest_give_player(t);
                        lemma_first_undealt(t.give_player().player_hands, idx + 1);
                    },
                    PlayerAction::Stand => {},
                    PlayerAction::DoubleDown => {
                        let raised = Table {
                            bets: t.bets.update(idx, 2 * t.bets[idx]),
                            ..t
                        };
                        lemma_honest_give_player(raised);
                        lemma_first_undealt(raised.give_player().player_hands, idx + 1);
                    },
                    PlayerAction::Split => {
                        lemma_honest_split(t);
                    },
                    PlayerAction::Surrender => {},
                }
            },
            GameState::DealerTurn => {
                if !t.dealer_should_stand() {
                    if t.dealer_hand[1].face_down {
                        lemma_honest_reveal(t);
                    } else {
                        lemma_honest_give_dealer(t, false);
                    }
                }
            },
            GameState::GameOver => {},
        }
    }

    /// The action that the advisor takes on this table: its recommendation
    /// in the player's turn, none in the other phases.
    pub open spec fn advised(self) -> Option<PlayerAction> {
        if self.state == GameState::PlayerTurn {
            Some(self.optimal_action())
        } else {
            None
        }
    }

    /// The table at the end of the round where the advisor plays it out:
    /// step after step with the advised action, until the round is over. A
    /// table that is not a sound round stays as it is.
    pub open spec fn played_out(self) -> Table
        decreases self.steps_left(),
    {
        if self.state != GameState::GameOver && self.sound_round() {
            proof {
                if self.state == GameState::PlayerTurn {
                    self.lemma_optimal_action_allowed();
                }
                self.lemma_sound_step(self.advised());
            }
            self.step(self.advised()).played_out()
        } else {
            self
        }
    }
}

impl BlackjackState {
    /// Plays the round to its end, the advisor choosing in the player's
    /// turn. A sound round takes every step without running out of cards
    /// and ends after finitely many of them; no card is made or lost on the
    /// way.
    pub fn play_out(&mut self)
        requires
            old(self)@.sound_round(),
        ensures
            final(self)@ == old(self)@.played_out(),
            final(self)@.state == GameState::GameOver,
            final(self)@.sound_round(),
            final(self)@.all_faces() == old(self)@.all_faces(),
            final(self)@.shoe.len() + final(self)@.cards_out() == old(self)@.shoe.len() + old(
                self,
            )@.cards_out(),
    {
        while self.state != GameState::GameOver
            invariant
                self@.sound_round(),
                self@.played_out() == old(self)@.played_out(),
                self@.all_faces() == old(self)@.all_faces(),
                self@.shoe.len() + self@.cards_out() == old(self)@.shoe.len() + old(
                    self,
                )@.cards_out(),
            decreases self@.steps_left(),
        {
            let action = if self.state == GameState::PlayerTurn {
                Some(self.get_optimal_move())
            } else {
                None
            };
            proof {
                self@.lemma_sound_step(action);
                self@.lemma_step_keeps_cards(action);
            }
            self.next_state(action);
        }
    }
}

/// Plays `iterations` fresh rounds to their end, the advisor choosing, each
/// dealt from eight decks in a random order and with a stake of 1.
pub fn monte_carlo(rules: BlackjackRuleset, iterations: u32) {
    let mut played: u32 = 0;
    while played < iterations
        invariant
            played <= iterations,
        decreases iterations - played,
    {
        let mut game = init_state(1, rules);
        game.play_out();
        played = played + 1;
    }
}

} // verus!
