//! Laws of the engine: statements that hold of every round, proved from the
//! definitions of the model.

use vstd::prelude::*;
use crate::blackjack::card::Card;
use crate::blackjack::hand::{face_up, hand_value, has_ace, is_natural, low_sum, HandValue};
use crate::blackjack::outcome::{HandOutcome, LossReason};
use crate::blackjack::ruleset::{BlackjackRuleset, DoubleDownOn, SplitAces};
use crate::blackjack::table::{GameState, PlayerAction, Table};

verus! {

/// The face-up cards and the low sum of a hand of two.
proof fn lemma_two_cards(first: Card, second: Card)
    ensures
        low_sum(seq![first, second]) == first.points(false) + second.points(false),
        !first.face_down && !second.face_down ==> face_up(seq![first, second]) == seq![
            first,
            second,
        ],
        has_ace(seq![first, second]) == (first.is_visible_ace() || second.is_visible_ace()),
{
    reveal_with_fuel(Seq::filter, 3);
    reveal_with_fuel(low_sum, 3);
}

/// Two face-up cards are a natural exactly where their ranks make one: an
/// ace with a court card always, an ace with a ten where the house counts
/// it. After split aces the house may count such a hand a hard 21 instead.
/// An ace with a ten that is no natural is a soft 21.
pub proof fn lemma_naturals(first: Card, second: Card, rules: BlackjackRuleset, aces_split: bool)
    requires
        !first.face_down,
        !second.face_down,
    ensures
        ({
            let value = hand_value(seq![first, second], rules, aces_split);
            let natural = is_natural(
                first.face_value,
                second.face_value,
                rules.ace_and_ten_counts_as_blackjack,
            );
            &&& natural && !(aces_split && !rules.split_ace_can_be_blackjack) <==> value
                == HandValue::Blackjack
            &&& natural && aces_split && !rules.split_ace_can_be_blackjack ==> value
                == HandValue::Hard(21)
            &&& !natural && is_natural(first.face_value, second.face_value, true) ==> value
                == HandValue::Soft(21)
        }),
{
    lemma_two_cards(first, second);
}

/// A dealer who peeks and finds a natural ends the round with the hole card
/// dealt: the player's hand ties if it is a natural too, and loses to the
/// dealer's natural if not.
pub proof fn lemma_peeked_natural(t: Table)
    requires
        t.wf(),
        t.state == GameState::Dealing,
        t.opening(),
        t.dealer_hand.len() == 1,
        t.player_hands[0].len() == 2,
        t.shoe.len() > 0,
        t.rules.dealer_peeks,
        !t.dealer_hand[0].face_down,
        is_natural(
            t.dealer_hand[0].face_value,
            t.shoe.last().face_value,
            t.rules.ace_and_ten_counts_as_blackjack,
        ),
    ensures
        t.step(None).state == GameState::GameOver,
        t.step(None).outcomes() == seq![
            if t.step(None).player_value(0) == HandValue::Blackjack {
                HandOutcome::Push
            } else {
                HandOutcome::Lost(LossReason::DealerBlackjack)
            },
        ],
{
    let shown = t.give_dealer(true).reveal_hole();
    let hole = Card { face_down: false, ..t.shoe.last() };
    assert(shown.dealer_hand =~= seq![t.dealer_hand[0], hole]);
    lemma_naturals(t.dealer_hand[0], hole, t.rules, false);
}

/// Where aces may be split once and split aces take no further card, every
/// hand made by the split is finished as soon as it is in play, whatever its
/// total: neither hit nor split is open on it.
pub proof fn lemma_split_aces_finished(t: Table)
    requires
        t.cards_ok(),
        t.split_aces(),
        !t.rules.hit_on_split_ace,
        t.rules.split_aces == SplitAces::Once,
    ensures
        t.player_hand_finished(),
        !t.can_hit(),
        !t.can_split(),
{
}

/// Where the house lets the player double on ten and eleven only, a
/// two-card hard 9 may not be doubled and a two-card hard 10 may.
pub proof fn lemma_double_on_ten_eleven(t: Table)
    requires
        t.cards_ok(),
        t.rules.double_down_on == DoubleDownOn::TenEleven,
        t.active_hand().len() == 2,
    ensures
        t.player_value(t.hand_index as int) == HandValue::Hard(9) ==> !t.can_double_down(),
        t.player_value(t.hand_index as int) == HandValue::Hard(10) ==> t.can_double_down(),
{
    let hand = t.active_hand();
    assert(hand =~= seq![hand[0], hand[1]]);
    lemma_two_cards(hand[0], hand[1]);
}

/// Where the house offers surrender, it is open on a single two-card hand
/// while the hole card lies face down; it ends the round, and the round then
/// has the one outcome `Surrendered`, whatever the cards.
pub proof fn lemma_surrender(t: Table)
    requires
        t.wf(),
        t.state == GameState::PlayerTurn,
        t.rules.surrender,
        t.player_hands.len() == 1,
        t.player_hands[0].len() == 2,
        t.dealer_hand[1].face_down,
    ensures
        t.is_allowed(PlayerAction::Surrender),
        t.allowed_actions().contains(PlayerAction::Surrender),
        t.step(Some(PlayerAction::Surrender)).state == GameState::GameOver,
        t.step(Some(PlayerAction::Surrender)).outcomes() == seq![HandOutcome::Surrendered],
{
    t.lemma_allowed_actions();
    assert(t.allowed_actions().contains(PlayerAction::Surrender) <==> t.is_allowed(
        PlayerAction::Surrender,
    ));
}

} // verus!
