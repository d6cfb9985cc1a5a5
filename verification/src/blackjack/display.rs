//! The table as text, for a terminal.

use vstd::prelude::*;
use vstd::string::StringExecFns;
use crate::blackjack::card::Card;
use crate::blackjack::table::{BlackjackState, Table};
use crate::terminal::{reset_code, yellow};

verus! {

impl Card {
    /// The rank of the card, or a block where the card is to be concealed
    /// and lies face down.
    pub open spec fn mark(self, conceal: bool) -> Seq<char> {
        if conceal && self.face_down {
            "■"@
        } else {
            self.face_value.label()
        }
    }
}

/// The marks of `cards`, each after a space.
pub open spec fn cards_text(cards: Seq<Card>, conceal: bool) -> Seq<char>
    decreases cards.len(),
{
    if cards.len() == 0 {
        Seq::empty()
    } else {
        cards_text(cards.drop_last(), conceal) + " "@ + cards.last().mark(conceal)
    }
}

/// The number of hands among the first `n` that hold a card.
pub open spec fn hands_shown(hands: Seq<Seq<Card>>, n: int) -> int
    decreases n,
{
    if n <= 0 {
        0
    } else {
        hands_shown(hands, n - 1) + if hands[n - 1].len() > 0 {
            1int
        } else {
            0int
        }
    }
}

/// The line of one player hand: its ranks and, on the hand that is marked,
/// an arrow in yellow.
pub open spec fn player_line(hand: Seq<Card>, marked: bool) -> Seq<char> {
    "Player hand:"@ + cards_text(hand, false) + if marked {
        "\x1b[33m"@ + " ←"@ + reset_code()
    } else {
        Seq::empty()
    } + "\n"@
}

/// The lines of the first `n` hands. Empty hands are left out, and the
/// hands that are shown count from 0: the arrow marks the one whose count is
/// `hand_index`.
pub open spec fn hands_text(hands: Seq<Seq<Card>>, hand_index: int, n: int) -> Seq<char>
    decreases n,
{
    if n <= 0 {
        Seq::empty()
    } else {
        hands_text(hands, hand_index, n - 1) + if hands[n - 1].len() > 0 {
            player_line(hands[n - 1], hands_shown(hands, n - 1) == hand_index)
        } else {
            Seq::empty()
        }
    }
}

impl Table {
    /// The table as text: a line for the dealer, whose hidden cards show as
    /// blocks, and a line for each player hand that holds a card.
    pub open spec fn text(self) -> Seq<char> {
        "Dealer hand:"@ + cards_text(self.dealer_hand, true) + "\n"@ + hands_text(
            self.player_hands,
            self.hand_index as int,
            self.player_hands.len() as int,
        )
    }
}

/// Appends the marks of `cards` to `text`, each after a space.
fn append_cards(text: &mut String, cards: &Vec<Card>, conceal: bool)
    ensures
        final(text)@ == old(text)@ + cards_text(cards@, conceal),
{
    let mut i: usize = 0;
    while i < cards.len()
        invariant
            i <= cards.len(),
            text@ == old(text)@ + cards_text(cards@.take(i as int), conceal),
        decreases cards.len() - i,
    {
        let card = &cards[i];
        text.append(" ");
        if conceal && card.face_down {
            text.append("■");
        } else {
            let rank = card.face_value.to_string();
            text.append(rank.as_str());
        }
        proof {
            let shown = cards@.take(i + 1);
            assert(shown.drop_last() =~= cards@.take(i as int));
        }
        i = i + 1;
    }
    proof {
        assert(cards@.take(i as int) =~= cards@);
    }
}

impl BlackjackState {
    /// The table as text; see [`Table::text`].
    pub fn game_state_text(&self) -> (text: String)
        ensures
            text@ == self@.text(),
    {
        let mut text = "Dealer hand:".to_owned();
        append_cards(&mut text, &self.dealer_hand, true);
        text.append("\n");
        let ghost head = text@;
        let ghost hands = self@.player_hands;
        let ghost idx = self.hand_index as int;
        let mut shown: usize = 0;
        let mut i: usize = 0;
        while i < self.player_hands.len()
            invariant
                i <= self.player_hands.len(),
                hands == self@.player_hands,
                idx == self.hand_index,
                shown == hands_shown(hands, i as int),
                shown <= i,
                text@ == head + hands_text(hands, idx, i as int),
            decreases self.player_hands.len() - i,
        {
            let hand = &self.player_hands[i];
            if hand.len() > 0 {
                text.append("Player hand:");
                append_cards(&mut text, hand, false);
                if shown == self.hand_index {
                    let arrow = yellow(" ←");
                    text.append(arrow.as_str());
                }
                text.append("\n");
                shown = shown + 1;
            }
            i = i + 1;
        }
        text
    }
}

} // verus!
