//! Where the cards are: every card of a round lies in the shoe, with the
//! dealer or in one player hand, and no step makes or loses a card.

use vstd::prelude::*;
use vstd::multiset::Multiset;
use crate::blackjack::card::{Card, FaceValue, Suit};
use crate::blackjack::table::{GameState, PlayerAction, Table};

verus! {

broadcast use vstd::multiset::group_multiset_axioms;

/// The suit and rank of a card: what stays of it when it is turned.
pub open spec fn face(card: Card) -> (Suit, FaceValue) {
    (card.suit, card.face_value)
}

/// The faces among `cards`, each as often as it occurs.
pub open spec fn faces(cards: Seq<Card>) -> Multiset<(Suit, FaceValue)>
    decreases cards.len(),
{
    if cards.len() == 0 {
        Multiset::empty()
    } else {
        faces(cards.drop_last()).insert(face(cards.last()))
    }
}

/// The faces in all of `hands`.
pub open spec fn faces_in_hands(hands: Seq<Seq<Card>>) -> Multiset<(Suit, FaceValue)>
    decreases hands.len(),
{
    if hands.len() == 0 {
        Multiset::empty()
    } else {
        faces_in_hands(hands.drop_last()).add(faces(hands.last()))
    }
}

impl Table {
    /// The faces of all cards of the round: in the shoe, with the dealer and
    /// in the player's hands.
    pub open spec fn all_faces(self) -> Multiset<(Suit, FaceValue)> {
        faces(self.shoe).add(faces(self.dealer_hand)).add(faces_in_hands(self.player_hands))
    }
}

/// One more card adds its face.
pub proof fn lemma_faces_push(cards: Seq<Card>, card: Card)
    ensures
        faces(cards.push(card)) == faces(cards).insert(face(card)),
{
    assert(cards.push(card).drop_last() =~= cards);
}

/// Taking the last card away takes its face away.
pub proof fn lemma_faces_drop_last(cards: Seq<Card>)
    requires
        cards.len() > 0,
    ensures
        faces(cards) == faces(cards.drop_last()).insert(face(cards.last())),
{
}

/// Putting a card of the same face in its place changes no face.
pub proof fn lemma_faces_update(cards: Seq<Card>, i: int, card: Card)
    requires
        0 <= i < cards.len(),
        face(card) == face(cards[i]),
    ensures
        faces(cards.update(i, card)) == faces(cards),
    decreases cards.len(),
{
    let after = cards.update(i, card);
    if i == cards.len() - 1 {
        assert(after.drop_last() =~= cards.drop_last());
    } else {
        lemma_faces_update(cards.drop_last(), i, card);
        assert(after.drop_last() =~= cards.drop_last().update(i, card));
    }
}

/// Another hand in place of hand `i` takes the faces of the old hand away
/// and adds those of the new.
pub proof fn lemma_faces_in_hands_update(hands: Seq<Seq<Card>>, i: int, hand: Seq<Card>)
    requires
        0 <= i < hands.len(),
    ensures
        forall|v: (Suit, FaceValue)|
            #[trigger] faces_in_hands(hands.update(i, hand)).count(v) == faces_in_hands(
                hands,
            ).count(v) - faces(hands[i]).count(v) + faces(hand).count(v),
    decreases hands.len(),
{
    let after = hands.update(i, hand);
    if i == hands.len() - 1 {
        assert(after.drop_last() =~= hands.drop_last());
    } else {
        lemma_faces_in_hands_update(hands.drop_last(), i, hand);
        assert(after.drop_last() =~= hands.drop_last().update(i, hand));
    }
    assert forall|v: (Suit, FaceValue)|
        #[trigger] faces_in_hands(after).count(v) == faces_in_hands(hands).count(v) - faces(
            hands[i],
        ).count(v) + faces(hand).count(v) by {
        assert(faces_in_hands(after).count(v) == faces_in_hands(after.drop_last()).count(v)
            + faces(after.last()).count(v));
        assert(faces_in_hands(hands).count(v) == faces_in_hands(hands.drop_last()).count(v)
            + faces(hands.last()).count(v));
    }
}

/// A further hand adds its faces.
pub proof fn lemma_faces_in_hands_push(hands: Seq<Seq<Card>>, hand: Seq<Card>)
    ensures
        faces_in_hands(hands.push(hand)) == faces_in_hands(hands).add(faces(hand)),
{
    assert(hands.push(hand).drop_last() =~= hands);
}

/// A card that goes from the shoe to the hand in play stays in the round.
proof fn lemma_give_player_faces(t: Table)
    requires
        t.shoe.len() > 0,
        t.hand_index < t.player_hands.len(),
    ensures
        t.give_player().all_faces() == t.all_faces(),
{
    let card = t.shoe.last();
    let hand = t.active_hand();
    lemma_faces_drop_last(t.shoe);
    lemma_faces_push(hand, card);
    lemma_faces_in_hands_update(t.player_hands, t.hand_index as int, hand.push(card));
    assert(t.give_player().all_faces() =~= t.all_faces());
}

/// A card that goes from the shoe to the dealer stays in the round, face up
/// or down.
proof fn lemma_give_dealer_faces(t: Table, hole: bool)
    requires
        t.shoe.len() > 0,
    ensures
        t.give_dealer(hole).all_faces() == t.all_faces(),
{
    let card = t.shoe.last();
    lemma_faces_drop_last(t.shoe);
    lemma_faces_push(t.dealer_hand, card);
    lemma_faces_push(t.dealer_hand, Card { face_down: true, ..card });
    assert(t.give_dealer(hole).all_faces() =~= t.all_faces());
}

/// Turning the hole card changes no face.
proof fn lemma_reveal_faces(t: Table)
    requires
        t.dealer_hand.len() >= 2,
    ensures
        t.reveal_hole().all_faces() == t.all_faces(),
{
    lemma_faces_update(t.dealer_hand, 1, Card { face_down: false, ..t.dealer_hand[1] });
}

/// A split moves a card from one hand to a new one.
proof fn lemma_split_faces(t: Table)
    requires
        t.hand_index < t.player_hands.len(),
        t.active_hand().len() > 0,
    ensures
        t.split().all_faces() == t.all_faces(),
{
    let hand = t.active_hand();
    let kept = t.player_hands.update(t.hand_index as int, hand.drop_last());
    lemma_faces_drop_last(hand);
    lemma_faces_in_hands_update(t.player_hands, t.hand_index as int, hand.drop_last());
    lemma_faces_in_hands_push(kept, seq![hand.last()]);
    lemma_faces_push(Seq::empty(), hand.last());
    assert(seq![hand.last()] =~= Seq::<Card>::empty().push(hand.last()));
    assert(t.split().all_faces() =~= t.all_faces());
}

impl Table {
    /// No step makes or loses a card: the faces of all cards of the round
    /// stay the same, each as often as before.
    pub proof fn lemma_step_keeps_cards(self, action: Option<PlayerAction>)
        requires
            self.wf(),
            self.can_step(action),
        ensures
            self.step(action).all_faces() == self.all_faces(),
    {
        let t = self;
        let idx = t.hand_index as int;
        match t.state {
            GameState::Dealing => {
                if !t.opening() || t.dealer_hand.len() == t.player_hands[0].len() {
                    lemma_give_player_faces(t);
                } else if t.dealer_hand.len() == 0 {
                    lemma_give_dealer_faces(t, false);
                } else {
                    lemma_give_dealer_faces(t, true);
                    lemma_reveal_faces(t.give_dealer(true));
                }
            },
            GameState::PlayerTurn => {
                match action.unwrap() {
                    PlayerAction::Hit => lemma_give_player_faces(t),
                    PlayerAction::DoubleDown => lemma_give_player_faces(
                        Table { bets: t.bets.update(idx, 2 * t.bets[idx]), ..t },
                    ),
                    PlayerAction::Split => lemma_split_faces(t),
                    PlayerAction::Stand | PlayerAction::Surrender => {},
                }
            },
            GameState::DealerTurn => {
                if !t.dealer_should_stand() {
                    if t.dealer_hand[1].face_down {
                        lemma_reveal_faces(t);
                    } else {
                        lemma_give_dealer_faces(t, false);
                    }
                }
            },
            GameState::GameOver => {},
        }
    }
}

} // verus!
