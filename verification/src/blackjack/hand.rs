//! The value of a hand.

use vstd::prelude::*;
use crate::blackjack::card::{card_value, Card, FaceValue};
use crate::blackjack::ruleset::BlackjackRuleset;
use crate::blackjack::table::BlackjackState;

verus! {

/// What a hand is worth. `Blackjack` is the natural two-card 21; it is kept
/// apart from an ordinary 21 because it is paid and tied differently.
#[derive(Debug, Clone, Copy, PartialEq, Eq, Structural)]
pub enum HandValue {
    /// A total in which no ace counts 11.
    Hard(u8),
    /// A total in which one ace counts 11.
    Soft(u8),
    Blackjack,
}

impl HandValue {
    /// The total carried by a hard or soft value; a natural counts 21.
    pub open spec fn total(self) -> nat {
        match self {
            HandValue::Hard(n) => n as nat,
            HandValue::Soft(n) => n as nat,
            HandValue::Blackjack => 21,
        }
    }
}

/// The sum of a hand with every ace counted 1 and face-down cards counted 0.
pub open spec fn low_sum(hand: Seq<Card>) -> nat
    decreases hand.len(),
{
    if hand.len() == 0 {
        0
    } else {
        low_sum(hand.drop_last()) + hand.last().points(false)
    }
}

/// Whether a face-up ace lies in the hand.
pub open spec fn has_ace(hand: Seq<Card>) -> bool {
    exists|i: int| 0 <= i < hand.len() && #[trigger] hand[i].is_visible_ace()
}

/// The face-up cards of a hand, in order.
pub open spec fn face_up(hand: Seq<Card>) -> Seq<Card> {
    hand.filter(|c: Card| !c.face_down)
}

/// Two ranks that make a natural: an ace with a court card in either order,
/// or with a ten where the house counts that too.
pub open spec fn is_natural(first: FaceValue, second: FaceValue, ten_counts: bool) -> bool {
    ||| first == FaceValue::Ace && second.is_ten_valued() && (second != FaceValue::Ten
        || ten_counts)
    ||| second == FaceValue::Ace && first.is_ten_valued() && (first != FaceValue::Ten
        || ten_counts)
}

/// The value of a hand under `rules`. Only face-up cards count. Two face-up
/// cards that make a natural are a `Blackjack`, but only a hard 21 where the
/// hand comes from split aces and the house does not let such a hand be a
/// natural. Any other hand is soft where it holds an ace and counting one ace
/// 11 does not exceed 21, and hard otherwise.
pub open spec fn hand_value(hand: Seq<Card>, rules: BlackjackRuleset, aces_split: bool)
    -> HandValue {
    let up = face_up(hand);
    if up.len() == 2 && is_natural(
        up[0].face_value,
        up[1].face_value,
        rules.ace_and_ten_counts_as_blackjack,
    ) {
        if aces_split && !rules.split_ace_can_be_blackjack {
            HandValue::Hard(21)
        } else {
            HandValue::Blackjack
        }
    } else if has_ace(hand) && low_sum(hand) <= 11 {
        HandValue::Soft((low_sum(hand) + 10) as u8)
    } else {
        HandValue::Hard(low_sum(hand) as u8)
    }
}

/// A hand is bust when even with every ace counted 1 it exceeds 21.
pub open spec fn is_bust(hand: Seq<Card>) -> bool {
    low_sum(hand) > 21
}

/// Adding a card adds its points to the low sum.
pub proof fn lemma_low_sum_push(hand: Seq<Card>, card: Card)
    ensures
        low_sum(hand.push(card)) == low_sum(hand) + card.points(false),
{
    assert(hand.push(card).drop_last() =~= hand);
}

/// The low sum of the first `k` cards never exceeds that of the whole hand.
pub proof fn lemma_low_sum_prefix(hand: Seq<Card>, k: int)
    requires
        0 <= k <= hand.len(),
    ensures
        low_sum(hand.take(k)) <= low_sum(hand),
    decreases hand.len() - k,
{
    if k == hand.len() {
        assert(hand.take(k) =~= hand);
    } else {
        lemma_low_sum_prefix(hand, k + 1);
        assert(hand.take(k + 1).drop_last() =~= hand.take(k));
    }
}

/// No card counts more than 10 towards the low sum.
pub proof fn lemma_low_sum_bound(hand: Seq<Card>)
    ensures
        low_sum(hand) <= 10 * hand.len(),
    decreases hand.len(),
{
    if hand.len() > 0 {
        lemma_low_sum_bound(hand.drop_last());
    }
}

/// The face-up cards after one more card: the card joins them unless it lies
/// face down.
pub proof fn lemma_face_up_push(hand: Seq<Card>, card: Card)
    ensures
        face_up(hand.push(card)) == if card.face_down {
            face_up(hand)
        } else {
            face_up(hand).push(card)
        },
{
    reveal(Seq::filter);
    assert(hand.push(card).drop_last() =~= hand);
}

/// A hand holds a face-up ace after one more card if it held one before or
/// the card is one.
pub proof fn lemma_has_ace_push(hand: Seq<Card>, card: Card)
    ensures
        has_ace(hand.push(card)) == (has_ace(hand) || card.is_visible_ace()),
{
    let more = hand.push(card);
    if has_ace(hand) {
        let i = choose|i: int| 0 <= i < hand.len() && #[trigger] hand[i].is_visible_ace();
        assert(more[i].is_visible_ace());
    }
    if card.is_visible_ace() {
        assert(more[hand.len() as int].is_visible_ace());
    }
    if has_ace(more) {
        let i = choose|i: int| 0 <= i < more.len() && #[trigger] more[i].is_visible_ace();
        if i < hand.len() {
            assert(hand[i].is_visible_ace());
        }
    }
}

/// While a hand is not bust, the total that its value carries is at most 21.
pub proof fn lemma_value_at_most_21_unless_bust(
    hand: Seq<Card>,
    rules: BlackjackRuleset,
    aces_split: bool,
)
    requires
        !is_bust(hand),
    ensures
        hand_value(hand, rules, aces_split).total() <= 21,
{
}

/// Whether the low sum of `hand` is at most `bound`.
pub fn low_sum_within(hand: &Vec<Card>, bound: u8) -> (b: bool)
    ensures
        b == (low_sum(hand@) <= bound),
{
    let mut sum: u16 = 0;
    let mut i: usize = 0;
    while i < hand.len() && sum <= bound as u16
        invariant
            i <= hand.len(),
            sum == low_sum(hand@.take(i as int)),
            sum <= 266,
        decreases hand.len() - i,
    {
        let v = card_value(&hand[i], false);
        proof {
            assert(hand@.take(i + 1).drop_last() =~= hand@.take(i as int));
        }
        sum = sum + v as u16;
        i = i + 1;
    }
    proof {
        lemma_low_sum_prefix(hand@, i as int);
        if i == hand.len() {
            assert(hand@.take(i as int) =~= hand@);
        }
    }
    sum <= bound as u16
}

/// Whether the low sum of `hand` fits the byte that carries a total.
pub fn low_sum_fits(hand: &Vec<Card>) -> (b: bool)
    ensures
        b == (low_sum(hand@) <= u8::MAX),
{
    low_sum_within(hand, u8::MAX)
}

/// Whether `hand` is bust: its sum with every ace counted 1 exceeds 21.
pub fn bust(hand: &Vec<Card>) -> (b: bool)
    ensures
        b == is_bust(hand@),
{
    !low_sum_within(hand, 21)
}

impl BlackjackState {
    /// The value of `hand` under the rules of this round; see
    /// [`hand_value`]. The total must fit the byte that carries it. The
    /// answer depends on the hand, the rules and `aces_split` alone: asked
    /// again of the same, it is the same.
    pub fn hand_value_base(&self, hand: &Vec<Card>, aces_split: bool) -> (value: HandValue)
        requires
            low_sum(hand@) <= u8::MAX,
        ensures
            value == hand_value(hand@, self.rules, aces_split),
    {
        let mut shown: usize = 0;
        let mut first = FaceValue::Two;
        let mut second = FaceValue::Two;
        let mut ace = false;
        let mut low_val: u8 = 0;
        let mut i: usize = 0;
        while i < hand.len()
            invariant
                i <= hand.len(),
                low_sum(hand@) <= u8::MAX,
                shown == face_up(hand@.take(i as int)).len(),
                shown <= i,
                shown >= 1 ==> first == face_up(hand@.take(i as int))[0].face_value,
                shown >= 2 ==> second == face_up(hand@.take(i as int))[1].face_value,
                ace == has_ace(hand@.take(i as int)),
                low_val == low_sum(hand@.take(i as int)),
            decreases hand.len() - i,
        {
            let card = &hand[i];
            proof {
                let before = hand@.take(i as int);
                assert(hand@.take(i + 1) =~= before.push(*card));
                lemma_face_up_push(before, *card);
                lemma_has_ace_push(before, *card);
                lemma_low_sum_push(before, *card);
                lemma_low_sum_prefix(hand@, i + 1);
            }
            if !card.face_down {
                if shown == 0 {
                    first = card.face_value;
                } else if shown == 1 {
                    second = card.face_value;
                }
                shown = shown + 1;
                if card.face_value == FaceValue::Ace {
                    ace = true;
                }
            }
            low_val = low_val + card_value(card, false);
            i = i + 1;
        }
        proof {
            assert(hand@.take(i as int) =~= hand@);
        }
        if shown == 2 && natural_pair(first, second, self.rules.ace_and_ten_counts_as_blackjack) {
            if aces_split && !self.rules.split_ace_can_be_blackjack {
                HandValue::Hard(21)
            } else {
                HandValue::Blackjack
            }
        } else if ace && low_val <= 11 {
            HandValue::Soft(low_val + 10)
        } else {
            HandValue::Hard(low_val)
        }
    }

    /// The value of a player hand; `aces_split` says whether the hands come
    /// from splitting aces.
    pub fn player_hand_value(&self, hand: &Vec<Card>, aces_split: bool) -> (value: HandValue)
        requires
            low_sum(hand@) <= u8::MAX,
        ensures
            value == hand_value(hand@, self.rules, aces_split),
    {
        self.hand_value_base(hand, aces_split)
    }

    /// The value of the dealer's visible cards. A dealer hand never counts
    /// as split.
    pub fn dealer_hand_value(&self, hand: &Vec<Card>) -> (value: HandValue)
        requires
            low_sum(hand@) <= u8::MAX,
        ensures
            value == hand_value(hand@, self.rules, false),
    {
        self.hand_value_base(hand, false)
    }
}

/// Whether two ranks make a natural; see [`is_natural`].
fn natural_pair(first: FaceValue, second: FaceValue, ten_counts: bool) -> (b: bool)
    ensures
        b == is_natural(first, second, ten_counts),
{
    match (first, second) {
        (FaceValue::Ace, FaceValue::Ten) | (FaceValue::Ten, FaceValue::Ace) => ten_counts,
        (FaceValue::Ace, FaceValue::Jack)
        | (FaceValue::Ace, FaceValue::Queen)
        | (FaceValue::Ace, FaceValue::King)
        | (FaceValue::Jack, FaceValue::Ace)
        | (FaceValue::Queen, FaceValue::Ace)
        | (FaceValue::King, FaceValue::Ace) => true,
        _ => false,
    }
}

} // verus!
