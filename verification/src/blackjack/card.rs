//! Playing cards and what each card counts for.

use vstd::prelude::*;

verus! {

/// The four suits.
#[derive(Debug, Clone, Copy, PartialEq, Eq, Structural)]
pub enum Suit {
    Hearts,
    Diamonds,
    Clubs,
    Spades,
}

/// The thirteen ranks, from the two up to the ace.
#[derive(Debug, Clone, Copy, PartialEq, Eq, Structural)]
pub enum FaceValue {
    Two,
    Three,
    Four,
    Five,
    Six,
    Seven,
    Eight,
    Nine,
    Ten,
    Jack,
    Queen,
    King,
    Ace,
}

/// A card on the table or in the shoe. A card that lies face down counts
/// for nothing until it is turned.
#[derive(Debug, Clone, Copy, PartialEq, Eq, Structural)]
pub struct Card {
    pub suit: Suit,
    pub face_value: FaceValue,
    pub face_down: bool,
}

impl Suit {
    /// The one-character symbol of the suit.
    pub open spec fn symbol(self) -> Seq<char> {
        match self {
            Suit::Hearts => "♥"@,
            Suit::Diamonds => "♦"@,
            Suit::Clubs => "♣"@,
            Suit::Spades => "♠"@,
        }
    }

    /// The suit's symbol as an owned string.
    pub fn to_string(&self) -> (s: String)
        ensures
            s@ == self.symbol(),
    {
        match self {
            Suit::Hearts => "♥".to_owned(),
            Suit::Diamonds => "♦".to_owned(),
            Suit::Clubs => "♣".to_owned(),
            Suit::Spades => "♠".to_owned(),
        }
    }
}

impl FaceValue {
    /// The rank as it is printed on the card.
    pub open spec fn label(self) -> Seq<char> {
        match self {
            FaceValue::Two => "2"@,
            FaceValue::Three => "3"@,
            FaceValue::Four => "4"@,
            FaceValue::Five => "5"@,
            FaceValue::Six => "6"@,
            FaceValue::Seven => "7"@,
            FaceValue::Eight => "8"@,
            FaceValue::Nine => "9"@,
            FaceValue::Ten => "10"@,
            FaceValue::Jack => "J"@,
            FaceValue::Queen => "Q"@,
            FaceValue::King => "K"@,
            FaceValue::Ace => "A"@,
        }
    }

    /// What the rank counts for with the ace taken low: 2 to 9 at face
    /// value, ten and the court cards 10, the ace 1.
    pub open spec fn points(self) -> nat {
        match self {
            FaceValue::Two => 2,
            FaceValue::Three => 3,
            FaceValue::Four => 4,
            FaceValue::Five => 5,
            FaceValue::Six => 6,
            FaceValue::Seven => 7,
            FaceValue::Eight => 8,
            FaceValue::Nine => 9,
            FaceValue::Ten | FaceValue::Jack | FaceValue::Queen | FaceValue::King => 10,
            FaceValue::Ace => 1,
        }
    }

    /// Ten, jack, queen or king.
    pub open spec fn is_ten_valued(self) -> bool {
        self.points() == 10
    }

    /// The printed rank as an owned string.
    pub fn to_string(&self) -> (s: String)
        ensures
            s@ == self.label(),
    {
        match self {
            FaceValue::Two => "2".to_owned(),
            FaceValue::Three => "3".to_owned(),
            FaceValue::Four => "4".to_owned(),
            FaceValue::Five => "5".to_owned(),
            FaceValue::Six => "6".to_owned(),
            FaceValue::Seven => "7".to_owned(),
            FaceValue::Eight => "8".to_owned(),
            FaceValue::Nine => "9".to_owned(),
            FaceValue::Ten => "10".to_owned(),
            FaceValue::Jack => "J".to_owned(),
            FaceValue::Queen => "Q".to_owned(),
            FaceValue::King => "K".to_owned(),
            FaceValue::Ace => "A".to_owned(),
        }
    }
}

impl Card {
    /// What the card counts for: nothing while it lies face down, else its
    /// rank's points, with a visible ace counting 11 where `ace_as_11` asks
    /// for it.
    pub open spec fn points(self, ace_as_11: bool) -> nat {
        if self.face_down {
            0
        } else if self.face_value == FaceValue::Ace && ace_as_11 {
            11
        } else {
            self.face_value.points()
        }
    }

    /// A face-up ace.
    pub open spec fn is_visible_ace(self) -> bool {
        !self.face_down && self.face_value == FaceValue::Ace
    }

    /// How the card is shown: a question mark while it lies face down, else
    /// rank and suit.
    pub open spec fn shown(self) -> Seq<char> {
        if self.face_down {
            "?"@
        } else {
            self.face_value.label() + self.suit.symbol()
        }
    }

    /// The card as it is shown to the player.
    pub fn to_string(&self) -> (s: String)
        ensures
            s@ == self.shown(),
    {
        if self.face_down {
            "?".to_owned()
        } else {
            let mut s = self.face_value.to_string();
            let suit = self.suit.to_string();
            s.append(suit.as_str());
            s
        }
    }
}

/// What `card` counts for in a hand: see [`Card::points`].
pub fn card_value(card: &Card, with_ace_as_11: bool) -> (v: u8)
    ensures
        v == card.points(with_ace_as_11),
        v <= 11,
{
    if card.face_down {
        0
    } else {
        match card.face_value {
            FaceValue::Two => 2,
            FaceValue::Three => 3,
            FaceValue::Four => 4,
            FaceValue::Five => 5,
            FaceValue::Six => 6,
            FaceValue::Seven => 7,
            FaceValue::Eight => 8,
            FaceValue::Nine => 9,
            FaceValue::Ten | FaceValue::Jack | FaceValue::Queen | FaceValue::King => 10,
            FaceValue::Ace => {
                if with_ace_as_11 {
                    11
                } else {
                    1
                }
            },
        }
    }
}

} // verus!
