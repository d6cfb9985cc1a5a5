//! The house rules a round is played under.

use vstd::prelude::*;

verus! {

/// The house's limit on splitting aces; see [`SplitAces::limit`].
#[derive(Debug, Clone, Copy, PartialEq, Eq, Structural)]
pub enum SplitAces {
    NotAllowed,
    Once,
    Twice,
    Thrice,
}

/// How many hands the player may hold at once.
#[derive(Debug, Clone, Copy, PartialEq, Eq, Structural)]
pub enum MaxHandsAfterSplit {
    One,
    Two,
    Three,
    Four,
}

/// On which two-card totals the player may double down.
#[derive(Debug, Clone, Copy, PartialEq, Eq, Structural)]
pub enum DoubleDownOn {
    Any,
    NineTenEleven,
    TenEleven,
}

/// What a winning natural pays on top of the returned stake, as a ratio:
/// 3 to 2 pays one and a half times the stake.
#[derive(Debug, Clone, Copy, PartialEq, Eq, Structural)]
pub struct Payout {
    pub numerator: u32,
    pub denominator: u32,
}

/// One house's rules. The value is plain data and is never changed by the
/// engine.
#[derive(Debug, Clone, Copy, PartialEq, Eq, Structural)]
pub struct BlackjackRuleset {
    /// The player may give up an unsplit two-card hand for half the stake
    /// while the dealer's hole card is still hidden.
    pub surrender: bool,
    /// The dealer stands on a soft total of 17 or more.
    pub dealer_stands_on_all_17: bool,
    /// The dealer looks at the hole card as soon as it is dealt and ends the
    /// round on a natural.
    pub dealer_peeks: bool,
    pub split_aces: SplitAces,
    /// A hand made by splitting aces may take further cards.
    pub hit_on_split_ace: bool,
    pub max_hands_after_split: MaxHandsAfterSplit,
    pub double_down_on: DoubleDownOn,
    /// Doubling after a split is worth planning for: read by the advisor
    /// when it weighs a split, and by no rule of play.
    pub double_after_split: bool,
    /// Held for the house; no rule of play reads it.
    pub double_on_split_ace: bool,
    /// Held for whoever settles the stakes; no rule of play reads it.
    pub blackjack_payout: Payout,
    /// An ace with a ten (not only with a court card) is a natural.
    pub ace_and_ten_counts_as_blackjack: bool,
    /// A 21 on two cards after splitting aces is a natural.
    pub split_ace_can_be_blackjack: bool,
}

impl SplitAces {
    /// A pair of aces may be split while the number of ace hands that
    /// earlier splits of aces have made is below this limit.
    pub open spec fn limit(self) -> nat {
        match self {
            SplitAces::NotAllowed => 0,
            SplitAces::Once => 1,
            SplitAces::Twice => 2,
            SplitAces::Thrice => 3,
        }
    }
}

impl MaxHandsAfterSplit {
    /// The cap on the number of hands.
    pub open spec fn cap(self) -> nat {
        match self {
            MaxHandsAfterSplit::One => 1,
            MaxHandsAfterSplit::Two => 2,
            MaxHandsAfterSplit::Three => 3,
            MaxHandsAfterSplit::Four => 4,
        }
    }
}

} // verus!
