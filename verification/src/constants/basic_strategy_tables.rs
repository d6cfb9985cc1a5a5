//! Basic strategy as three grids. A row is picked by the player's hand, a
//! column by the dealer's upcard: columns run 2, 3, 4, 5, 6, 7, 8, 9, ten
//! and court cards, ace.

use vstd::prelude::*;

verus! {

use self::Strategy::{D, DS, H, P, PH, RH, S};

/// A cell of a strategy grid.
#[derive(Debug, Clone, Copy, PartialEq, Eq, Structural)]
pub enum Strategy {
    /// Hit.
    H,
    /// Stand.
    S,
    /// Double down if possible, otherwise hit.
    D,
    /// Split.
    P,
    /// Double down if possible, otherwise stand.
    DS,
    /// Split if doubling after a split is offered, otherwise hit.
    PH,
    /// Surrender if possible, otherwise hit.
    RH,
}

/// Hard totals. The first row serves every total up to 8, the rows after it
/// the totals 9 to 20.
pub const HARD: [[Strategy; 10]; 13] = [
    [H, H, H, H, H, H, H, H, H, H],
    [H, D, D, D, D, H, H, H, H, H],
    [D, D, D, D, D, D, D, D, H, H],
    [D, D, D, D, D, D, D, D, D, D],
    [H, H, S, S, S, H, H, H, H, H],
    [S, S, S, S, S, H, H, H, H, H],
    [S, S, S, S, S, H, H, H, H, H],
    [S, S, S, S, S, H, H, H, RH, H],
    [S, S, S, S, S, H, H, RH, RH, RH],
    [S, S, S, S, S, S, S, S, S, S],
    [S, S, S, S, S, S, S, S, S, S],
    [S, S, S, S, S, S, S, S, S, S],
    [S, S, S, S, S, S, S, S, S, S],
];

/// Soft totals, one row for each total from 12 to 20.
pub const SOFT: [[Strategy; 10]; 9] = [
    [H, H, H, H, H, H, H, H, H, H],
    [H, H, H, D, D, H, H, H, H, H],
    [H, H, H, D, D, H, H, H, H, H],
    [H, H, D, D, D, H, H, H, H, H],
    [H, H, D, D, D, H, H, H, H, H],
    [H, D, D, D, D, H, H, H, H, H],
    [S, DS, DS, DS, DS, S, S, H, H, H],
    [S, S, S, S, S, S, S, S, S, S],
    [S, S, S, S, S, S, S, S, S, S],
];

/// Pairs, one row for each rank of the pair in the order of the columns.
pub const SPLIT: [[Strategy; 10]; 10] = [
    [PH, PH, P, P, P, P, H, H, H, H],
    [PH, PH, P, P, P, P, H, H, H, H],
    [H, H, H, PH, PH, H, H, H, H, H],
    [D, D, D, D, D, D, D, D, H, H],
    [PH, P, P, P, P, H, H, H, H, H],
    [P, P, P, P, P, P, H, H, H, H],
    [P, P, P, P, P, P, P, P, P, P],
    [P, P, P, P, P, S, P, P, S, S],
    [S, S, S, S, S, S, S, S, S, S],
    [P, P, P, P, P, P, P, P, P, P],
];

} // verus!
