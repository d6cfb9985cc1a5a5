//! A rules engine for one round of Blackjack.
//!
//! The round is a finite-state machine over a shoe, a dealer hand and up to
//! four player hands. Every function that reads or advances the round states
//! its result over a mathematical model of the table, and the statement is
//! proved.

pub mod blackjack;
pub mod constants;
pub mod monte_carlo;
pub mod random;
pub mod terminal;
