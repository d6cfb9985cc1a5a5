//! The round itself: cards, house rules, hand values and the table.

pub mod advisor;
pub mod card;
pub mod cards;
pub mod checked;
pub mod display;
pub mod hand;
pub mod laws;
pub mod legality;
pub mod outcome;
pub mod round;
pub mod ruleset;
pub mod shoe;
pub mod table;
pub mod transition;

pub use card::{card_value, Card, FaceValue, Suit};
pub use hand::{bust, HandValue};
pub use ruleset::BlackjackRuleset;
pub use table::{BlackjackState, GameState, PlayerAction};
pub use outcome::{hand_outcome, HandOutcome, LossReason, WinReason};
pub use shoe::{init_state, init_state_with_shoe};
pub use checked::EngineError;
