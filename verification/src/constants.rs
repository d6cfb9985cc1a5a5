//! Fixed data: the basic-strategy tables.

pub mod basic_strategy_tables;
