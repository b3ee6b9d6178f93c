//! Inner Circle Trader analysis: fair value gaps, order blocks, market
//! structure, and the entry signals and order intents drawn from them.
pub mod analysis;
pub mod behaviour;
pub mod decimal;
pub mod laws;
pub mod model;
pub mod signal;
pub mod spec;
pub mod strategy;
