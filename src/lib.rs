//! A pari-mutuel prediction market settlement engine, written as a
//! deterministic state machine whose every transition is verified.

pub mod bond_factory;
pub mod engine;
pub mod laws;
pub mod market;
pub mod prediction_market;
pub mod query;
pub mod types;
