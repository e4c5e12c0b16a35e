//! Scouting ingestion core: the score estimator, the submission records, and
//! the rules that fold each submission into a team's running aggregate.

pub mod game;
pub mod error;
pub mod aggregate;
pub mod engine;
pub mod laws;
