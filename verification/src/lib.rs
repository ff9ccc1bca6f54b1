//! Core of an interactive terminal fuzzy finder: an append-only corpus of
//! delimiter-separated entries, an exact ranking pipeline over that corpus,
//! and the controller state machine that turns key input, corpus growth and
//! finished ranking jobs into deterministic state transitions.
//!
//! Scores are exact rationals, so ranking is a pure function of its inputs:
//! the same corpus, query and options always produce the same ranked list.

pub mod corpus;
pub mod error;
pub mod events;
pub mod finder;
pub mod ingest;
pub mod job;
pub mod laws;
pub mod order;
pub mod rank;
pub mod score;
pub mod text;
pub mod utils;
