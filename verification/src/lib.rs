//! Recommendation query-and-rank engine for dining locations.
//!
//! The engine composes an optional-predicate filter over a candidate store,
//! scores each candidate deterministically from clamped preference weights,
//! ranks and truncates the scored list, and memoizes results behind a
//! content-addressed cache key.
//!
//! Scores are fixed-point: weights and score components are integers in
//! thousandths (`0 ..= 1000` stands for `0.0 ..= 1.0`), so a weighted score
//! is an integer in millionths. This keeps every scoring rule exact and
//! free of rounding surprises.

pub mod cache;
pub mod enrich;
pub mod fingerprint;
pub mod ingest;
pub mod predicate;
pub mod rank;
pub mod schema;
pub mod scoring;
pub mod service;
