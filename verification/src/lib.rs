//! Discovery of the buildable outputs of a flake and verification of their
//! presence in a binary cache.
//!
//! The crate holds the decisions of the tool and none of its I/O: the
//! evaluator and the cache are reached by the caller, who hands their answers
//! to the functions here as plain values.

pub mod cache;
pub mod discover;
pub mod eval;
pub mod json;
pub mod pipeline;
pub mod report;
pub mod resolve;
pub mod text;
