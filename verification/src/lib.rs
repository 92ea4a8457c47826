//! A question-and-answer data-access layer.
//!
//! Two resources, questions and answers, live in a store keyed by UUID
//! strings; each answer references the question it belongs to. The crate
//! holds the identifier grammar, the storage interfaces with their
//! contracts, an in-memory store that implements them, the two-level error
//! taxonomy with its classification rules, and the service layer that maps
//! storage failures to handler-facing errors.

pub mod handlers;
pub mod laws;
pub mod models;
pub mod persistence;
pub mod uuid_mint;
pub mod uuid_text;
