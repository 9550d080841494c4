//! Typed building blocks for documents stored in a shared document store, and
//! a lease-based mutex over those documents.
//!
//! The mutex lets independent nodes claim exclusive, time-bounded ownership of
//! documents through atomic conditional updates alone. Everything that decides
//! or computes lives here; the caller performs the store round trips and the
//! waiting that the decisions ask for.

pub mod aql;
pub mod constants;
pub mod documents;
pub mod models;
pub mod traits;
pub mod types;
pub mod utilities;
