//! Composable, self-describing assertions.
//!
//! An assertion is built from a chain of modifiers ending in a final
//! assertion. The subject flows from the root of the chain through every
//! modifier to the assertion, and the outcome flows back, carrying a context
//! that records the execution path for failure reports.
pub mod assertion;
pub mod context;
pub mod diff;
pub mod functions;
pub mod futures;
pub mod general;
pub mod iterators;
pub mod laws;
pub mod metadata;
pub mod output;
pub mod text;
pub mod vecs;

