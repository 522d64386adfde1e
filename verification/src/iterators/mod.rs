//! Assertions and modifiers for sequences of values.
pub mod assertions;
pub mod extensions;
pub mod functions;
pub mod modifiers;
pub mod outputs;

pub use assertions::{ToContain, ToContainExactly};
pub use outputs::{MergeStrategy, MergeableOutput, MergeableResult};
pub use modifiers::{
    AsUtf8Assertion, AsUtf8Modifier, CountAssertion, CountModifier, MergeAssertion, MergeModifier,
    NthAssertion, NthModifier, ZipAssertion, ZipModifier,
};
pub use extensions::IteratorAssertions;
