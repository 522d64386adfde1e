//! Common, general purpose assertions and modifiers.
pub mod assertions;
pub mod comparisons;
pub mod extensions;
pub mod functions;
pub mod modifiers;
pub mod outputs;

pub use outputs::{
    FinalizableResult, InitializableOutput, IntoInitializableOutput, InvertibleOutput,
    InvertibleResult, UnwrappableOutput,
};
pub use modifiers::{
    AnnotateAssertion, AnnotateModifier, MapAssertion, MapModifier, NotAssertion, NotModifier,
    Root, __annotate,
};
pub use assertions::{
    to_satisfy_all, to_satisfy_any, Direction, ToBeOneOf, ToCmpAssertion, ToEqual, ToSatisfy,
    ToSatisfyMergeAssertion, ToSatisfyWith,
};
pub use extensions::GeneralAssertions;
