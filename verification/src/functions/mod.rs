//! Assertions and modifiers for functions.
pub mod apply;
pub mod extensions;
pub mod modifiers;
pub mod private;

pub use apply::ApplyFnOnce;
pub use extensions::{FunctionAssertions, SimpleFunctionAssertions};
pub use modifiers::{ToPanic, WhenCalledAssertion, WhenCalledModifier};
