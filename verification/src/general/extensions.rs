//! The general-purpose assertions and modifiers, offered on the builder.
use vstd::prelude::*;

use crate::assertion::AssertionBuilder;
use crate::general::{
    Direction, MapModifier, NotModifier, ToCmpAssertion, ToEqual, ToSatisfy,
    ToSatisfyWith,
};
use crate::metadata::Annotated;
use crate::output::AssertionError;

verus! {

/// General-purpose assertions and modifiers.
pub trait GeneralAssertions<T, M>: Sized {
    /// Inverts the result of the rest of the assertion: it succeeds if and
    /// only if the rest of the assertion fails.
    fn not(self) -> AssertionBuilder<T, NotModifier<M>>;

    /// Applies a mapping function to the subject before the rest of the
    /// assertion.
    fn map<U, F>(self, f: Annotated<F>) -> AssertionBuilder<U, MapModifier<M, F>>;

    /// Asserts that the subject satisfies a predicate.
    fn to_satisfy<F>(&self, predicate: Annotated<F>) -> (r: ToSatisfy<F>) where
        F: FnOnce(T) -> bool,
        ensures
            r.predicate == predicate,
    {
        ToSatisfy::new(predicate)
    }

    /// Asserts that the subject satisfies a series of inner assertions, run
    /// by a function that returns their combined result.
    fn to_satisfy_with<F>(&self, predicate: Annotated<F>) -> (r: ToSatisfyWith<F>) where
        F: FnOnce(T) -> Result<(), AssertionError>,
        ensures
            r.predicate == predicate,
    {
        ToSatisfyWith::new(predicate)
    }

    /// Asserts that the subject is equal to the given value.
    fn to_equal<U>(&self, expected: Annotated<U>) -> (r: ToEqual<U>) where
        T: PartialEq<U>,
        ensures
            r.expected == expected,
    {
        ToEqual::new(expected)
    }

    /// Asserts that the subject is less than the given value.
    fn to_be_less_than<U>(&self, boundary: Annotated<U>) -> (r: ToCmpAssertion<U>) where
        T: PartialOrd<U>,
        ensures
            r.boundary == boundary,
            r.direction == Direction::Less,
            !r.allow_eq,
            r.cmp_message@ == "less than"@,
    {
        proof {
            reveal_strlit("less than");
        }
        ToCmpAssertion::new(boundary, Direction::Less, false, "less than")
    }

    /// Asserts that the subject is less than or equal to the given value.
    fn to_be_less_than_or_equal_to<U>(&self, boundary: Annotated<U>) -> (r: ToCmpAssertion<U>) where
        T: PartialOrd<U>,
        ensures
            r.boundary == boundary,
            r.direction == Direction::Less,
            r.allow_eq,
            r.cmp_message@ == "less than or equal to"@,
    {
        ToCmpAssertion::new(boundary, Direction::Less, true, "less than or equal to")
    }

    /// Asserts that the subject is greater than the given value.
    fn to_be_greater_than<U>(&self, boundary: Annotated<U>) -> (r: ToCmpAssertion<U>) where
        T: PartialOrd<U>,
        ensures
            r.boundary == boundary,
            r.direction == Direction::Greater,
            !r.allow_eq,
            r.cmp_message@ == "greater than"@,
    {
        ToCmpAssertion::new(boundary, Direction::Greater, false, "greater than")
    }

    /// Asserts that the subject is greater than or equal to the given value.
    fn to_be_greater_than_or_equal_to<U>(&self, boundary: Annotated<U>) -> (r: ToCmpAssertion<
        U,
    >) where
        T: PartialOrd<U>,
        ensures
            r.boundary == boundary,
            r.direction == Direction::Greater,
            r.allow_eq,
            r.cmp_message@ == "greater than or equal to"@,
    {
        ToCmpAssertion::new(boundary, Direction::Greater, true, "greater than or equal to")
    }
}

impl<T, M> GeneralAssertions<T, M> for AssertionBuilder<T, M> {
    fn not(self) -> (r: AssertionBuilder<T, NotModifier<M>>)
        ensures
            r.modifier == (NotModifier { prev: self.modifier }),
    {
        AssertionBuilder::modify(self, NotModifier::new)
    }

    fn map<U, F>(self, f: Annotated<F>) -> (r: AssertionBuilder<U, MapModifier<M, F>>)
        ensures
            r.modifier == (MapModifier { prev: self.modifier, map: f }),
    {
        let wrap = (move |prev: M| -> (r: MapModifier<M, F>)
            ensures
                r == (MapModifier { prev, map: f }),
            { MapModifier::new(prev, f) });
        AssertionBuilder::modify(self, wrap)
    }
}

} // verus!
