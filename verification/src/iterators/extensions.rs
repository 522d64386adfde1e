//! The assertions and modifiers for sequences, offered on the builder.
use vstd::prelude::*;

use crate::assertion::AssertionBuilder;
use crate::iterators::{
    AsUtf8Modifier, CountModifier, MergeModifier, MergeStrategy, NthModifier, ToContain,
    ToContainExactly, ZipModifier,
};
use crate::metadata::Annotated;

verus! {

/// Assertions and modifiers for sequences of values.
pub trait IteratorAssertions<X, M>: Sized {
    /// Executes the rest of the assertion on every element of the subject,
    /// and succeeds if and only if none of the executions fail.
    fn all(self) -> AssertionBuilder<X, MergeModifier<M>>;

    /// Executes the rest of the assertion on every element of the subject,
    /// and succeeds if and only if at least one execution succeeds.
    fn any(self) -> AssertionBuilder<X, MergeModifier<M>>;

    /// Executes the rest of the assertion on the number of elements of the
    /// subject.
    fn count(self) -> AssertionBuilder<usize, CountModifier<M>>;

    /// Executes the rest of the assertion on the element at a zero-based
    /// index; fails if there is no such element.
    fn nth(self, index: Annotated<usize>) -> AssertionBuilder<X, NthModifier<M>>;

    /// Reads the subject (a sequence of bytes) as UTF-8 encoded text.
    fn as_utf8(self) -> AssertionBuilder<String, AsUtf8Modifier<M>>;

    /// Pairs up the elements of the subject with those of another sequence.
    fn zip<U>(self, other: Annotated<Vec<U>>) -> AssertionBuilder<Vec<(X, U)>, ZipModifier<U, M>>;

    /// Asserts that the subject contains an element.
    fn to_contain<U>(&self, expected: Annotated<U>) -> (r: ToContain<U>) where
        X: PartialEq<U>,
        ensures
            r.expected == expected,
    {
        ToContain::new(expected)
    }

    /// Asserts that the subject is equal, element by element, to the given
    /// sequence.
    fn to_contain_exactly<U>(&self, expected: Annotated<Vec<U>>) -> (r: ToContainExactly<U>) where
        X: PartialEq<U>,
        ensures
            r.expected == expected,
    {
        ToContainExactly::new(expected)
    }
}

impl<X, M> IteratorAssertions<X, M> for AssertionBuilder<Vec<X>, M> {
    fn all(self) -> (r: AssertionBuilder<X, MergeModifier<M>>)
        ensures
            r.modifier == (MergeModifier { prev: self.modifier, strategy: MergeStrategy::All }),
    {
        let wrap = (|prev: M| -> (r: MergeModifier<M>)
            ensures
                r == (MergeModifier { prev, strategy: MergeStrategy::All }),
            { MergeModifier::new(prev, MergeStrategy::All) });
        AssertionBuilder::modify(self, wrap)
    }

    fn any(self) -> (r: AssertionBuilder<X, MergeModifier<M>>)
        ensures
            r.modifier == (MergeModifier { prev: self.modifier, strategy: MergeStrategy::Any }),
    {
        let wrap = (|prev: M| -> (r: MergeModifier<M>)
            ensures
                r == (MergeModifier { prev, strategy: MergeStrategy::Any }),
            { MergeModifier::new(prev, MergeStrategy::Any) });
        AssertionBuilder::modify(self, wrap)
    }

    fn count(self) -> (r: AssertionBuilder<usize, CountModifier<M>>)
        ensures
            r.modifier == (CountModifier { prev: self.modifier }),
    {
        AssertionBuilder::modify(self, CountModifier::new)
    }

    fn nth(self, index: Annotated<usize>) -> (r: AssertionBuilder<X, NthModifier<M>>)
        ensures
            r.modifier == (NthModifier { prev: self.modifier, index }),
    {
        let wrap = (move |prev: M| -> (r: NthModifier<M>)
            ensures
                r == (NthModifier { prev, index }),
            { NthModifier::new(prev, index) });
        AssertionBuilder::modify(self, wrap)
    }

    fn as_utf8(self) -> (r: AssertionBuilder<String, AsUtf8Modifier<M>>)
        ensures
            r.modifier == (AsUtf8Modifier { prev: self.modifier }),
    {
        AssertionBuilder::modify(self, AsUtf8Modifier::new)
    }

    fn zip<U>(self, other: Annotated<Vec<U>>) -> (r: AssertionBuilder<Vec<(X, U)>, ZipModifier<U, M>>)
        ensures
            r.modifier == (ZipModifier { prev: self.modifier, other }),
    {
        let wrap = (move |prev: M| -> (r: ZipModifier<U, M>)
            ensures
                r == (ZipModifier { prev, other }),
            { ZipModifier::new(prev, other) });
        AssertionBuilder::modify(self, wrap)
    }
}

} // verus!
