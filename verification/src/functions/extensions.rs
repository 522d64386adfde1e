//! The assertions and modifiers for functions, offered on the builder.
use vstd::prelude::*;

use crate::assertion::AssertionBuilder;
use crate::functions::{ApplyFnOnce, ToPanic, WhenCalledModifier};
use crate::metadata::{Annotated, AnnotatedKind};

verus! {

/// Whether `a` is the annotation of an empty argument list: the unit value,
/// shown as `()` by its debug representations, with no display
/// representation.
pub open spec fn is_no_arguments(a: Annotated<()>) -> bool {
    &&& a.value == ()
    &&& a.kind == AnnotatedKind::Debug
    &&& a.repr@ == "()"@
    &&& a.pretty matches Some(p) && p@ == "()"@
    &&& a.display is None
}

/// The annotation of an empty argument list.
fn no_arguments() -> (r: Annotated<()>)
    ensures
        is_no_arguments(r),
{
    proof {
        reveal_strlit("()");
    }
    Annotated::from_debug((), "()".to_owned(), "()".to_owned(), None)
}

/// Assertions and modifiers for functions that accept no arguments.
pub trait SimpleFunctionAssertions<F, O, M>: Sized where F: FnOnce() -> O {
    /// Executes the rest of the assertion on the value returned by the
    /// subject.
    fn when_called(self) -> AssertionBuilder<O, WhenCalledModifier<M>>;

    /// Asserts that the subject panics when called.
    fn to_panic(&self) -> (r: ToPanic)
        ensures
            is_no_arguments(r.args),
    {
        ToPanic::new(no_arguments())
    }
}

impl<F: FnOnce() -> O, O, M> SimpleFunctionAssertions<F, O, M> for AssertionBuilder<F, M> {
    fn when_called(self) -> (r: AssertionBuilder<O, WhenCalledModifier<M>>)
        ensures
            r.modifier.prev == self.modifier,
            is_no_arguments(r.modifier.args),
    {
        let args = no_arguments();
        let wrap = (move |prev: M| -> (r: WhenCalledModifier<M>)
            ensures
                r == (WhenCalledModifier { prev, args }),
            { WhenCalledModifier::new(prev, args) });
        AssertionBuilder::modify(self, wrap)
    }
}

/// Assertions and modifiers for functions of up to twelve arguments, which
/// are passed as a tuple.
pub trait FunctionAssertions<F, I, M>: Sized where F: ApplyFnOnce<I> {
    /// Executes the rest of the assertion on the value returned by the
    /// subject when called with the given arguments.
    fn when_called_with(self, args: Annotated<I>) -> AssertionBuilder<F::Output, WhenCalledModifier<M, I>>;

    /// Asserts that the subject panics when called with the given
    /// arguments.
    fn to_panic_with(&self, args: Annotated<I>) -> (r: ToPanic<I>)
        ensures
            r.args == args,
    {
        ToPanic::new(args)
    }
}

impl<F: ApplyFnOnce<I>, I, M> FunctionAssertions<F, I, M> for AssertionBuilder<F, M> {
    fn when_called_with(self, args: Annotated<I>) -> (r: AssertionBuilder<F::Output, WhenCalledModifier<M, I>>)
        ensures
            r.modifier == (WhenCalledModifier { prev: self.modifier, args }),
    {
        let wrap = (move |prev: M| -> (r: WhenCalledModifier<M, I>)
            ensures
                r == (WhenCalledModifier { prev, args }),
            { WhenCalledModifier::new(prev, args) });
        AssertionBuilder::modify(self, wrap)
    }
}

} // verus!
