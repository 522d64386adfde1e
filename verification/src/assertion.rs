//! The assertion and modifier traits, and the builder that chains them.
use vstd::prelude::*;

use std::marker::PhantomData;

use crate::context::{AssertionContext, AssertionContextBuilder, ContextView};
use crate::general::modifiers::Root;
use crate::metadata::Annotated;

verus! {

/// Evaluates a subject and determines whether it satisfies a condition.
///
/// Assertions take a value, decide whether it satisfies a condition, and
/// return a success or a failure (or an output that becomes one), possibly
/// attaching context that explains a failure. Assertions created by
/// modifiers wrap other assertions and usually transform the subject, the
/// output, or both.
///
/// `accepts` states what an assertion needs from the context and subject it
/// runs on (for example, that there is a current frame to annotate), and
/// `produces` relates those to the outputs it may give.
pub trait Assertion<T>: Sized {
    /// The output type from executing this assertion.
    type Output;

    /// Whether this assertion can run on `subject` in context `cx`.
    /// An implementation that does not define it is never run by verified
    /// code.
    open spec fn accepts(&self, cx: ContextView, subject: T) -> bool {
        false
    }

    /// Whether `out` is an output that running this assertion on `subject`
    /// in context `cx` may give.
    /// An implementation that does not define it promises nothing of the
    /// result.
    open spec fn produces(&self, cx: ContextView, subject: T, out: Self::Output) -> bool {
        true
    }

    /// Whether this assertion can run on an annotated subject.
    open spec fn accepts_annotated(&self, cx: ContextView, subject: Annotated<T>) -> bool {
        self.accepts(cx, subject.value)
    }

    /// Whether `out` is an output that running this assertion on an
    /// annotated subject may give.
    open spec fn produces_annotated(
        &self,
        cx: ContextView,
        subject: Annotated<T>,
        out: Self::Output,
    ) -> bool {
        self.produces(cx, subject.value, out)
    }

    /// Executes this assertion on a given subject.
    fn execute(self, cx: AssertionContext, subject: T) -> (out: Self::Output)
        requires
            self.accepts(cx@, subject),
        ensures
            self.produces(cx@, subject, out),
    ;

    /// Executes this assertion on an annotated subject. Most assertions
    /// execute on the value itself; assertions that need the representations
    /// of the subject use them here.
    fn execute_annotated(self, cx: AssertionContext, subject: Annotated<T>) -> (out: Self::Output)
        requires
            self.accepts_annotated(cx@, subject),
        ensures
            self.produces_annotated(cx@, subject, out),
    ;
}

/// Modifies an assertion.
///
/// Modifiers wrap other modifiers, and wrap the assertion they receive in an
/// assertion of their own before passing it to their inner modifier. The
/// chain is applied from the last modifier back to the root, which finally
/// executes the composite assertion on the subject.
pub trait AssertionModifier<A>: Sized {
    /// The output type from applying this modifier to an assertion.
    type Output;

    /// Whether this modifier can be applied to `next` in context `cx`.
    /// An implementation that does not define it is never run by verified
    /// code.
    open spec fn admits(&self, cx: ContextView, next: A) -> bool {
        false
    }

    /// Whether `out` is an output that applying this modifier to `next` in
    /// context `cx` may give.
    /// An implementation that does not define it promises nothing of the
    /// result.
    open spec fn yields(&self, cx: ContextView, next: A, out: Self::Output) -> bool {
        true
    }

    /// Applies this modifier to a given assertion, then executes the
    /// assertion.
    fn apply(self, cx: AssertionContextBuilder, next: A) -> (out: Self::Output)
        requires
            self.admits(cx.inner@, next),
        ensures
            self.yields(cx.inner@, next, out),
    ;
}

/// Builds an assertion: holds the chain of modifiers applied so far, for a
/// subject of type `T` at the end of the chain.
#[must_use]
pub struct AssertionBuilder<T, M> {
    pub modifier: M,
    pub marker: PhantomData<T>,
}

impl<T> AssertionBuilder<T, Root<T>> {
    /// Starts building an assertion on a subject.
    pub fn __new(subject: Annotated<T>) -> (r: Self)
        ensures
            r.modifier == (Root::<T> { subject }),
    {
        AssertionBuilder { modifier: Root::new(subject), marker: PhantomData }
    }
}

impl<T, M> AssertionBuilder<T, M> {
    /// Applies a modifier to the assertion: `wrap` receives the current
    /// chain and returns the new one.
    pub fn modify<T2, M2, F: FnOnce(M) -> M2>(builder: Self, wrap: F) -> (r: AssertionBuilder<
        T2,
        M2,
    >)
        requires
            call_requires(wrap, (builder.modifier,)),
        ensures
            call_ensures(wrap, (builder.modifier,), r.modifier),
    {
        AssertionBuilder { modifier: wrap(builder.modifier), marker: PhantomData }
    }

    /// Applies the chain of modifiers to the final assertion `next`, and
    /// executes it.
    pub fn __apply<A>(builder: Self, cx: AssertionContextBuilder, next: A) -> (r: M::Output) where
        M: AssertionModifier<A>,
        requires
            builder.modifier.admits(cx.inner@, next),
        ensures
            builder.modifier.yields(cx.inner@, next, r),
    {
        builder.modifier.apply(cx, next)
    }
}

/// The context a step starts with: the next frame becomes current, and the
/// subject it received is recorded in it.
pub open spec fn received_context<T>(cx: ContextView, subject: Annotated<T>) -> ContextView {
    cx.advanced().annotated("received"@, received_text(subject))
}

/// How the subject a step received is recorded.
pub open spec fn received_text<T>(subject: Annotated<T>) -> Seq<char> {
    match subject.kind {
        crate::metadata::AnnotatedKind::Debug => subject.repr@,
        crate::metadata::AnnotatedKind::Stringify => "? (no debug representation)"@,
    }
}

/// Records the subject received by the next step of an assertion in a
/// fresh frame, then runs that step.
pub fn __annotate_assertion<T, O, F: FnOnce(AssertionContext, T) -> O>(
    cx: AssertionContext,
    subject: Annotated<T>,
    next: F,
) -> (r: O)
    requires
        cx@.remaining.len() > 0,
        forall|c: AssertionContext|
            c@ == received_context(cx@, subject) ==> call_requires(next, (c, subject.value)),
    ensures
        exists|c: AssertionContext|
            c@ == received_context(cx@, subject) && call_ensures(next, (c, subject.value), r),
{
    let mut next_cx = cx.next();
    let received = match subject.kind() {
        crate::metadata::AnnotatedKind::Debug => subject.as_str().to_owned(),
        crate::metadata::AnnotatedKind::Stringify => {
            proof {
                reveal_strlit("? (no debug representation)");
            }
            "? (no debug representation)".to_owned()
        },
    };
    next_cx.annotate("received", received);
    proof {
        reveal_strlit("received");
    }
    next(next_cx, subject.into_inner())
}

} // verus!
