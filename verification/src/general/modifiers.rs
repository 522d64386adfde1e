//! The general modifiers: the root of every chain, inversion, mapping, and
//! the annotation step that runs before every modifier and assertion.
use vstd::prelude::*;

use crate::assertion::{received_context, Assertion, AssertionModifier};
use crate::context::{AssertionContext, AssertionContextBuilder, ContextView};
use crate::general::InvertibleOutput;
use crate::metadata::{Annotated, AnnotatedKind};

verus! {

/// The root of an assertion: holds the subject and drives the assertion.
#[derive(Clone, Debug)]
pub struct Root<T> {
    pub subject: Annotated<T>,
}

impl<T> Root<T> {
    /// Creates the root for a subject.
    pub(crate) fn new(subject: Annotated<T>) -> (r: Self)
        ensures
            r.subject == subject,
    {
        Root { subject }
    }
}

impl<T, A: Assertion<T>> AssertionModifier<A> for Root<T> {
    type Output = A::Output;

    open spec fn admits(&self, cx: ContextView, next: A) -> bool {
        next.accepts(cx, self.subject.value)
    }

    open spec fn yields(&self, cx: ContextView, next: A, out: A::Output) -> bool {
        next.produces(cx, self.subject.value, out)
    }

    fn apply(self, cx: AssertionContextBuilder, assertion: A) -> (out: A::Output) {
        assertion.execute(cx.inner, self.subject.into_inner())
    }
}

/// Inverts an assertion.
#[derive(Clone, Debug)]
pub struct NotModifier<M> {
    pub prev: M,
}

impl<M> NotModifier<M> {
    /// Creates the modifier on top of a chain.
    pub(crate) fn new(prev: M) -> (r: Self)
        ensures
            r.prev == prev,
    {
        NotModifier { prev }
    }
}

impl<M: AssertionModifier<NotAssertion<A>>, A> AssertionModifier<A> for NotModifier<M> {
    type Output = M::Output;

    open spec fn admits(&self, cx: ContextView, next: A) -> bool {
        self.prev.admits(cx, NotAssertion { next })
    }

    open spec fn yields(&self, cx: ContextView, next: A, out: M::Output) -> bool {
        self.prev.yields(cx, NotAssertion { next }, out)
    }

    fn apply(self, cx: AssertionContextBuilder, next: A) -> (out: M::Output) {
        self.prev.apply(cx, NotAssertion { next })
    }
}

/// Inverts an inner assertion: it succeeds exactly when the inner assertion
/// fails.
#[derive(Clone, Debug)]
pub struct NotAssertion<A> {
    pub next: A,
}

impl<T, A> Assertion<T> for NotAssertion<A> where A: Assertion<T>, A::Output: InvertibleOutput {
    type Output = <A::Output as InvertibleOutput>::Inverted;

    open spec fn accepts(&self, cx: ContextView, subject: T) -> bool {
        &&& self.next.accepts(cx, subject)
        &&& forall|o: A::Output| #[trigger]
            self.next.produces(cx, subject, o) ==> o.invertible_in(cx)
    }

    open spec fn produces(&self, cx: ContextView, subject: T, out: Self::Output) -> bool {
        exists|o: A::Output| #[trigger]
            self.next.produces(cx, subject, o) && o.inverted_in(cx, out)
    }

    fn execute(self, cx: AssertionContext, subject: T) -> (out: Self::Output) {
        let inner = self.next.execute(cx.clone(), subject);
        inner.invert(cx)
    }

    fn execute_annotated(self, cx: AssertionContext, subject: Annotated<T>) -> (out: Self::Output) {
        self.execute(cx, subject.into_inner())
    }
}

/// Maps the subject to a new value before the rest of the assertion.
#[derive(Clone, Debug)]
pub struct MapModifier<M, F> {
    pub prev: M,
    pub map: Annotated<F>,
}

impl<M, F> MapModifier<M, F> {
    /// Creates the modifier on top of a chain.
    pub(crate) fn new(prev: M, map: Annotated<F>) -> (r: Self)
        ensures
            r.prev == prev,
            r.map == map,
    {
        MapModifier { prev, map }
    }
}

impl<M: AssertionModifier<MapAssertion<A, F>>, F, A> AssertionModifier<A> for MapModifier<M, F> {
    type Output = M::Output;

    open spec fn admits(&self, cx: ContextView, next: A) -> bool {
        self.prev.admits(cx, MapAssertion { next, map: self.map })
    }

    open spec fn yields(&self, cx: ContextView, next: A, out: M::Output) -> bool {
        self.prev.yields(cx, MapAssertion { next, map: self.map }, out)
    }

    fn apply(self, cx: AssertionContextBuilder, next: A) -> (out: M::Output) {
        self.prev.apply(cx, MapAssertion { next, map: self.map })
    }
}

/// Maps the subject to a new value and executes an inner assertion on it.
#[derive(Clone, Debug)]
pub struct MapAssertion<A, F> {
    pub next: A,
    pub map: Annotated<F>,
}

impl<A, F> MapAssertion<A, F> {
    /// The context the inner assertion runs in.
    pub open spec fn inner_context(&self, cx: ContextView) -> ContextView {
        cx.annotated("function"@, self.map.repr@)
    }
}

impl<T, U, A: Assertion<U>, F: FnOnce(T) -> U> Assertion<T> for MapAssertion<A, F> {
    type Output = A::Output;

    open spec fn accepts(&self, cx: ContextView, subject: T) -> bool {
        &&& cx.has_frame()
        &&& call_requires(self.map.value, (subject,))
        &&& forall|u: U| #[trigger]
            call_ensures(self.map.value, (subject,), u) ==> self.next.accepts(
                self.inner_context(cx),
                u,
            )
    }

    open spec fn produces(&self, cx: ContextView, subject: T, out: A::Output) -> bool {
        exists|u: U| #[trigger]
            call_ensures(self.map.value, (subject,), u) && self.next.produces(
                self.inner_context(cx),
                u,
                out,
            )
    }

    fn execute(self, cx: AssertionContext, subject: T) -> (out: A::Output) {
        let mut cx = cx;
        let repr = self.map.as_str().to_owned();
        cx.annotate("function", repr);
        proof {
            reveal_strlit("function");
        }
        let map = self.map.into_inner();
        let mapped = map(subject);
        self.next.execute(cx, mapped)
    }

    fn execute_annotated(self, cx: AssertionContext, subject: Annotated<T>) -> (out: A::Output) {
        self.execute(cx, subject.into_inner())
    }
}

/// Records the input of every step and updates the context before it: the
/// next frame becomes current, and the value it receives is annotated. This
/// runs before every modifier and the final assertion of a chain.
#[derive(Clone)]
pub struct AnnotateModifier<M, F> {
    pub prev: M,
    pub annotate: F,
}

/// Adds the annotation step to a chain; `annotate` turns the value passed
/// to the next step into an annotated value.
pub fn __annotate<T, M, F: Fn(T) -> Annotated<T>>(
    builder: crate::assertion::AssertionBuilder<T, M>,
    annotate: F,
) -> (r: crate::assertion::AssertionBuilder<T, AnnotateModifier<M, F>>)
    ensures
        r.modifier == (AnnotateModifier { prev: builder.modifier, annotate }),
{
    crate::assertion::AssertionBuilder { modifier: AnnotateModifier { prev: builder.modifier, annotate }, marker: std::marker::PhantomData }
}

impl<M: AssertionModifier<AnnotateAssertion<A, F>>, F, A> AssertionModifier<A> for AnnotateModifier<
    M,
    F,
> {
    type Output = M::Output;

    open spec fn admits(&self, cx: ContextView, next: A) -> bool {
        self.prev.admits(cx, AnnotateAssertion { next, annotate: self.annotate })
    }

    open spec fn yields(&self, cx: ContextView, next: A, out: M::Output) -> bool {
        self.prev.yields(cx, AnnotateAssertion { next, annotate: self.annotate }, out)
    }

    fn apply(self, cx: AssertionContextBuilder, next: A) -> (out: M::Output) {
        self.prev.apply(cx, AnnotateAssertion { next, annotate: self.annotate })
    }
}

/// The assertion of [`AnnotateModifier`]: starts the next frame, annotates
/// the value it received, and executes the inner assertion on the annotated
/// value.
#[derive(Clone)]
pub struct AnnotateAssertion<A, F> {
    pub next: A,
    pub annotate: F,
}

impl<T, A: Assertion<T>, F: Fn(T) -> Annotated<T>> Assertion<T> for AnnotateAssertion<A, F> {
    type Output = A::Output;

    open spec fn accepts(&self, cx: ContextView, subject: T) -> bool {
        &&& cx.remaining.len() > 0
        &&& call_requires(self.annotate, (subject,))
        &&& forall|a: Annotated<T>| #[trigger]
            call_ensures(self.annotate, (subject,), a) ==> self.next.accepts_annotated(
                received_context(cx, a),
                a,
            )
    }

    open spec fn produces(&self, cx: ContextView, subject: T, out: A::Output) -> bool {
        exists|a: Annotated<T>| #[trigger]
            call_ensures(self.annotate, (subject,), a) && self.next.produces_annotated(
                received_context(cx, a),
                a,
                out,
            )
    }

    /// This assertion only runs on plain subjects.
    open spec fn accepts_annotated(&self, cx: ContextView, subject: Annotated<T>) -> bool {
        false
    }

    fn execute(self, cx: AssertionContext, subject: T) -> (out: A::Output) {
        let mut cx = cx.next();
        let subject = (self.annotate)(subject);
        let received = match subject.kind() {
            AnnotatedKind::Debug => subject.as_str().to_owned(),
            AnnotatedKind::Stringify => "? (no debug representation)".to_owned(),
        };
        proof {
            reveal_strlit("? (no debug representation)");
            reveal_strlit("received");
        }
        cx.annotate("received", received);
        self.next.execute_annotated(cx, subject)
    }

    fn execute_annotated(self, cx: AssertionContext, subject: Annotated<T>) -> (out: A::Output) {
        assert(false);
        unreached()
    }
}

} // verus!
