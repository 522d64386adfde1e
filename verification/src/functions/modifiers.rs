//! Calling the subject, and checking that it panics.
use vstd::prelude::*;

use crate::assertion::{Assertion, AssertionModifier};
use crate::context::{AssertionContext, AssertionContextBuilder, ContextView};
use crate::functions::ApplyFnOnce;
use crate::metadata::Annotated;
use crate::output::{pass_if_view, AssertionOutput};

verus! {

/// The context once the arguments of a call are recorded; calls without
/// arguments record nothing.
pub open spec fn args_context<F: ApplyFnOnce<I>, I>(cx: ContextView, args: Annotated<I>) -> ContextView {
    if F::no_args() {
        cx
    } else {
        cx.annotated("args"@, args.repr@)
    }
}

/// Calls the subject with the given arguments.
#[derive(Clone, Debug)]
pub struct WhenCalledModifier<M, I = ()> {
    pub prev: M,
    pub args: Annotated<I>,
}

impl<M, I> WhenCalledModifier<M, I> {
    /// Creates the modifier on top of a chain.
    pub(crate) fn new(prev: M, args: Annotated<I>) -> (r: Self)
        ensures
            r.prev == prev,
            r.args == args,
    {
        WhenCalledModifier { prev, args }
    }
}

impl<M: AssertionModifier<WhenCalledAssertion<A, I>>, I, A> AssertionModifier<A> for WhenCalledModifier<M, I> {
    type Output = M::Output;

    open spec fn admits(&self, cx: ContextView, next: A) -> bool {
        self.prev.admits(cx, WhenCalledAssertion { next, args: self.args })
    }

    open spec fn yields(&self, cx: ContextView, next: A, out: M::Output) -> bool {
        self.prev.yields(cx, WhenCalledAssertion { next, args: self.args }, out)
    }

    fn apply(self, cx: AssertionContextBuilder, next: A) -> (out: M::Output) {
        self.prev.apply(cx, WhenCalledAssertion { next, args: self.args })
    }
}

/// Calls the subject with the given arguments and executes the inner
/// assertion on the value it returns.
#[derive(Clone, Debug)]
pub struct WhenCalledAssertion<A, I = ()> {
    pub next: A,
    pub args: Annotated<I>,
}

impl<A, I, F> Assertion<F> for WhenCalledAssertion<A, I> where
    F: ApplyFnOnce<I>,
    A: Assertion<F::Output>,
 {
    type Output = A::Output;

    open spec fn accepts(&self, cx: ContextView, subject: F) -> bool {
        &&& (!F::no_args() ==> cx.has_frame())
        &&& subject.can_apply(self.args.value)
        &&& forall|v: F::Output| #[trigger] subject.applied(self.args.value, v) ==> self.next.accepts(
            args_context::<F, I>(cx, self.args),
            v,
        )
    }

    open spec fn produces(&self, cx: ContextView, subject: F, out: A::Output) -> bool {
        exists|v: F::Output| #[trigger]
            subject.applied(self.args.value, v) && self.next.produces(
                args_context::<F, I>(cx, self.args),
                v,
                out,
            )
    }

    fn execute(self, cx: AssertionContext, subject: F) -> (out: A::Output) {
        let mut cx = cx;
        if !F::empty_args() {
            proof {
                reveal_strlit("args");
            }
            cx.annotate("args", self.args.as_str().to_owned());
        }
        let value = subject.apply_once(self.args.into_inner());
        self.next.execute(cx, value)
    }

    fn execute_annotated(self, cx: AssertionContext, subject: Annotated<F>) -> (out: A::Output) {
        self.execute(cx, subject.into_inner())
    }
}

/// Asserts that the subject function panics when called with the given
/// arguments.
///
/// Catching the panic is left to the caller of [`ToPanic::execute_with`],
/// which receives the outcome of the call.
#[derive(Clone, Debug)]
pub struct ToPanic<I = ()> {
    pub args: Annotated<I>,
}

impl<I> ToPanic<I> {
    /// Creates the assertion.
    pub(crate) fn new(args: Annotated<I>) -> (r: Self)
        ensures
            r.args == args,
    {
        ToPanic { args }
    }

    /// Executes the assertion: records the arguments (for calls with
    /// arguments), calls the subject through `call`, which returns whether
    /// the call panicked, and succeeds exactly when it did.
    pub fn execute_with<F: ApplyFnOnce<I>, C: FnOnce(F, I) -> bool>(
        self,
        cx: AssertionContext,
        subject: F,
        call: C,
    ) -> (out: AssertionOutput)
        requires
            !F::no_args() ==> cx@.has_frame(),
            call_requires(call, (subject, self.args.value)),
        ensures
            exists|panicked: bool| #[trigger]
                call_ensures(call, (subject, self.args.value), panicked) && out@ == pass_if_view(
                    args_context::<F, I>(cx@, self.args),
                    panicked,
                    "did not panic"@,
                ),
    {
        let mut cx = cx;
        if !F::empty_args() {
            proof {
                reveal_strlit("args");
            }
            cx.annotate("args", self.args.as_str().to_owned());
        }
        let panicked = call(subject, self.args.into_inner());
        proof {
            reveal_strlit("did not panic");
        }
        cx.pass_if(panicked, "did not panic".to_owned())
    }
}

} // verus!
