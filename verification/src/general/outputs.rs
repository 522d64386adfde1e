//! Traits describing what can be done with the output of an assertion, and
//! their implementations for the synchronous outputs of this crate.
use vstd::prelude::*;

use crate::context::{AssertionContext, ContextView};
use crate::output::{AssertionError, AssertionOutput, AssertionResult, ErrorView, OutputView};

verus! {

/// An assertion output that can be directly constructed from an
/// [`AssertionContext`], as a success or as a failure.
pub trait InitializableOutput: Sized {
    /// Whether this output is a success created in context `cx`.
    /// An implementation that does not define it promises nothing of the
    /// result.
    open spec fn passed_in(&self, cx: ContextView) -> bool {
        true
    }

    /// Whether this output is a failure with `message` created in context
    /// `cx`.
    /// An implementation that does not define it promises nothing of the
    /// result.
    open spec fn failed_in(&self, cx: ContextView, message: Seq<char>) -> bool {
        true
    }

    /// Constructs an output that represents a success.
    fn pass(cx: AssertionContext) -> (r: Self)
        ensures
            r.passed_in(cx@),
    ;

    /// Constructs an output that represents a failure with a given message.
    fn fail(cx: AssertionContext, message: String) -> (r: Self)
        ensures
            r.failed_in(cx@, message@),
    ;
}

impl InitializableOutput for AssertionOutput {
    open spec fn passed_in(&self, cx: ContextView) -> bool {
        self@ == OutputView { cx, error: None, cause: None }
    }

    open spec fn failed_in(&self, cx: ContextView, message: Seq<char>) -> bool {
        self@ == OutputView { cx, error: Some(message), cause: None }
    }

    fn pass(cx: AssertionContext) -> (r: Self) {
        AssertionOutput::new(cx, None)
    }

    fn fail(cx: AssertionContext, message: String) -> (r: Self) {
        AssertionOutput::new(cx, Some(message))
    }
}

impl InitializableOutput for AssertionResult {
    open spec fn passed_in(&self, cx: ContextView) -> bool {
        self is Ok
    }

    open spec fn failed_in(&self, cx: ContextView, message: Seq<char>) -> bool {
        self matches Err(e) && e@ == (ErrorView { cx, message, cause: None })
    }

    fn pass(cx: AssertionContext) -> (r: Self) {
        Ok(())
    }

    fn fail(cx: AssertionContext, message: String) -> (r: Self) {
        Err(AssertionError::new(cx, message))
    }
}

/// An output type that can be converted into an
/// [initializable output type](InitializableOutput).
pub trait IntoInitializableOutput: Sized {
    /// The initialized output type.
    type Initialized: InitializableOutput;

    /// Whether `r` is this output, converted.
    /// An implementation that does not define it promises nothing of the
    /// result.
    open spec fn initializes_to(&self, r: Self::Initialized) -> bool {
        true
    }

    /// Converts this output into an instance of the initialized output type.
    fn into_initialized(self) -> (r: Self::Initialized)
        ensures
            self.initializes_to(r),
    ;
}

impl IntoInitializableOutput for AssertionOutput {
    type Initialized = AssertionOutput;

    open spec fn initializes_to(&self, r: AssertionOutput) -> bool {
        r == *self
    }

    fn into_initialized(self) -> (r: AssertionOutput) {
        self
    }
}

/// The message of a success turned into a failure by inversion.
pub open spec fn inverted_success_message() -> Seq<char> {
    "expected a failure, received a success"@
}

/// The output that inverting `out` in the context `cx` gives.
pub open spec fn inverted(out: OutputView, cx: ContextView) -> OutputView {
    if out.passed() {
        OutputView {
            cx: cx.recovering(out.cx),
            error: Some(inverted_success_message()),
            cause: None,
        }
    } else {
        OutputView { cx: cx.recovering(out.cx), error: None, cause: None }
    }
}

/// An assertion output that can be inverted: a success becomes a failure,
/// and a failure becomes a success.
pub trait InvertibleOutput: Sized {
    /// The inverted output.
    type Inverted;

    /// Whether this output can be inverted in context `cx`.
    /// An implementation that does not define it is never run by verified
    /// code.
    open spec fn invertible_in(&self, cx: ContextView) -> bool {
        false
    }

    /// Whether `r` is this output, inverted in context `cx`.
    /// An implementation that does not define it promises nothing of the
    /// result.
    open spec fn inverted_in(&self, cx: ContextView, r: Self::Inverted) -> bool {
        true
    }

    /// Inverts the output.
    fn invert(self, cx: AssertionContext) -> (r: Self::Inverted)
        requires
            self.invertible_in(cx@),
        ensures
            self.inverted_in(cx@, r),
    ;
}

impl InvertibleOutput for AssertionOutput {
    type Inverted = AssertionOutput;

    /// The output must come from an execution path that went at least as
    /// deep as `cx`.
    open spec fn invertible_in(&self, cx: ContextView) -> bool {
        cx.visited.len() <= self@.cx.visited.len()
    }

    open spec fn inverted_in(&self, cx: ContextView, r: AssertionOutput) -> bool {
        r@ == inverted(self@, cx)
    }

    fn invert(self, cx: AssertionContext) -> (r: AssertionOutput) {
        let mut out = self;
        if out.is_pass() {
            let message = "expected a failure, received a success".to_owned();
            proof {
                reveal_strlit("expected a failure, received a success");
            }
            out.set_fail(cx, message);
        } else {
            out.set_pass(cx);
        }
        out
    }
}

/// An assertion output that can be unwrapped: it panics as soon as possible
/// if the assertion failed.
pub trait UnwrappableOutput: Sized {
    /// The unwrapped output.
    type Unwrapped;

    /// The output representing an attempt at unwrapping.
    type TryUnwrapped;

    /// Whether unwrapping this output succeeds.
    /// An implementation that does not define it is never run by verified
    /// code.
    open spec fn unwraps(&self) -> bool {
        false
    }

    /// Whether `r` is the attempt at unwrapping this output.
    /// An implementation that does not define it promises nothing of the
    /// result.
    open spec fn try_unwraps_to(&self, r: Self::TryUnwrapped) -> bool {
        true
    }

    /// Unwraps this output.
    fn unwrap(self) -> Self::Unwrapped
        requires
            self.unwraps(),
    ;

    /// Tries to unwrap this output, returning the error instead of
    /// panicking.
    fn try_unwrap(self) -> (r: Self::TryUnwrapped)
        ensures
            self.try_unwraps_to(r),
    ;
}

impl UnwrappableOutput for AssertionOutput {
    type Unwrapped = ();

    type TryUnwrapped = AssertionResult;

    open spec fn unwraps(&self) -> bool {
        self@.passed()
    }

    open spec fn try_unwraps_to(&self, r: AssertionResult) -> bool {
        &&& r is Ok <==> self@.passed()
        &&& r matches Err(e) ==> e@ == (ErrorView {
            cx: self@.cx,
            message: self@.error.unwrap(),
            cause: self@.cause,
        })
    }

    fn unwrap(self) {
        let r = self.into_result();
        assert(r is Ok);
    }

    fn try_unwrap(self) -> (r: AssertionResult) {
        self.into_result()
    }
}

/// An assertion result that can be finalized ("unwrapped").
pub trait FinalizableResult: Sized {
    /// The finalized value.
    type Finalized;

    /// Whether finalizing this result succeeds.
    /// An implementation that does not define it is never run by verified
    /// code.
    open spec fn finalizes(&self) -> bool {
        false
    }

    /// Whether `r` is the finalized value of this result.
    /// An implementation that does not define it promises nothing of the
    /// result.
    open spec fn finalizes_to(&self, r: Self::Finalized) -> bool {
        true
    }

    /// Finalizes this result.
    fn finalize(self) -> (r: Self::Finalized)
        requires
            self.finalizes(),
        ensures
            self.finalizes_to(r),
    ;
}

impl<T, E: std::fmt::Debug> FinalizableResult for Result<T, E> {
    type Finalized = T;

    open spec fn finalizes(&self) -> bool {
        self is Ok
    }

    open spec fn finalizes_to(&self, r: T) -> bool {
        *self == Ok::<T, E>(r)
    }

    fn finalize(self) -> (r: T) {
        match self {
            Ok(t) => t,
            Err(_) => {
                assert(false);
                unreached()
            },
        }
    }
}

/// An assertion result that can be inverted.
pub trait InvertibleResult: Sized {
    /// The inverted result.
    type Inverted;

    /// Whether `r` is this result, inverted in context `cx`.
    /// An implementation that does not define it promises nothing of the
    /// result.
    open spec fn inverted_in(&self, cx: ContextView, r: Self::Inverted) -> bool {
        true
    }

    /// Inverts the result: a success becomes a failure, and a failure a
    /// success.
    fn invert(self, cx: AssertionContext) -> (r: Self::Inverted)
        ensures
            self.inverted_in(cx@, r),
    ;
}

impl InvertibleResult for AssertionResult {
    type Inverted = AssertionResult;

    open spec fn inverted_in(&self, cx: ContextView, r: AssertionResult) -> bool {
        if self is Ok {
            r matches Err(e) && e@ == (ErrorView {
                cx,
                message: inverted_success_message(),
                cause: None,
            })
        } else {
            r is Ok
        }
    }

    fn invert(self, cx: AssertionContext) -> (r: AssertionResult) {
        match self {
            Ok(()) => {
                let message = "expected a failure, received a success".to_owned();
                proof {
                    reveal_strlit("expected a failure, received a success");
                }
                cx.fail(message)
            },
            Err(_) => cx.pass(),
        }
    }
}

} // verus!
