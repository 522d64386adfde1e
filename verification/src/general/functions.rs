//! Inversion and mapping in function form: each runs the rest of the
//! assertion, given as a function of the context and the subject.
use vstd::prelude::*;

use crate::context::{AssertionContext, ContextView};
use crate::general::InvertibleResult;
use crate::metadata::Annotated;

verus! {

/// Inverts the result of the rest of an assertion: it succeeds exactly when
/// `next` fails.
pub fn not<T, O: InvertibleResult, N: FnOnce(AssertionContext, T) -> O>(
    cx: AssertionContext,
    subject: T,
    next: N,
) -> (r: O::Inverted)
    requires
        forall|c: AssertionContext| c@ == cx@ ==> #[trigger] call_requires(next, (c, subject)),
    ensures
        exists|c: AssertionContext, o: O| #[trigger]
            call_ensures(next, (c, subject), o) && c@ == cx@ && o.inverted_in(cx@, r),
{
    let output = next(cx.clone(), subject);
    output.invert(cx)
}

/// Applies a mapping function to the subject before the rest of the
/// assertion, recording the function in the current frame.
pub fn map<T, U, O, F: FnOnce(T) -> U, N: FnOnce(AssertionContext, U) -> O>(
    f: Annotated<F>,
    cx: AssertionContext,
    subject: T,
    next: N,
) -> (r: O)
    requires
        cx@.has_frame(),
        call_requires(f.value, (subject,)),
        forall|c: AssertionContext, u: U|
            c@ == cx@.annotated("function"@, f.repr@) && call_ensures(f.value, (subject,), u)
                ==> #[trigger] call_requires(next, (c, u)),
    ensures
        exists|c: AssertionContext, u: U| #[trigger]
            call_ensures(next, (c, u), r) && c@ == cx@.annotated("function"@, f.repr@)
                && call_ensures(f.value, (subject,), u),
{
    let mut cx = cx;
    proof {
        reveal_strlit("function");
    }
    cx.annotate("function", f.as_str().to_owned());
    let mapping = f.into_inner();
    let mapped = mapping(subject);
    next(cx, mapped)
}

} // verus!
