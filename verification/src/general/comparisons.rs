//! Comparison assertions in function form: each returns the assertion as a
//! function of the context and the subject.
use vstd::prelude::*;
use vstd::std_specs::cmp::{PartialEqSpec, PartialOrdSpec};

use crate::context::{AssertionContext, ContextView};
use crate::metadata::Annotated;
use crate::output::{AssertionError, AssertionResult, ErrorView};

verus! {

/// Whether `r` is the result of a comparison in context `cx`: a success if
/// `holds`, otherwise a failure with `message` in `cx`.
pub open spec fn comparison_result(
    cx: ContextView,
    holds: bool,
    message: Seq<char>,
    r: AssertionResult,
) -> bool {
    if holds {
        r is Ok
    } else {
        r matches Err(e) && e@ == (ErrorView { cx, message, cause: None })
    }
}

/// Asserts that the subject is equal to the given value.
pub fn to_equal<T: PartialEq<U>, U>(expected: Annotated<U>) -> (f: impl FnOnce(
    AssertionContext,
    T,
) -> AssertionResult)
    ensures
        forall|cx: AssertionContext, subject: T| cx@.has_frame() ==> #[trigger] call_requires(f, (cx, subject)),
        forall|cx: AssertionContext, subject: T, r: AssertionResult|
            #[trigger] call_ensures(f, (cx, subject), r) ==> (T::obeys_eq_spec() ==> comparison_result(
                cx@.annotated("expected"@, expected.repr@),
                subject.eq_spec(&expected.value),
                "subject is not equal to value"@,
                r,
            )),
{
    move |cx: AssertionContext, subject: T| -> (r: AssertionResult)
        requires
            cx@.has_frame(),
        ensures
            T::obeys_eq_spec() ==> comparison_result(
                cx@.annotated("expected"@, expected.repr@),
                subject.eq_spec(&expected.value),
                "subject is not equal to value"@,
                r,
            ),
        {
            let mut cx = cx;
            proof {
                reveal_strlit("expected");
                reveal_strlit("subject is not equal to value");
            }
            cx.annotate("expected", expected.as_str().to_owned());
            if subject.eq(expected.inner()) {
                Ok(())
            } else {
                Err(AssertionError::new(cx, "subject is not equal to value".to_owned()))
            }
        }
}

/// Asserts that the subject is less than the given value.
pub fn to_be_less_than<T: PartialOrd<U>, U>(boundary: Annotated<U>) -> (f: impl FnOnce(
    AssertionContext,
    T,
) -> AssertionResult)
    ensures
        forall|cx: AssertionContext, subject: T| cx@.has_frame() ==> #[trigger] call_requires(f, (cx, subject)),
        forall|cx: AssertionContext, subject: T, r: AssertionResult|
            #[trigger] call_ensures(f, (cx, subject), r) ==> (T::obeys_partial_cmp_spec() ==> comparison_result(
                cx@.annotated("boundary"@, boundary.repr@),
                subject.partial_cmp_spec(&boundary.value) == Some(std::cmp::Ordering::Less),
                "subject is not less than value"@,
                r,
            )),
{
    move |cx: AssertionContext, subject: T| -> (r: AssertionResult)
        requires
            cx@.has_frame(),
        ensures
            T::obeys_partial_cmp_spec() ==> comparison_result(
                cx@.annotated("boundary"@, boundary.repr@),
                subject.partial_cmp_spec(&boundary.value) == Some(std::cmp::Ordering::Less),
                "subject is not less than value"@,
                r,
            ),
        {
            let mut cx = cx;
            proof {
                reveal_strlit("boundary");
                reveal_strlit("subject is not less than value");
            }
            cx.annotate("boundary", boundary.as_str().to_owned());
            if subject.lt(boundary.inner()) {
                Ok(())
            } else {
                Err(AssertionError::new(cx, "subject is not less than value".to_owned()))
            }
        }
}

/// Asserts that the subject is less than or equal to the given value.
pub fn to_be_less_than_or_equal_to<T: PartialOrd<U>, U>(boundary: Annotated<U>) -> (f: impl FnOnce(
    AssertionContext,
    T,
) -> AssertionResult)
    ensures
        forall|cx: AssertionContext, subject: T| cx@.has_frame() ==> #[trigger] call_requires(f, (cx, subject)),
        forall|cx: AssertionContext, subject: T, r: AssertionResult|
            #[trigger] call_ensures(f, (cx, subject), r) ==> (T::obeys_partial_cmp_spec() ==> comparison_result(
                cx@.annotated("boundary"@, boundary.repr@),
                subject.partial_cmp_spec(&boundary.value) == Some(std::cmp::Ordering::Less)
                    || subject.partial_cmp_spec(&boundary.value) == Some(std::cmp::Ordering::Equal),
                "subject is not less than or equal to value"@,
                r,
            )),
{
    move |cx: AssertionContext, subject: T| -> (r: AssertionResult)
        requires
            cx@.has_frame(),
        ensures
            T::obeys_partial_cmp_spec() ==> comparison_result(
                cx@.annotated("boundary"@, boundary.repr@),
                subject.partial_cmp_spec(&boundary.value) == Some(std::cmp::Ordering::Less)
                    || subject.partial_cmp_spec(&boundary.value) == Some(std::cmp::Ordering::Equal),
                "subject is not less than or equal to value"@,
                r,
            ),
        {
            let mut cx = cx;
            proof {
                reveal_strlit("boundary");
                reveal_strlit("subject is not less than or equal to value");
            }
            cx.annotate("boundary", boundary.as_str().to_owned());
            if subject.le(boundary.inner()) {
                Ok(())
            } else {
                Err(AssertionError::new(cx, "subject is not less than or equal to value".to_owned()))
            }
        }
}

/// Asserts that the subject is greater than the given value.
pub fn to_be_greater_than<T: PartialOrd<U>, U>(boundary: Annotated<U>) -> (f: impl FnOnce(
    AssertionContext,
    T,
) -> AssertionResult)
    ensures
        forall|cx: AssertionContext, subject: T| cx@.has_frame() ==> #[trigger] call_requires(f, (cx, subject)),
        forall|cx: AssertionContext, subject: T, r: AssertionResult|
            #[trigger] call_ensures(f, (cx, subject), r) ==> (T::obeys_partial_cmp_spec() ==> comparison_result(
                cx@.annotated("boundary"@, boundary.repr@),
                subject.partial_cmp_spec(&boundary.value) == Some(std::cmp::Ordering::Greater),
                "subject is not greater than value"@,
                r,
            )),
{
    move |cx: AssertionContext, subject: T| -> (r: AssertionResult)
        requires
            cx@.has_frame(),
        ensures
            T::obeys_partial_cmp_spec() ==> comparison_result(
                cx@.annotated("boundary"@, boundary.repr@),
                subject.partial_cmp_spec(&boundary.value) == Some(std::cmp::Ordering::Greater),
                "subject is not greater than value"@,
                r,
            ),
        {
            let mut cx = cx;
            proof {
                reveal_strlit("boundary");
                reveal_strlit("subject is not greater than value");
            }
            cx.annotate("boundary", boundary.as_str().to_owned());
            if subject.gt(boundary.inner()) {
                Ok(())
            } else {
                Err(AssertionError::new(cx, "subject is not greater than value".to_owned()))
            }
        }
}

/// Asserts that the subject is greater than or equal to the given value.
pub fn to_be_greater_than_or_equal_to<T: PartialOrd<U>, U>(boundary: Annotated<U>) -> (f: impl FnOnce(
    AssertionContext,
    T,
) -> AssertionResult)
    ensures
        forall|cx: AssertionContext, subject: T| cx@.has_frame() ==> #[trigger] call_requires(f, (cx, subject)),
        forall|cx: AssertionContext, subject: T, r: AssertionResult|
            #[trigger] call_ensures(f, (cx, subject), r) ==> (T::obeys_partial_cmp_spec() ==> comparison_result(
                cx@.annotated("boundary"@, boundary.repr@),
                subject.partial_cmp_spec(&boundary.value) == Some(std::cmp::Ordering::Greater)
                    || subject.partial_cmp_spec(&boundary.value) == Some(std::cmp::Ordering::Equal),
                "subject is not greater than or equal to value"@,
                r,
            )),
{
    move |cx: AssertionContext, subject: T| -> (r: AssertionResult)
        requires
            cx@.has_frame(),
        ensures
            T::obeys_partial_cmp_spec() ==> comparison_result(
                cx@.annotated("boundary"@, boundary.repr@),
                subject.partial_cmp_spec(&boundary.value) == Some(std::cmp::Ordering::Greater)
                    || subject.partial_cmp_spec(&boundary.value) == Some(std::cmp::Ordering::Equal),
                "subject is not greater than or equal to value"@,
                r,
            ),
        {
            let mut cx = cx;
            proof {
                reveal_strlit("boundary");
                reveal_strlit("subject is not greater than or equal to value");
            }
            cx.annotate("boundary", boundary.as_str().to_owned());
            if subject.ge(boundary.inner()) {
                Ok(())
            } else {
                Err(AssertionError::new(cx, "subject is not greater than or equal to value".to_owned()))
            }
        }
}

} // verus!

