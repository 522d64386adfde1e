//! The general assertions: equality, ordering, membership and predicates.
use vstd::prelude::*;
use vstd::std_specs::cmp::{PartialEqSpec, PartialOrdSpec};

use crate::assertion::Assertion;
use crate::context::{AssertionContext, ContextView};
use crate::diff::{diff_text, fmt_diff};
use crate::metadata::Annotated;
use crate::output::{
    pass_if_view, pass_view, fail_view, report, reportable, AssertionError, AssertionOutput,
    OutputView,
};
use crate::text::{contains_char, has_char};

verus! {

/// The message of a failed equality.
pub open spec fn not_equal_message() -> Seq<char> {
    "values not equal"@
}

/// Asserts that the subject is equal to an expected value.
#[derive(Clone, Debug)]
pub struct ToEqual<U> {
    pub expected: Annotated<U>,
}

impl<U> ToEqual<U> {
    /// Creates the assertion.
    pub(crate) fn new(expected: Annotated<U>) -> (r: Self)
        ensures
            r.expected == expected,
    {
        ToEqual { expected }
    }

    /// The context once the expected value is annotated.
    pub open spec fn annotated_context(&self, cx: ContextView) -> ContextView {
        cx.annotated("expected"@, self.expected.repr@)
    }
}

/// The representations compared when two values differ: their display
/// representations if both have one, else their pretty debug
/// representations if both have one.
pub open spec fn compared_reprs<T, U>(subject: Annotated<T>, expected: Annotated<U>) -> Option<
    (Seq<char>, Seq<char>),
> {
    if subject.display is Some && expected.display is Some {
        Some((subject.display.unwrap()@, expected.display.unwrap()@))
    } else if subject.pretty is Some && expected.pretty is Some {
        Some((subject.pretty.unwrap()@, expected.pretty.unwrap()@))
    } else {
        None
    }
}

/// The failure of an equality on annotated values, in context `cx`: a diff
/// of the representations is attached as a page when one of them spans
/// several lines and they differ.
pub open spec fn equality_failure<T, U>(
    cx: ContextView,
    subject: Annotated<T>,
    expected: Annotated<U>,
) -> OutputView {
    match compared_reprs(subject, expected) {
        Some((s, e)) => if (has_char(s, '\n') || has_char(e, '\n')) && e != s {
            fail_view(cx.paged("diff"@, diff_text(e, s)), not_equal_message())
        } else {
            fail_view(cx, not_equal_message())
        },
        None => fail_view(cx, not_equal_message()),
    }
}

impl<T: PartialEq<U>, U> Assertion<T> for ToEqual<U> {
    type Output = AssertionOutput;

    open spec fn accepts(&self, cx: ContextView, subject: T) -> bool {
        cx.has_frame()
    }

    open spec fn produces(&self, cx: ContextView, subject: T, out: AssertionOutput) -> bool {
        &&& (out@ == pass_view(self.annotated_context(cx)) || out@ == fail_view(
            self.annotated_context(cx),
            not_equal_message(),
        ))
        &&& T::obeys_eq_spec() ==> (out@.passed() <==> subject.eq_spec(&self.expected.value))
    }

    open spec fn produces_annotated(
        &self,
        cx: ContextView,
        subject: Annotated<T>,
        out: AssertionOutput,
    ) -> bool {
        &&& (out@ == pass_view(self.annotated_context(cx)) || out@ == equality_failure(
            self.annotated_context(cx),
            subject,
            self.expected,
        ))
        &&& T::obeys_eq_spec() ==> (out@.passed() <==> subject.value.eq_spec(&self.expected.value))
    }

    fn execute(self, cx: AssertionContext, subject: T) -> (out: AssertionOutput) {
        let mut cx = cx;
        cx.annotate("expected", self.expected.as_str().to_owned());
        let equal = subject.eq(self.expected.inner());
        let message = "values not equal".to_owned();
        proof {
            reveal_strlit("expected");
            reveal_strlit("values not equal");
        }
        cx.pass_if(equal, message)
    }

    fn execute_annotated(self, cx: AssertionContext, subject: Annotated<T>) -> (out:
        AssertionOutput) {
        let mut cx = cx;
        cx.annotate("expected", self.expected.as_str().to_owned());
        proof {
            reveal_strlit("expected");
            reveal_strlit("values not equal");
            reveal_strlit("diff");
        }
        if subject.inner().eq(self.expected.inner()) {
            return cx.pass();
        }
        // Representations of the values
        let reprs: Option<(String, String)> = match (subject.as_display(), self.expected.as_display()) {
            (Some(s), Some(e)) => Some((s.to_owned(), e.to_owned())),
            _ => match (subject.as_pretty_debug(), self.expected.as_pretty_debug()) {
                (Some(s), Some(e)) => Some((s.to_owned(), e.to_owned())),
                _ => None,
            },
        };
        match reprs {
            None => cx.fail("values not equal".to_owned()),
            Some((s, e)) => {
                // Only diff multi-line representations, to keep short
                // failures uncluttered
                if contains_char(s.as_str(), '\n') || contains_char(e.as_str(), '\n') {
                    if let Some(diff) = fmt_diff(e.as_str(), s.as_str()) {
                        cx.add_page("diff".to_owned(), diff);
                    }
                }
                cx.fail("values not equal".to_owned())
            },
        }
    }
}

/// The direction of an ordering constraint.
#[derive(Clone, Copy, Debug, PartialEq, Eq, Structural)]
pub enum Direction {
    Less,
    Equal,
    Greater,
}

impl Direction {
    /// The direction of an ordering.
    pub fn from_ordering(ordering: std::cmp::Ordering) -> (r: Direction)
        ensures
            r == (match ordering {
                std::cmp::Ordering::Less => Direction::Less,
                std::cmp::Ordering::Equal => Direction::Equal,
                std::cmp::Ordering::Greater => Direction::Greater,
            }),
    {
        match ordering {
            std::cmp::Ordering::Less => Direction::Less,
            std::cmp::Ordering::Equal => Direction::Equal,
            std::cmp::Ordering::Greater => Direction::Greater,
        }
    }
}

/// How the actual ordering of the subject against the boundary is shown.
pub open spec fn ordering_text(o: Option<std::cmp::Ordering>) -> Seq<char> {
    match o {
        Some(std::cmp::Ordering::Less) => "subject < boundary"@,
        Some(std::cmp::Ordering::Equal) => "subject == boundary"@,
        Some(std::cmp::Ordering::Greater) => "subject > boundary"@,
        None => "none"@,
    }
}

/// A general-purpose assertion for the ordering between the subject and a
/// boundary: the subject must lie on the side of the boundary given by
/// `direction` (or be equal to it, if `allow_eq`).
#[derive(Clone, Debug)]
pub struct ToCmpAssertion<U> {
    pub boundary: Annotated<U>,
    pub direction: Direction,
    pub allow_eq: bool,
    pub cmp_message: &'static str,
}

impl<U> ToCmpAssertion<U> {
    /// Creates the assertion.
    pub(crate) fn new(
        boundary: Annotated<U>,
        direction: Direction,
        allow_eq: bool,
        cmp_message: &'static str,
    ) -> (r: Self)
        ensures
            r.boundary == boundary,
            r.direction == direction,
            r.allow_eq == allow_eq,
            r.cmp_message == cmp_message,
    {
        ToCmpAssertion { boundary, direction, allow_eq, cmp_message }
    }

    /// The context once the boundary and the actual ordering are annotated.
    pub open spec fn annotated_context<T: PartialOrd<U>>(&self, cx: ContextView, subject: T) -> ContextView {
        cx.annotated("boundary"@, self.boundary.repr@).annotated(
            "actual ordering"@,
            ordering_text(subject.partial_cmp_spec(&self.boundary.value)),
        )
    }

    /// Whether the ordering constraint holds for the subject.
    pub open spec fn satisfied<T: PartialOrd<U>>(&self, subject: T) -> bool {
        let o = subject.partial_cmp_spec(&self.boundary.value);
        match (self.direction, self.allow_eq) {
            (Direction::Less, true) => o == Some(std::cmp::Ordering::Less) || o == Some(
                std::cmp::Ordering::Equal,
            ),
            (Direction::Less, false) => o == Some(std::cmp::Ordering::Less),
            (Direction::Greater, true) => o == Some(std::cmp::Ordering::Greater) || o == Some(
                std::cmp::Ordering::Equal,
            ),
            (Direction::Greater, false) => o == Some(std::cmp::Ordering::Greater),
            (Direction::Equal, _) => false,
        }
    }

    /// The message of a failure.
    pub open spec fn failure_message(&self) -> Seq<char> {
        if self.direction == Direction::Equal {
            "use to_equal instead"@
        } else {
            "not "@ + self.cmp_message@ + " boundary"@
        }
    }
}

impl<T: PartialOrd<U>, U> Assertion<T> for ToCmpAssertion<U> {
    type Output = AssertionOutput;

    open spec fn accepts(&self, cx: ContextView, subject: T) -> bool {
        cx.has_frame()
    }

    /// When the subject's ordering follows its specification, the output
    /// is exactly determined; otherwise the frame gains the boundary and one
    /// of the ordering texts, and the output is a success or the failure
    /// (always the failure for [`Direction::Equal`]).
    open spec fn produces(&self, cx: ContextView, subject: T, out: AssertionOutput) -> bool {
        if T::obeys_partial_cmp_spec() {
            out@ == pass_if_view(
                self.annotated_context(cx, subject),
                self.satisfied(subject),
                self.failure_message(),
            )
        } else {
            exists|o: Option<std::cmp::Ordering>| {
                let c = cx.annotated("boundary"@, self.boundary.repr@).annotated(
                    "actual ordering"@,
                    #[trigger] ordering_text(o),
                );
                &&& out@ == pass_view(c) || out@ == fail_view(c, self.failure_message())
                &&& self.direction == Direction::Equal ==> out@ == fail_view(
                    c,
                    self.failure_message(),
                )
            }
        }
    }

    fn execute(self, cx: AssertionContext, subject: T) -> (out: AssertionOutput) {
        let ghost old_cx = cx@;
        let mut cx = cx;
        proof {
            reveal_strlit("boundary");
            reveal_strlit("actual ordering");
            reveal_strlit("subject < boundary");
            reveal_strlit("subject == boundary");
            reveal_strlit("subject > boundary");
            reveal_strlit("none");
            reveal_strlit("use to_equal instead");
            reveal_strlit("not ");
            reveal_strlit(" boundary");
        }
        cx.annotate("boundary", self.boundary.as_str().to_owned());
        let ordering = subject.partial_cmp(self.boundary.inner());
        let actual = match ordering {
            Some(std::cmp::Ordering::Less) => "subject < boundary",
            Some(std::cmp::Ordering::Equal) => "subject == boundary",
            Some(std::cmp::Ordering::Greater) => "subject > boundary",
            None => "none",
        };
        cx.annotate("actual ordering", actual.to_owned());
        let ghost c = cx@;
        assert(actual@ == ordering_text(ordering));
        assert(c == old_cx.annotated("boundary"@, self.boundary.repr@).annotated(
            "actual ordering"@,
            ordering_text(ordering),
        ));
        assert(T::obeys_partial_cmp_spec() ==> c == self.annotated_context(old_cx, subject));
        let boundary = self.boundary.inner();
        let success = match (self.direction, self.allow_eq) {
            (Direction::Less, true) => subject.le(boundary),
            (Direction::Less, false) => subject.lt(boundary),
            (Direction::Greater, true) => subject.ge(boundary),
            (Direction::Greater, false) => subject.gt(boundary),
            (Direction::Equal, _) => {
                let out: AssertionOutput = cx.fail("use to_equal instead".to_owned());
                assert(out@ == fail_view(c, self.failure_message()));
                return out;
            },
        };
        let mut message = "not ".to_owned();
        crate::text::push_str(&mut message, self.cmp_message);
        crate::text::push_str(&mut message, " boundary");
        assert(message@ == self.failure_message());
        assert(T::obeys_partial_cmp_spec() ==> success == self.satisfied(subject));
        let out: AssertionOutput = cx.pass_if(success, message);
        assert(out@ == pass_view(c) || out@ == fail_view(c, self.failure_message()));
        out
    }

    fn execute_annotated(self, cx: AssertionContext, subject: Annotated<T>) -> (out:
        AssertionOutput) {
        self.execute(cx, subject.into_inner())
    }
}

/// Asserts that the subject is equal to one of a list of items.
#[derive(Clone, Debug)]
pub struct ToBeOneOf<U> {
    pub items: Annotated<Vec<U>>,
}

impl<U> ToBeOneOf<U> {
    /// Creates the assertion.
    pub fn new(items: Annotated<Vec<U>>) -> (r: Self)
        ensures
            r.items == items,
    {
        ToBeOneOf { items }
    }
}

impl<T: PartialEq<U>, U> Assertion<T> for ToBeOneOf<U> {
    type Output = AssertionOutput;

    open spec fn accepts(&self, cx: ContextView, subject: T) -> bool {
        cx.has_frame()
    }

    open spec fn produces(&self, cx: ContextView, subject: T, out: AssertionOutput) -> bool {
        let c = cx.annotated("items"@, self.items.repr@);
        &&& (out@ == pass_view(c) || out@ == fail_view(c, "not found"@))
        &&& T::obeys_eq_spec() ==> (out@.passed() <==> exists|i: int|
            0 <= i < self.items.value@.len() && subject.eq_spec(&self.items.value@[i]))
    }

    fn execute(self, cx: AssertionContext, subject: T) -> (out: AssertionOutput) {
        let ghost old_cx = cx@;
        let mut cx = cx;
        proof {
            reveal_strlit("items");
            reveal_strlit("not found");
        }
        cx.annotate("items", self.items.as_str().to_owned());
        let items = self.items.inner();
        let mut i: usize = 0;
        #[verifier::loop_isolation(false)]
        while i < items.len()
            invariant
                i <= items@.len(),
                items@ == self.items.value@,
                cx@ == old_cx.annotated("items"@, self.items.repr@),
                T::obeys_eq_spec() ==> forall|j: int| 0 <= j < i ==> !subject.eq_spec(&items@[j]),
            decreases items@.len() - i,
        {
            if subject.eq(&items[i]) {
                proof {
                    if T::obeys_eq_spec() {
                        assert(subject.eq_spec(&items@[i as int]));
                    }
                }
                return cx.pass();
            }
            i = i + 1;
        }
        cx.fail("not found".to_owned())
    }

    fn execute_annotated(self, cx: AssertionContext, subject: Annotated<T>) -> (out:
        AssertionOutput) {
        self.execute(cx, subject.into_inner())
    }
}

/// Asserts that the subject satisfies a predicate.
#[derive(Clone, Debug)]
pub struct ToSatisfy<F> {
    pub predicate: Annotated<F>,
}

impl<F> ToSatisfy<F> {
    /// Creates the assertion.
    pub(crate) fn new(predicate: Annotated<F>) -> (r: Self)
        ensures
            r.predicate == predicate,
    {
        ToSatisfy { predicate }
    }
}

impl<T, F: FnOnce(T) -> bool> Assertion<T> for ToSatisfy<F> {
    type Output = AssertionOutput;

    open spec fn accepts(&self, cx: ContextView, subject: T) -> bool {
        cx.has_frame() && call_requires(self.predicate.value, (subject,))
    }

    open spec fn produces(&self, cx: ContextView, subject: T, out: AssertionOutput) -> bool {
        exists|b: bool| #[trigger]
            call_ensures(self.predicate.value, (subject,), b) && out@ == pass_if_view(
                cx.annotated("predicate"@, self.predicate.repr@),
                b,
                "did not satisfy predicate"@,
            )
    }

    fn execute(self, cx: AssertionContext, subject: T) -> (out: AssertionOutput) {
        let mut cx = cx;
        proof {
            reveal_strlit("predicate");
            reveal_strlit("did not satisfy predicate");
        }
        cx.annotate("predicate", self.predicate.as_str().to_owned());
        let predicate = self.predicate.into_inner();
        let satisfied = predicate(subject);
        cx.pass_if(satisfied, "did not satisfy predicate".to_owned())
    }

    fn execute_annotated(self, cx: AssertionContext, subject: Annotated<T>) -> (out:
        AssertionOutput) {
        self.execute(cx, subject.into_inner())
    }
}

/// Asserts that the subject satisfies a series of inner assertions, run by
/// a function that returns their combined result.
#[derive(Clone, Debug)]
pub struct ToSatisfyWith<F> {
    pub predicate: Annotated<F>,
}

impl<F> ToSatisfyWith<F> {
    /// Creates the assertion.
    pub(crate) fn new(predicate: Annotated<F>) -> (r: Self)
        ensures
            r.predicate == predicate,
    {
        ToSatisfyWith { predicate }
    }
}

impl<T, F: FnOnce(T) -> Result<(), AssertionError>> Assertion<T> for ToSatisfyWith<F> {
    type Output = AssertionOutput;

    /// The inner failures must be reportable, since their reports are
    /// attached to the failure.
    open spec fn accepts(&self, cx: ContextView, subject: T) -> bool {
        &&& call_requires(self.predicate.value, (subject,))
        &&& forall|r: Result<(), AssertionError>| #[trigger]
            call_ensures(self.predicate.value, (subject,), r) ==> (r matches Err(e) ==> reportable(
                e@,
            ))
    }

    open spec fn produces(&self, cx: ContextView, subject: T, out: AssertionOutput) -> bool {
        exists|r: Result<(), AssertionError>| #[trigger]
            call_ensures(self.predicate.value, (subject,), r) && match r {
                Ok(()) => out@ == pass_view(cx),
                Err(e) => out@ == (OutputView {
                    cx,
                    error: Some("inner assertions failed"@),
                    cause: Some(report(e@)),
                }),
            }
    }

    fn execute(self, cx: AssertionContext, subject: T) -> (out: AssertionOutput) {
        let predicate = self.predicate.into_inner();
        let result = predicate(subject);
        proof {
            reveal_strlit("inner assertions failed");
        }
        match result {
            Ok(()) => cx.pass(),
            Err(error) => cx.fail_with(error, "inner assertions failed".to_owned()),
        }
    }

    fn execute_annotated(self, cx: AssertionContext, subject: Annotated<T>) -> (out:
        AssertionOutput) {
        self.execute(cx, subject.into_inner())
    }
}


/// Asserts that the subject satisfies all of the assertions run by
/// `predicates`, which returns their outputs. This forks the assertion,
/// allowing an intermediate value to have several assertions applied to it.
pub fn to_satisfy_all<F>(predicates: Annotated<F>) -> (r: ToSatisfyMergeAssertion<F>)
    ensures
        r.predicates == predicates,
        r.strategy == crate::iterators::MergeStrategy::All,
{
    ToSatisfyMergeAssertion { predicates, strategy: crate::iterators::MergeStrategy::All }
}

/// Asserts that the subject satisfies any of the assertions run by
/// `predicates`, which returns their outputs.
pub fn to_satisfy_any<F>(predicates: Annotated<F>) -> (r: ToSatisfyMergeAssertion<F>)
    ensures
        r.predicates == predicates,
        r.strategy == crate::iterators::MergeStrategy::Any,
{
    ToSatisfyMergeAssertion { predicates, strategy: crate::iterators::MergeStrategy::Any }
}

/// The assertion of [`to_satisfy_all()`] and [`to_satisfy_any()`]: runs the
/// predicates on the subject and merges the outputs they return.
#[derive(Clone, Debug)]
pub struct ToSatisfyMergeAssertion<F> {
    pub predicates: Annotated<F>,
    pub strategy: crate::iterators::MergeStrategy,
}

impl<F, T, R> Assertion<T> for ToSatisfyMergeAssertion<F> where
    F: FnOnce(T) -> Vec<R>,
    R: crate::iterators::MergeableOutput,
 {
    type Output = R::Merged;

    open spec fn accepts(&self, cx: ContextView, subject: T) -> bool {
        call_requires(self.predicates.value, (subject,))
    }

    open spec fn produces(&self, cx: ContextView, subject: T, out: R::Merged) -> bool {
        exists|outputs: Vec<R>| #[trigger]
            call_ensures(self.predicates.value, (subject,), outputs) && R::merges(
                cx,
                self.strategy,
                outputs@,
                out,
            )
    }

    fn execute(self, cx: AssertionContext, subject: T) -> (out: R::Merged) {
        let predicates = self.predicates.into_inner();
        let outputs = predicates(subject);
        R::merge(cx, self.strategy, outputs)
    }

    fn execute_annotated(self, cx: AssertionContext, subject: Annotated<T>) -> (out: R::Merged) {
        self.execute(cx, subject.into_inner())
    }
}

} // verus!
