//! Assertions on the elements of a sequence.
use vstd::prelude::*;
use vstd::std_specs::cmp::PartialEqSpec;

use crate::assertion::Assertion;
use crate::context::{AssertionContext, ContextView};
use crate::metadata::Annotated;
use crate::output::{fail_view, pass_if_view, pass_view, AssertionOutput};
use crate::text::{decimal, push_decimal};

verus! {

/// Asserts that the subject contains an expected element.
#[derive(Clone, Debug)]
pub struct ToContain<U> {
    pub expected: Annotated<U>,
}

impl<U> ToContain<U> {
    /// Creates the assertion.
    pub(crate) fn new(expected: Annotated<U>) -> (r: Self)
        ensures
            r.expected == expected,
    {
        ToContain { expected }
    }
}

impl<X: PartialEq<U>, U> Assertion<Vec<X>> for ToContain<U> {
    type Output = AssertionOutput;

    open spec fn accepts(&self, cx: ContextView, subject: Vec<X>) -> bool {
        cx.has_frame()
    }

    open spec fn produces(&self, cx: ContextView, subject: Vec<X>, out: AssertionOutput) -> bool {
        let c = cx.annotated("expected"@, self.expected.repr@);
        &&& (out@ == pass_view(c) || out@ == fail_view(c, "value not found"@))
        &&& X::obeys_eq_spec() ==> (out@.passed() <==> exists|i: int|
            0 <= i < subject@.len() && subject@[i].eq_spec(&self.expected.value))
    }

    fn execute(self, cx: AssertionContext, subject: Vec<X>) -> (out: AssertionOutput) {
        let mut cx = cx;
        proof {
            reveal_strlit("expected");
            reveal_strlit("value not found");
        }
        cx.annotate("expected", self.expected.as_str().to_owned());
        let expected = self.expected.inner();
        let mut found = false;
        let mut i: usize = 0;
        while i < subject.len() && !found
            invariant
                i <= subject@.len(),
                X::obeys_eq_spec() ==> (found <==> exists|j: int|
                    0 <= j < i && subject@[j].eq_spec(expected)),
            decreases subject@.len() - i,
        {
            if subject[i].eq(expected) {
                found = true;
            }
            i = i + 1;
        }
        proof {
            if X::obeys_eq_spec() && !found {
                assert(i == subject@.len());
            }
        }
        cx.pass_if(found, "value not found".to_owned())
    }

    fn execute_annotated(self, cx: AssertionContext, subject: Annotated<Vec<X>>) -> (out:
        AssertionOutput) {
        self.execute(cx, subject.into_inner())
    }
}

/// Where two sequences first differ, with the message describing the
/// difference, looking from index `i` on; `None` when they are equal.
pub open spec fn mismatch_from<X: PartialEq<U>, U>(s: Seq<X>, e: Seq<U>, i: nat) -> Option<
    (nat, Seq<char>),
>
    decreases s.len() + e.len() - i,
{
    if i >= s.len() && i >= e.len() {
        None
    } else if i < s.len() && i < e.len() {
        if s[i as int].eq_spec(&e[i as int]) {
            mismatch_from(s, e, i + 1)
        } else {
            Some((i, "values not equal"@))
        }
    } else if i < s.len() {
        Some((i, "subject has too many elements"@))
    } else {
        Some((i, "subject has too few elements"@))
    }
}

/// Whether `message` at index `k` describes a way in which a subject of
/// length `s` can differ from an expected sequence of length `e`: differing
/// values at an index both have, or one sequence ending at the other's
/// length.
pub open spec fn exact_mismatch(s: nat, e: nat, k: nat, message: Seq<char>) -> bool {
    ||| k < s && k < e && message == "values not equal"@
    ||| k == e && e < s && message == "subject has too many elements"@
    ||| k == s && s < e && message == "subject has too few elements"@
}

/// Asserts that the subject is equal, element by element, to an expected
/// sequence.
#[derive(Clone, Debug)]
pub struct ToContainExactly<U> {
    pub expected: Annotated<Vec<U>>,
}

impl<U> ToContainExactly<U> {
    /// Creates the assertion.
    pub(crate) fn new(expected: Annotated<Vec<U>>) -> (r: Self)
        ensures
            r.expected == expected,
    {
        ToContainExactly { expected }
    }
}

impl<X: PartialEq<U>, U> Assertion<Vec<X>> for ToContainExactly<U> {
    type Output = AssertionOutput;

    open spec fn accepts(&self, cx: ContextView, subject: Vec<X>) -> bool {
        cx.has_frame()
    }

    /// When the elements' equality follows its specification, the output is
    /// a success exactly when the sequences match, and otherwise a failure
    /// annotated with the index where they first differ. For other elements,
    /// a success only when the lengths are equal, or a failure annotated with
    /// an index and a message that describe a way the sequences can differ.
    open spec fn produces(&self, cx: ContextView, subject: Vec<X>, out: AssertionOutput) -> bool {
        let c = cx.annotated("expected"@, self.expected.repr@);
        if X::obeys_eq_spec() {
            match mismatch_from(subject@, self.expected.value@, 0) {
                None => out@ == pass_view(c),
                Some((k, message)) => out@ == fail_view(c.annotated("index"@, decimal(k)), message),
            }
        } else {
            ||| out@ == pass_view(c) && subject@.len() == self.expected.value@.len()
            ||| exists|k: nat, message: Seq<char>| #[trigger]
                exact_mismatch(subject@.len(), self.expected.value@.len(), k, message) && out@
                    == fail_view(c.annotated("index"@, decimal(k)), message)
        }
    }

    fn execute(self, cx: AssertionContext, subject: Vec<X>) -> (out: AssertionOutput) {
        let mut cx = cx;
        proof {
            reveal_strlit("expected");
            reveal_strlit("index");
            reveal_strlit("values not equal");
            reveal_strlit("subject has too many elements");
            reveal_strlit("subject has too few elements");
        }
        cx.annotate("expected", self.expected.as_str().to_owned());
        let ghost c = cx@;
        let expected = self.expected.inner();
        let mut idx: usize = 0;
        #[verifier::loop_isolation(false)]
        loop
            invariant
                idx <= subject@.len(),
                idx <= expected@.len(),
                cx@ == c,
                X::obeys_eq_spec() ==> mismatch_from(subject@, expected@, 0) == mismatch_from(
                    subject@,
                    expected@,
                    idx as nat,
                ),
            decreases subject@.len() - idx,
        {
            let error = if idx < subject.len() && idx < expected.len() {
                if subject[idx].eq(&expected[idx]) {
                    idx = idx + 1;
                    continue;
                }
                "values not equal"
            } else if idx < subject.len() {
                "subject has too many elements"
            } else if idx < expected.len() {
                "subject has too few elements"
            } else {
                return cx.pass();
            };
            let mut index = String::new();
            push_decimal(&mut index, idx);
            cx.annotate("index", index);
            let out: AssertionOutput = cx.fail(error.to_owned());
            assert(out@ == fail_view(c.annotated("index"@, decimal(idx as nat)), error@));
            assert(exact_mismatch(subject@.len(), expected@.len(), idx as nat, error@));
            return out;
        }
    }

    fn execute_annotated(self, cx: AssertionContext, subject: Annotated<Vec<X>>) -> (out:
        AssertionOutput) {
        self.execute(cx, subject.into_inner())
    }
}

} // verus!
