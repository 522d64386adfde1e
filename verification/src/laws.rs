//! Properties of the library as a whole: what inversion, merging and the
//! composed assertions guarantee.
use vstd::prelude::*;
use vstd::std_specs::cmp::{PartialEqSpec, PartialOrdSpec};

use crate::assertion::Assertion;
use crate::context::{ContextView, FrameView};
use crate::metadata::{Annotated, SourceLocView};
use crate::diff::{diff_entries, diff_entries_at, diff_text, max_len};
use crate::text::{join_lines, lines_of, split_acc};
use crate::general::outputs::inverted;
use crate::general::{Direction, InvertibleOutput, InvertibleResult, NotAssertion, ToCmpAssertion, ToEqual};
use crate::iterators::assertions::mismatch_from;
use crate::iterators::modifiers::element_outputs;
use crate::iterators::outputs::merged;
use crate::iterators::{MergeAssertion, MergeStrategy, MergeableOutput, ToContainExactly};
use crate::output::{AssertionOutput, AssertionResult, OutputView};

verus! {

/// Inverting an output turns a success into a failure and a failure into a
/// success.
pub proof fn law_inversion_flips(out: OutputView, cx: ContextView)
    ensures
        inverted(out, cx).passed() <==> !out.passed(),
{
}

/// Inverting a plain result (as the function form of `not` does with the
/// result of the rest of the assertion) turns a failure into a success, and
/// a success into a failure in the inverting context with the message
/// "expected a failure, received a success".
pub proof fn law_result_inversion_flips(r: AssertionResult, cx: ContextView, inverted: AssertionResult)
    requires
        r.inverted_in(cx, inverted),
    ensures
        inverted is Ok <==> r is Err,
        r is Ok ==> (inverted matches Err(e) && e@.cx == cx && e@.message
            == "expected a failure, received a success"@),
{
    reveal_strlit("expected a failure, received a success");
}

/// Inverting twice gives back the outcome it started from, and keeps the frames
/// of both execution paths: the frames visited beyond the outer context by
/// the middle one, then those visited beyond the middle context by the
/// output it started from, then the frames that output had recovered.
pub proof fn law_double_inversion(out: OutputView, inner: ContextView, outer: ContextView)
    ensures
        inverted(inverted(out, inner), outer).passed() == out.passed(),
        inverted(inverted(out, inner), outer).cx.visited == outer.visited,
        inverted(inverted(out, inner), outer).cx.recovered == inner.visited.skip(
            outer.visited.len() as int,
        ) + out.cx.visited.skip(inner.visited.len() as int) + out.cx.recovered,
{
    let once = inverted(out, inner);
    assert(once.cx.recovered == out.cx.visited.skip(inner.visited.len() as int) + out.cx.recovered);
    assert(inner.visited.skip(outer.visited.len() as int) + (out.cx.visited.skip(
        inner.visited.len() as int,
    ) + out.cx.recovered) =~= inner.visited.skip(outer.visited.len() as int) + out.cx.visited.skip(
        inner.visited.len() as int,
    ) + out.cx.recovered);
}

/// Merging outputs: under [`MergeStrategy::All`] the merged output succeeds
/// if and only if none of the outputs failed (so it succeeds when there are
/// none); under [`MergeStrategy::Any`] it succeeds if and only if at least
/// one of the outputs succeeded (so it fails when there are none).
pub proof fn law_merge_outcome(cx: ContextView, strategy: MergeStrategy, outs: Seq<OutputView>)
    ensures
        strategy == MergeStrategy::All ==> (merged(cx, strategy, outs).passed() <==> forall|i: int|
            0 <= i < outs.len() ==> #[trigger] outs[i].passed()),
        strategy == MergeStrategy::Any ==> (merged(cx, strategy, outs).passed() <==> exists|i: int|
            0 <= i < outs.len() && #[trigger] outs[i].passed()),
    decreases outs.len(),
{
    if outs.len() > 0 {
        law_merge_outcome(cx, strategy, outs.drop_first());
        assert forall|i: int| 0 < i < outs.len() implies outs[i] == outs.drop_first()[i - 1] by {}
        if strategy == MergeStrategy::Any && !outs[0].passed() && outs.len() > 1 {
            if merged(cx, strategy, outs).passed() {
                let k = choose|k: int| 0 <= k < outs.drop_first().len() && outs.drop_first()[k].passed();
                assert(outs[k + 1].passed());
            } else {
                assert forall|i: int| 0 <= i < outs.len() implies !#[trigger] outs[i].passed() by {
                    if i > 0 {
                        assert(outs[i] == outs.drop_first()[i - 1]);
                    }
                }
            }
        }
        if strategy == MergeStrategy::All && outs[0].passed() && outs.len() > 1 {
            if !merged(cx, strategy, outs).passed() {
                let k = choose|k: int| 0 <= k < outs.drop_first().len() && !outs.drop_first()[k].passed();
                assert(!outs[k + 1].passed());
            } else {
                assert forall|i: int| 0 <= i < outs.len() implies #[trigger] outs[i].passed() by {
                    if i > 0 {
                        assert(outs[i] == outs.drop_first()[i - 1]);
                    }
                }
            }
        }
    }
}

/// An inverted equality succeeds exactly when the subject is not equal to
/// the expected value (for subjects whose equality follows its
/// specification).
pub proof fn law_not_equal<T: PartialEq<U>, U>(
    assertion: NotAssertion<ToEqual<U>>,
    cx: ContextView,
    subject: T,
    out: AssertionOutput,
)
    requires
        T::obeys_eq_spec(),
        assertion.produces(cx, subject, out),
    ensures
        out@.passed() <==> !subject.eq_spec(&assertion.next.expected.value),
{
    let inner = choose|o: AssertionOutput| #[trigger]
        assertion.next.produces(cx, subject, o) && o.inverted_in(cx, out);
    law_inversion_flips(inner@, cx);
}

/// A forked assertion runs on the elements of its subject in order, stops
/// at the first execution that settles the outcome, and merges the outputs:
/// with [`MergeStrategy::All`] it succeeds if and only if it ran on every
/// element and every execution succeeded, with [`MergeStrategy::Any`] if and
/// only if one of the executions succeeded.
pub proof fn law_fork_outcome<X, A: Assertion<X, Output = AssertionOutput> + Clone>(
    assertion: MergeAssertion<A>,
    cx: ContextView,
    subject: Vec<X>,
    out: AssertionOutput,
)
    requires
        assertion.produces(cx, subject, out),
    ensures
        exists|copies: Seq<A>, outs: Seq<AssertionOutput>| #[trigger]
            element_outputs(assertion.next, cx, subject@, assertion.strategy, copies, outs) && (assertion.strategy
                == MergeStrategy::All ==> (out@.passed() <==> outs.len() == subject@.len() && forall|
                i: int,
            | 0 <= i < outs.len() ==> #[trigger] outs[i]@.passed())) && (assertion.strategy
                == MergeStrategy::Any ==> (out@.passed() <==> exists|i: int|
                0 <= i < outs.len() && #[trigger] outs[i]@.passed())),
{
    let (copies, outs) = choose|copies: Seq<A>, outs: Seq<AssertionOutput>| #[trigger]
        element_outputs(assertion.next, cx, subject@, assertion.strategy, copies, outs)
            && AssertionOutput::merges(cx, assertion.strategy, outs, out);
    let views = crate::iterators::outputs::output_views(outs);
    law_merge_outcome(cx, assertion.strategy, views);
    assert(out@ == merged(cx, assertion.strategy, views));
    assert forall|i: int| 0 <= i < outs.len() implies #[trigger] views[i] == outs[i]@ by {}
    if assertion.strategy == MergeStrategy::All {
        assert((forall|i: int| 0 <= i < outs.len() ==> #[trigger] outs[i]@.passed()) <==> (forall|
            i: int,
        | 0 <= i < views.len() ==> #[trigger] views[i].passed())) by {
            if forall|i: int| 0 <= i < outs.len() ==> #[trigger] outs[i]@.passed() {
                assert forall|i: int| 0 <= i < views.len() implies #[trigger] views[i].passed() by {
                    assert(views[i] == outs[i]@);
                }
            }
            if forall|i: int| 0 <= i < views.len() ==> #[trigger] views[i].passed() {
                assert forall|i: int| 0 <= i < outs.len() implies #[trigger] outs[i]@.passed() by {
                    assert(views[i] == outs[i]@);
                }
            }
        }
        if forall|i: int| 0 <= i < outs.len() ==> #[trigger] outs[i]@.passed() {
            if outs.len() != subject@.len() {
                assert(outs.last().decides(assertion.strategy));
                assert(outs[outs.len() - 1]@.passed());
            }
        }
    } else {
        assert((exists|i: int| 0 <= i < outs.len() && #[trigger] outs[i]@.passed()) <==> (exists|
            i: int,
        | 0 <= i < views.len() && #[trigger] views[i].passed())) by {
            if exists|i: int| 0 <= i < outs.len() && #[trigger] outs[i]@.passed() {
                let k = choose|i: int| 0 <= i < outs.len() && #[trigger] outs[i]@.passed();
                assert(views[k] == outs[k]@);
            }
            if exists|i: int| 0 <= i < views.len() && #[trigger] views[i].passed() {
                let k = choose|i: int| 0 <= i < views.len() && #[trigger] views[i].passed();
                assert(views[k] == outs[k]@);
            }
        }
    }
    assert(element_outputs(assertion.next, cx, subject@, assertion.strategy, copies, outs));
}

/// Two sequences have no mismatch exactly when they have the same length
/// and are equal element by element.
pub proof fn law_exact_match<X: PartialEq<U>, U>(s: Seq<X>, e: Seq<U>, i: nat)
    requires
        i <= s.len(),
        i <= e.len(),
    ensures
        mismatch_from(s, e, i) is None <==> (s.len() == e.len() && forall|j: int|
            i <= j < s.len() ==> #[trigger] s[j].eq_spec(&e[j])),
    decreases s.len() + e.len() - i,
{
    if i < s.len() && i < e.len() && s[i as int].eq_spec(&e[i as int]) {
        law_exact_match(s, e, i + 1);
        if s.len() == e.len() && (forall|j: int| i + 1 <= j < s.len() ==> #[trigger] s[j].eq_spec(&e[j])) {
            assert forall|j: int| i <= j < s.len() implies #[trigger] s[j].eq_spec(&e[j]) by {
                if j > i {
                }
            }
        }
    }
}

/// An exact-contents assertion succeeds exactly when the subject has the
/// expected length and is equal to the expected sequence element by element
/// (for elements whose equality follows its specification).
pub proof fn law_contain_exactly_outcome<X: PartialEq<U>, U>(
    assertion: ToContainExactly<U>,
    cx: ContextView,
    subject: Vec<X>,
    out: AssertionOutput,
)
    requires
        X::obeys_eq_spec(),
        assertion.produces(cx, subject, out),
    ensures
        out@.passed() <==> (subject@.len() == assertion.expected.value@.len() && forall|j: int|
            0 <= j < subject@.len() ==> #[trigger] subject@[j].eq_spec(
                &assertion.expected.value@[j],
            )),
{
    law_exact_match(subject@, assertion.expected.value@, 0);
}

/// Starting the next step keeps the context on the same execution path: the
/// same assertion, one more step visited and one fewer remaining.
pub proof fn law_advance_extends(cx: ContextView)
    requires
        cx.remaining.len() > 0,
    ensures
        cx.advanced().extends(cx),
        cx.advanced().visited.len() == cx.visited.len() + 1,
        cx.advanced().has_frame(),
{
}

/// The names of a list of frames.
pub open spec fn frame_names(frames: Seq<FrameView>) -> Seq<Seq<char>> {
    frames.map_values(|f: FrameView| f.name)
}

/// Whether a context lies on an execution path of the assertion written at
/// `location` whose steps are named `steps`: the names of the visited
/// frames followed by the names of the remaining steps are exactly `steps`.
pub open spec fn on_path(cx: ContextView, location: SourceLocView, steps: Seq<Seq<char>>) -> bool {
    &&& cx.location == location
    &&& frame_names(cx.visited) + cx.remaining == steps
}

/// An operation on a context, as seen through its view. Cloning leaves the
/// view unchanged and so needs no operation of its own.
pub enum ContextOp {
    /// [`AssertionContext::next`](crate::context::AssertionContext::next).
    Next,
    /// [`AssertionContext::annotate`](crate::context::AssertionContext::annotate)
    /// with a key and a value.
    Annotate(Seq<char>, Seq<char>),
    /// [`AssertionContext::add_page`](crate::context::AssertionContext::add_page)
    /// with a title and a page.
    AddPage(Seq<char>, Seq<char>),
    /// [`AssertionContext::recover`](crate::context::AssertionContext::recover)
    /// from another context.
    Recover(ContextView),
}

/// The context after applying a sequence of operations, in order.
pub open spec fn after_ops(cx: ContextView, ops: Seq<ContextOp>) -> ContextView
    decreases ops.len(),
{
    if ops.len() == 0 {
        cx
    } else {
        let c = after_ops(cx, ops.drop_last());
        match ops.last() {
            ContextOp::Next => c.advanced(),
            ContextOp::Annotate(key, value) => c.annotated(key, value),
            ContextOp::AddPage(title, page) => c.paged(title, page),
            ContextOp::Recover(other) => c.recovering(other),
        }
    }
}

/// Whether each operation of a sequence meets the precondition of its
/// function: `next` needs a remaining step, annotations and pages a current
/// frame, and recovering a context that visited at least as many frames.
pub open spec fn ops_allowed(cx: ContextView, ops: Seq<ContextOp>) -> bool
    decreases ops.len(),
{
    if ops.len() == 0 {
        true
    } else {
        let c = after_ops(cx, ops.drop_last());
        &&& ops_allowed(cx, ops.drop_last())
        &&& match ops.last() {
            ContextOp::Next => c.remaining.len() > 0,
            ContextOp::Annotate(_, _) => c.has_frame(),
            ContextOp::AddPage(_, _) => c.has_frame(),
            ContextOp::Recover(other) => c.visited.len() <= other.visited.len(),
        }
    }
}

/// A new context starts its execution path: nothing visited, every step
/// remaining, at the location where the assertion was written.
pub proof fn law_new_context_on_path(subject: Seq<char>, location: SourceLocView, steps: Seq<Seq<char>>)
    ensures
        on_path(
            ContextView {
                subject,
                location,
                visited: Seq::empty(),
                remaining: steps,
                recovered: Seq::empty(),
            },
            location,
            steps,
        ),
{
    assert(frame_names(Seq::<FrameView>::empty()) + steps =~= steps);
}

/// Every sequence of context operations keeps a context on its execution
/// path: the source location never changes, and the names of the visited
/// frames followed by the remaining step names stay exactly the steps of
/// the assertion, in order.
pub proof fn law_ops_keep_path(
    cx: ContextView,
    location: SourceLocView,
    steps: Seq<Seq<char>>,
    ops: Seq<ContextOp>,
)
    requires
        on_path(cx, location, steps),
        ops_allowed(cx, ops),
    ensures
        on_path(after_ops(cx, ops), location, steps),
        after_ops(cx, ops).location == cx.location,
        after_ops(cx, ops).subject == cx.subject,
    decreases ops.len(),
{
    if ops.len() > 0 {
        law_ops_keep_path(cx, location, steps, ops.drop_last());
        let c = after_ops(cx, ops.drop_last());
        match ops.last() {
            ContextOp::Next => {
                let n = c.advanced();
                assert(frame_names(n.visited) =~= frame_names(c.visited).push(c.remaining[0]));
                assert(frame_names(n.visited) + n.remaining =~= frame_names(c.visited)
                    + c.remaining);
            },
            ContextOp::Annotate(key, value) => {
                let n = c.annotated(key, value);
                assert(frame_names(n.visited) =~= frame_names(c.visited));
            },
            ContextOp::AddPage(title, page) => {
                let n = c.paged(title, page);
                assert(frame_names(n.visited) =~= frame_names(c.visited));
            },
            ContextOp::Recover(other) => {},
        }
    }
}

/// An ordering assertion decides by the ordering of the subject against the
/// boundary (for subjects whose ordering follows its specification): "less
/// than" succeeds exactly when the subject orders before the boundary, "less
/// than or equal to" also when it orders equal, and likewise for "greater
/// than"; a subject equal to the boundary fails the strict forms and passes
/// the others. An assertion without a side always fails.
pub proof fn law_cmp_outcome<T: PartialOrd<U>, U>(
    assertion: ToCmpAssertion<U>,
    cx: ContextView,
    subject: T,
    out: AssertionOutput,
)
    requires
        T::obeys_partial_cmp_spec(),
        assertion.produces(cx, subject, out),
    ensures
        ({
            let o = subject.partial_cmp_spec(&assertion.boundary.value);
            &&& assertion.direction == Direction::Less && !assertion.allow_eq ==> (out@.passed()
                <==> o == Some(std::cmp::Ordering::Less))
            &&& assertion.direction == Direction::Less && assertion.allow_eq ==> (out@.passed()
                <==> (o == Some(std::cmp::Ordering::Less) || o == Some(std::cmp::Ordering::Equal)))
            &&& assertion.direction == Direction::Greater && !assertion.allow_eq ==> (out@.passed()
                <==> o == Some(std::cmp::Ordering::Greater))
            &&& assertion.direction == Direction::Greater && assertion.allow_eq ==> (out@.passed()
                <==> (o == Some(std::cmp::Ordering::Greater) || o == Some(
                std::cmp::Ordering::Equal,
            )))
            &&& assertion.direction == Direction::Equal ==> !out@.passed()
            &&& o == Some(std::cmp::Ordering::Equal) ==> (out@.passed() <==> assertion.allow_eq
                && assertion.direction != Direction::Equal)
        }),
{
}

/// Whether a diff entry is kept when reading one side of the diff back:
/// common entries (prefixed by two spaces) always, entries of the received
/// text (`+ `) on the received side, entries of the expected text (`- `) on
/// the expected side.
pub open spec fn kept_on_side(entry: Seq<char>, received: bool) -> bool {
    &&& entry.len() >= 2
    &&& entry[1] == ' '
    &&& entry[0] == ' ' || (received && entry[0] == '+') || (!received && entry[0] == '-')
}

/// One side of a diff read back: the kept entries without their prefixes.
pub open spec fn diff_side(entries: Seq<Seq<char>>, received: bool) -> Seq<Seq<char>>
    decreases entries.len(),
{
    if entries.len() == 0 {
        Seq::empty()
    } else if kept_on_side(entries.last(), received) {
        diff_side(entries.drop_last(), received).push(entries.last().skip(2))
    } else {
        diff_side(entries.drop_last(), received)
    }
}

proof fn lemma_diff_side_concat(a: Seq<Seq<char>>, b: Seq<Seq<char>>, received: bool)
    ensures
        diff_side(a + b, received) == diff_side(a, received) + diff_side(b, received),
    decreases b.len(),
{
    if b.len() == 0 {
        assert(a + b =~= a);
        assert(diff_side(a, received) + diff_side(b, received) =~= diff_side(a, received));
    } else {
        lemma_diff_side_concat(a, b.drop_last(), received);
        assert((a + b).drop_last() =~= a + b.drop_last());
        assert((a + b).last() == b.last());
        if kept_on_side(b.last(), received) {
            assert(diff_side(a, received) + diff_side(b, received) =~= (diff_side(a, received)
                + diff_side(b.drop_last(), received)).push(b.last().skip(2)));
        }
    }
}

proof fn lemma_prefixed_kept(prefix: Seq<char>, line: Seq<char>, received: bool)
    requires
        prefix.len() == 2,
    ensures
        (prefix + line).skip(2) == line,
        kept_on_side(prefix + line, received) == kept_on_side(prefix, received),
{
    assert((prefix + line).skip(2) =~= line);
}

proof fn lemma_diff_sides_prefix(e: Seq<Seq<char>>, s: Seq<Seq<char>>, n: nat)
    ensures
        diff_side(diff_entries(e, s, n), true) == s.take(if n <= s.len() { n as int } else { s.len() as int }),
        diff_side(diff_entries(e, s, n), false) == e.take(if n <= e.len() { n as int } else { e.len() as int }),
    decreases n,
{
    if n == 0 {
        assert(s.take(0) =~= Seq::<Seq<char>>::empty());
        assert(e.take(0) =~= Seq::<Seq<char>>::empty());
    } else {
        let i = n - 1;
        lemma_diff_sides_prefix(e, s, (n - 1) as nat);
        let prev = diff_entries(e, s, (n - 1) as nat);
        let block = diff_entries_at(e, s, i);
        lemma_diff_side_concat(prev, block, true);
        lemma_diff_side_concat(prev, block, false);
        if i < e.len() && i < s.len() && e[i] == s[i] {
            lemma_prefixed_kept(seq![' ', ' '], e[i], true);
            lemma_prefixed_kept(seq![' ', ' '], e[i], false);
            assert(block.drop_last() =~= Seq::<Seq<char>>::empty());
            assert(block.last() == seq![' ', ' '] + e[i]);
            assert(kept_on_side(seq![' ', ' '], true));
            assert(kept_on_side(seq![' ', ' '], false));
            assert(diff_side(Seq::<Seq<char>>::empty(), true) == Seq::<Seq<char>>::empty());
            assert(diff_side(Seq::<Seq<char>>::empty(), false) == Seq::<Seq<char>>::empty());
            assert(diff_side(block, true) =~= seq![s[i]]);
            assert(diff_side(block, false) =~= seq![e[i]]);
        } else {
            let minus: Seq<Seq<char>> = if i < e.len() { seq![seq!['-', ' '] + e[i]] } else { Seq::empty() };
            let plus: Seq<Seq<char>> = if i < s.len() { seq![seq!['+', ' '] + s[i]] } else { Seq::empty() };
            assert(block == minus + plus);
            assert(diff_side(Seq::<Seq<char>>::empty(), true) == Seq::<Seq<char>>::empty());
            assert(diff_side(Seq::<Seq<char>>::empty(), false) == Seq::<Seq<char>>::empty());
            assert(!kept_on_side(seq!['-', ' '], true));
            assert(kept_on_side(seq!['-', ' '], false));
            assert(kept_on_side(seq!['+', ' '], true));
            assert(!kept_on_side(seq!['+', ' '], false));
            lemma_diff_side_concat(minus, plus, true);
            lemma_diff_side_concat(minus, plus, false);
            if i < e.len() {
                lemma_prefixed_kept(seq!['-', ' '], e[i], true);
                lemma_prefixed_kept(seq!['-', ' '], e[i], false);
                assert(minus.drop_last() =~= Seq::<Seq<char>>::empty());
                assert(minus.last() == seq!['-', ' '] + e[i]);
                assert(diff_side(minus, true) =~= Seq::<Seq<char>>::empty());
                assert(diff_side(minus, false) =~= seq![e[i]]);
            } else {
                assert(diff_side(minus, true) =~= Seq::<Seq<char>>::empty());
                assert(diff_side(minus, false) =~= Seq::<Seq<char>>::empty());
            }
            if i < s.len() {
                lemma_prefixed_kept(seq!['+', ' '], s[i], true);
                lemma_prefixed_kept(seq!['+', ' '], s[i], false);
                assert(plus.drop_last() =~= Seq::<Seq<char>>::empty());
                assert(plus.last() == seq!['+', ' '] + s[i]);
                assert(diff_side(plus, true) =~= seq![s[i]]);
                assert(diff_side(plus, false) =~= Seq::<Seq<char>>::empty());
            } else {
                assert(diff_side(plus, true) =~= Seq::<Seq<char>>::empty());
                assert(diff_side(plus, false) =~= Seq::<Seq<char>>::empty());
            }
        }
        if n <= s.len() {
            assert(s.take(n as int) =~= s.take(n - 1).push(s[i]));
        } else {
            assert(s.take(s.len() as int) =~= s.take(if n - 1 <= s.len() { n - 1 } else { s.len() as int }));
        }
        if n <= e.len() {
            assert(e.take(n as int) =~= e.take(n - 1).push(e[i]));
        } else {
            assert(e.take(e.len() as int) =~= e.take(if n - 1 <= e.len() { n - 1 } else { e.len() as int }));
        }
    }
}

/// A diff shows both texts faithfully: reading back its common lines and
/// its `+ ` lines (without their prefixes) gives exactly the lines of the
/// received text, and its common lines and `- ` lines give exactly the lines
/// of the expected text. So a line shown as common is the same in both
/// texts, and every received line that differs appears as a `+ ` line.
pub proof fn law_diff_recovers_texts(expected: Seq<char>, received: Seq<char>)
    ensures
        ({
            let e = lines_of(expected);
            let s = lines_of(received);
            let entries = diff_entries(e, s, max_len(e.len(), s.len()));
            &&& diff_side(entries, true) == s
            &&& diff_side(entries, false) == e
        }),
{
    let e = lines_of(expected);
    let s = lines_of(received);
    lemma_diff_sides_prefix(e, s, max_len(e.len(), s.len()));
    assert(s.take(s.len() as int) =~= s);
    assert(e.take(e.len() as int) =~= e);
}

/// An equality of annotated values that fails on representations that
/// differ, at least one of which spans several lines, carries a diff of
/// the expected against the received representation as a page of its
/// frame. The representations compared are the display ones when both
/// values have one, else the pretty debug ones.
pub proof fn law_equality_diff_page<T: PartialEq<U>, U>(
    assertion: ToEqual<U>,
    cx: ContextView,
    subject: Annotated<T>,
    out: AssertionOutput,
    shown: Seq<char>,
    wanted: Seq<char>,
)
    requires
        assertion.produces_annotated(cx, subject, out),
        !out@.passed(),
        (subject.display is Some && assertion.expected.display is Some && shown
            == subject.display.unwrap()@ && wanted == assertion.expected.display.unwrap()@) || (
        (subject.display is None || assertion.expected.display is None) && subject.pretty is Some
            && assertion.expected.pretty is Some && shown == subject.pretty.unwrap()@ && wanted
            == assertion.expected.pretty.unwrap()@),
        shown != wanted,
        (exists|i: int| 0 <= i < shown.len() && shown[i] == '\n') || (exists|i: int|
            0 <= i < wanted.len() && wanted[i] == '\n'),
    ensures
        out@.error == Some("values not equal"@),
        out@.cx == cx.annotated("expected"@, assertion.expected.repr@).paged(
            "diff"@,
            diff_text(wanted, shown),
        ),
{
    reveal_strlit("values not equal");
}

/// Whether a text has no line feed.
pub open spec fn single_line(t: Seq<char>) -> bool {
    forall|i: int| 0 <= i < t.len() ==> t[i] != '\n'
}

proof fn lemma_split_single_lines(t: Seq<char>)
    ensures
        forall|k: int| 0 <= k < split_acc(t).0.len() ==> single_line(#[trigger] split_acc(t).0[k]),
        single_line(split_acc(t).1),
    decreases t.len(),
{
    if t.len() > 0 {
        lemma_split_single_lines(t.drop_last());
        let prev = split_acc(t.drop_last());
        if t.last() != '\n' {
            assert forall|i: int| 0 <= i < prev.1.push(t.last()).len() implies prev.1.push(
                t.last(),
            )[i] != '\n' by {
                if i < prev.1.len() {
                    assert(prev.1.push(t.last())[i] == prev.1[i]);
                }
            }
        } else {
            assert forall|k: int| 0 <= k < prev.0.push(prev.1).len() implies single_line(
                #[trigger] prev.0.push(prev.1)[k],
            ) by {
                if k < prev.0.len() {
                    assert(prev.0.push(prev.1)[k] == prev.0[k]);
                }
            }
        }
    }
}

proof fn lemma_split_append_plain(p: Seq<char>, q: Seq<char>)
    requires
        single_line(q),
    ensures
        split_acc(p + q) == (split_acc(p).0, split_acc(p).1 + q),
    decreases q.len(),
{
    if q.len() == 0 {
        assert(p + q =~= p);
        assert(split_acc(p).1 + q =~= split_acc(p).1);
    } else {
        let q0 = q.drop_last();
        assert(single_line(q0)) by {
            assert forall|i: int| 0 <= i < q0.len() implies q0[i] != '\n' by {
                assert(q0[i] == q[i]);
            }
        }
        lemma_split_append_plain(p, q0);
        assert((p + q).drop_last() =~= p + q0);
        assert((p + q).last() == q.last());
        assert(q.last() != '\n');
        assert(split_acc(p).1 + q =~= (split_acc(p).1 + q0).push(q.last()));
    }
}

proof fn lemma_lines_of_join(ls: Seq<Seq<char>>)
    requires
        ls.len() > 0,
        forall|k: int| 0 <= k < ls.len() ==> single_line(#[trigger] ls[k]),
    ensures
        lines_of(join_lines(ls)) == ls,
    decreases ls.len(),
{
    if ls.len() == 1 {
        lemma_split_append_plain(Seq::empty(), ls[0]);
        assert(Seq::<char>::empty() + ls[0] =~= ls[0]);
        assert(lines_of(ls[0]) =~= ls);
    } else {
        let init = ls.drop_last();
        assert forall|k: int| 0 <= k < init.len() implies single_line(#[trigger] init[k]) by {
            assert(init[k] == ls[k]);
        }
        lemma_lines_of_join(init);
        let j = join_lines(init);
        assert(join_lines(ls) == j + seq!['\n'] + ls.last());
        assert(j + seq!['\n'] + ls.last() =~= j.push('\n') + ls.last());
        assert(single_line(ls.last()));
        lemma_split_append_plain(j.push('\n'), ls.last());
        assert(j.push('\n').drop_last() =~= j);
        assert(split_acc(j.push('\n')) == (lines_of(j), Seq::<char>::empty()));
        assert(Seq::<char>::empty() + ls.last() =~= ls.last());
        assert(lines_of(join_lines(ls)) =~= init.push(ls.last()));
    }
}

proof fn lemma_prefixed_single(prefix: Seq<char>, line: Seq<char>)
    requires
        single_line(prefix),
        single_line(line),
    ensures
        single_line(prefix + line),
{
    assert forall|i: int| 0 <= i < (prefix + line).len() implies (prefix + line)[i] != '\n' by {
        if i < prefix.len() {
            assert((prefix + line)[i] == prefix[i]);
        } else {
            assert((prefix + line)[i] == line[i - prefix.len()]);
        }
    }
}

proof fn lemma_entries_single_lines(e: Seq<Seq<char>>, s: Seq<Seq<char>>, n: nat)
    requires
        forall|k: int| 0 <= k < e.len() ==> single_line(#[trigger] e[k]),
        forall|k: int| 0 <= k < s.len() ==> single_line(#[trigger] s[k]),
        n <= max_len(e.len(), s.len()),
    ensures
        forall|k: int|
            0 <= k < diff_entries(e, s, n).len() ==> single_line(#[trigger] diff_entries(e, s, n)[k]),
        n > 0 ==> diff_entries(e, s, n).len() > 0,
    decreases n,
{
    if n > 0 {
        let i = n - 1;
        lemma_entries_single_lines(e, s, (n - 1) as nat);
        let prev = diff_entries(e, s, (n - 1) as nat);
        let block = diff_entries_at(e, s, i);
        assert(single_line(seq![' ', ' ']));
        assert(single_line(seq!['-', ' ']));
        assert(single_line(seq!['+', ' ']));
        if i < e.len() {
            lemma_prefixed_single(seq![' ', ' '], e[i]);
            lemma_prefixed_single(seq!['-', ' '], e[i]);
        }
        if i < s.len() {
            lemma_prefixed_single(seq!['+', ' '], s[i]);
        }
        assert forall|k: int| 0 <= k < block.len() implies single_line(#[trigger] block[k]) by {}
        assert(block.len() > 0);
        assert forall|k: int| 0 <= k < (prev + block).len() implies single_line(
            #[trigger] (prev + block)[k],
        ) by {
            if k < prev.len() {
                assert((prev + block)[k] == prev[k]);
            } else {
                assert((prev + block)[k] == block[k - prev.len()]);
            }
        }
    }
}

/// The text of a diff shows both texts faithfully: reading back the common
/// lines and the `+ ` lines of its text (without their prefixes) gives
/// exactly the lines of the received text, and the common lines and the
/// `- ` lines give exactly the lines of the expected text.
pub proof fn law_diff_text_recovers_texts(expected: Seq<char>, received: Seq<char>)
    ensures
        diff_side(lines_of(diff_text(expected, received)), true) == lines_of(received),
        diff_side(lines_of(diff_text(expected, received)), false) == lines_of(expected),
{
    let e = lines_of(expected);
    let s = lines_of(received);
    let n = max_len(e.len(), s.len());
    law_diff_recovers_texts(expected, received);
    lemma_split_single_lines(expected);
    lemma_split_single_lines(received);
    assert forall|k: int| 0 <= k < e.len() implies single_line(#[trigger] e[k]) by {
        if k < split_acc(expected).0.len() {
            assert(e[k] == split_acc(expected).0[k]);
        }
    }
    assert forall|k: int| 0 <= k < s.len() implies single_line(#[trigger] s[k]) by {
        if k < split_acc(received).0.len() {
            assert(s[k] == split_acc(received).0[k]);
        }
    }
    lemma_entries_single_lines(e, s, n);
    lemma_lines_of_join(diff_entries(e, s, n));
}

} // verus!
