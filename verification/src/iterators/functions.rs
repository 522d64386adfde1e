//! Modifiers for sequences in function form: each runs the rest of the
//! assertion, given as a function of the context and the subject.
use vstd::prelude::*;

use crate::context::{AssertionContext, ContextView};
use crate::iterators::modifiers::index_context;
use crate::iterators::MergeableResult;
use crate::metadata::Annotated;
use crate::output::{AssertionError, AssertionResult, ErrorView};
use crate::text::{decimal, push_decimal};
use crate::vecs::reversed;

verus! {

/// Whether a result settles the merge on its own: a failure when all
/// results must succeed (`all`), a success when any may (`!all`).
pub open spec fn settles<O: MergeableResult>(o: O, all: bool) -> bool {
    if all {
        o.ends_all()
    } else {
        o.ends_any()
    }
}

/// Whether `outs` are the results of `next` on the first `outs.len()`
/// elements of `subject`, in order, run in the contexts `contexts` (the
/// context of each element's index), none of which settles the merge.
pub open spec fn unsettled_results<X, O: MergeableResult, N: Fn(AssertionContext, X) -> O>(
    next: N,
    cx: ContextView,
    subject: Seq<X>,
    all: bool,
    contexts: Seq<AssertionContext>,
    outs: Seq<O>,
) -> bool {
    &&& outs.len() <= subject.len()
    &&& contexts.len() == outs.len()
    &&& forall|i: int|
        0 <= i < outs.len() ==> #[trigger] call_ensures(next, (contexts[i], subject[i]), outs[i])
            && contexts[i]@ == index_context(cx, i)
    &&& forall|i: int| 0 <= i < outs.len() ==> !settles(#[trigger] outs[i], all)
}

/// Whether `outs` are the results of running `next` on the elements of
/// `subject` in order, in the contexts `contexts`, up to and including the
/// first result that settles the merge: no element after it is run.
pub open spec fn element_results<X, O: MergeableResult, N: Fn(AssertionContext, X) -> O>(
    next: N,
    cx: ContextView,
    subject: Seq<X>,
    all: bool,
    contexts: Seq<AssertionContext>,
    outs: Seq<O>,
) -> bool {
    ||| outs.len() == subject.len() && unsettled_results(next, cx, subject, all, contexts, outs)
    ||| outs.len() > 0 && settles(outs.last(), all) && unsettled_results(
        next,
        cx,
        subject,
        all,
        contexts.drop_last(),
        outs.drop_last(),
    ) && call_ensures(next, (contexts.last(), subject[outs.len() - 1]), outs.last())
        && contexts.last()@ == index_context(cx, outs.len() - 1) && contexts.len() == outs.len()
}

/// Whether `next` can run on every element it may be given: on the element
/// after any run of results that did not settle the merge.
pub open spec fn runs_on<X, O: MergeableResult, N: Fn(AssertionContext, X) -> O>(
    next: N,
    cx: ContextView,
    subject: Seq<X>,
    all: bool,
) -> bool {
    forall|contexts: Seq<AssertionContext>, outs: Seq<O>, c: AssertionContext|
        #![trigger unsettled_results(next, cx, subject, all, contexts, outs), call_requires(next, (c, subject[outs.len() as int]))]
        unsettled_results(next, cx, subject, all, contexts, outs) && outs.len() < subject.len()
            && c@ == index_context(cx, outs.len() as int) ==> call_requires(
            next,
            (c, subject[outs.len() as int]),
        )
}

/// Runs `next` on the elements in order, each in a copy of the context
/// annotated with the element's index, and stops after the first result
/// that settles the merge.
fn run_until<X, O: MergeableResult, N: Fn(AssertionContext, X) -> O>(
    cx: &AssertionContext,
    subject: Vec<X>,
    next: &N,
    all: bool,
) -> (r: (Vec<O>, Ghost<Seq<AssertionContext>>))
    requires
        cx@.has_frame(),
        runs_on::<X, O, N>(*next, cx@, subject@, all),
    ensures
        element_results(*next, cx@, subject@, all, r.1@, r.0@),
{
    let ghost items = subject@;
    let total = subject.len();
    let mut rest = reversed(subject);
    let mut outs: Vec<O> = Vec::new();
    let ghost mut contexts: Seq<AssertionContext> = Seq::empty();
    let mut idx: usize = 0;
    #[verifier::loop_isolation(false)]
    while rest.len() > 0
        invariant
            cx@.has_frame(),
            runs_on::<X, O, N>(*next, cx@, items, all),
            idx == outs@.len(),
            items.len() == total,
            rest@.len() + idx == items.len(),
            forall|i: int| 0 <= i < rest@.len() ==> rest@[i] == items[items.len() - 1 - i],
            unsettled_results(*next, cx@, items, all, contexts, outs@),
        decreases rest@.len(),
    {
        let item = rest.pop().unwrap();
        assert(item == items[idx as int]);
        let mut item_cx = cx.clone();
        let mut index = String::new();
        push_decimal(&mut index, idx);
        item_cx.annotate("index", index);
        proof {
            reveal_strlit("index");
        }
        assert(item_cx@ == index_context(cx@, idx as int));
        assert(call_requires(*next, (item_cx, items[outs@.len() as int])));
        let ghost prev_contexts = contexts;
        let ghost prev_outs = outs@;
        proof {
            contexts = contexts.push(item_cx);
        }
        let out = next(item_cx, item);
        let stop = if all {
            out.decides_all()
        } else {
            out.decides_any()
        };
        outs.push(out);
        idx = idx + 1;
        if stop {
            assert(outs@.drop_last() =~= prev_outs);
            assert(contexts.drop_last() =~= prev_contexts);
            return (outs, Ghost(contexts));
        }
        assert forall|i: int| 0 <= i < outs@.len() implies #[trigger] call_ensures(
            *next,
            (contexts[i], items[i]),
            outs@[i],
        ) && contexts[i]@ == index_context(cx@, i) by {
            if i < prev_outs.len() {
                assert(outs@[i] == prev_outs[i]);
                assert(contexts[i] == prev_contexts[i]);
            } else {
                assert(contexts[i] == item_cx);
                assert(items[i] == item);
            }
        }
        assert forall|i: int| 0 <= i < outs@.len() implies !settles(#[trigger] outs@[i], all) by {
            if i < prev_outs.len() {
                assert(outs@[i] == prev_outs[i]);
            }
        }
    }
    (outs, Ghost(contexts))
}

/// Executes the rest of an assertion on the elements of the subject in
/// order, stopping at the first failure, and succeeds if and only if none
/// of the executions failed.
pub fn all<X, O: MergeableResult, N: Fn(AssertionContext, X) -> O>(
    cx: AssertionContext,
    subject: Vec<X>,
    next: N,
) -> (r: O::Merged)
    requires
        cx@.has_frame(),
        runs_on::<X, O, N>(next, cx@, subject@, true),
    ensures
        exists|contexts: Seq<AssertionContext>, outs: Seq<O>| #[trigger]
            element_results(next, cx@, subject@, true, contexts, outs) && O::merges_all(cx@, outs, r),
{
    let (outs, contexts) = run_until(&cx, subject, &next, true);
    let ghost os = outs@;
    let r = O::merge_all(cx, outs);
    assert(element_results(next, cx@, subject@, true, contexts@, os) && O::merges_all(cx@, os, r));
    r
}

/// Executes the rest of an assertion on the elements of the subject in
/// order, stopping at the first success, and succeeds if and only if at
/// least one of the executions succeeded.
pub fn any<X, O: MergeableResult, N: Fn(AssertionContext, X) -> O>(
    cx: AssertionContext,
    subject: Vec<X>,
    next: N,
) -> (r: O::Merged)
    requires
        cx@.has_frame(),
        runs_on::<X, O, N>(next, cx@, subject@, false),
    ensures
        exists|contexts: Seq<AssertionContext>, outs: Seq<O>| #[trigger]
            element_results(next, cx@, subject@, false, contexts, outs) && O::merges_any(cx@, outs, r),
{
    let (outs, contexts) = run_until(&cx, subject, &next, false);
    let ghost os = outs@;
    let r = O::merge_any(cx, outs);
    assert(element_results(next, cx@, subject@, false, contexts@, os) && O::merges_any(cx@, os, r));
    r
}

/// Counts the elements of the subject, records the count, and executes the
/// rest of the assertion on it.
pub fn count<X, O, N: FnOnce(AssertionContext, usize) -> O>(
    cx: AssertionContext,
    subject: Vec<X>,
    next: N,
) -> (r: O)
    requires
        cx@.has_frame(),
        forall|c: AssertionContext|
            c@ == cx@.annotated("count"@, decimal(subject@.len())) ==> #[trigger] call_requires(
                next,
                (c, subject@.len() as usize),
            ),
    ensures
        exists|c: AssertionContext| #[trigger]
            call_ensures(next, (c, subject@.len() as usize), r) && c@ == cx@.annotated(
                "count"@,
                decimal(subject@.len()),
            ),
{
    let mut cx = cx;
    let n = subject.len();
    let mut text = String::new();
    push_decimal(&mut text, n);
    proof {
        reveal_strlit("count");
    }
    cx.annotate("count", text);
    assert(n == subject@.len() as usize);
    let ghost c = cx;
    let r = next(cx, n);
    assert(call_ensures(next, (c, subject@.len() as usize), r));
    r
}

/// Executes the rest of an assertion on the element of the subject at a
/// zero-based index; fails if there is no such element.
pub fn nth<X, N: FnOnce(AssertionContext, X) -> AssertionResult>(
    idx: Annotated<usize>,
    cx: AssertionContext,
    subject: Vec<X>,
    next: N,
) -> (r: AssertionResult)
    requires
        cx@.has_frame(),
        idx.value < subject@.len() ==> forall|c: AssertionContext|
            c@ == cx@.annotated("index"@, idx.repr@) ==> #[trigger] call_requires(
                next,
                (c, subject@[idx.value as int]),
            ),
    ensures
        idx.value < subject@.len() ==> exists|c: AssertionContext| #[trigger]
            call_ensures(next, (c, subject@[idx.value as int]), r) && c@ == cx@.annotated(
                "index"@,
                idx.repr@,
            ),
        idx.value >= subject@.len() ==> (r matches Err(e) && e@ == (ErrorView {
            cx: cx@.annotated("index"@, idx.repr@),
            message: "index out of bounds"@,
            cause: None,
        })),
{
    let mut cx = cx;
    proof {
        reveal_strlit("index");
        reveal_strlit("index out of bounds");
    }
    cx.annotate("index", idx.as_str().to_owned());
    let index = idx.into_inner();
    if index >= subject.len() {
        return Err(AssertionError::new(cx, "index out of bounds".to_owned()));
    }
    let mut subject = subject;
    let item = subject.swap_remove(index);
    next(cx, item)
}

} // verus!
