//! Merging the outputs of an assertion executed on many values.
use vstd::prelude::*;

use crate::context::{AssertionContext, ContextView};
use crate::output::{
    pass_if_view, AssertionError, AssertionOutput, AssertionResult, ErrorView, OutputView,
};

verus! {

/// A strategy for merging outputs.
#[derive(Clone, Copy, PartialEq, Eq, Debug, Structural)]
pub enum MergeStrategy {
    /// The merged output succeeds if and only if none of the merged
    /// outputs failed. On failure, it is the first failure.
    All,
    /// The merged output succeeds if and only if at least one of the
    /// merged outputs succeeded. On success, it is the first success.
    Any,
}

/// Whether an output decides the merged output on its own: a failure under
/// [`MergeStrategy::All`], a success under [`MergeStrategy::Any`].
pub open spec fn decisive(strategy: MergeStrategy, o: OutputView) -> bool {
    match strategy {
        MergeStrategy::All => !o.passed(),
        MergeStrategy::Any => o.passed(),
    }
}

/// The merged output: the first decisive output; if there is none, the last
/// output; if there are no outputs, a success (for `All`) or a failure with
/// the message "no outputs" (for `Any`) in context `cx`.
pub open spec fn merged(cx: ContextView, strategy: MergeStrategy, outs: Seq<OutputView>) -> OutputView
    decreases outs.len(),
{
    if outs.len() == 0 {
        pass_if_view(cx, strategy == MergeStrategy::All, "no outputs"@)
    } else if decisive(strategy, outs[0]) || outs.len() == 1 {
        outs[0]
    } else {
        merged(cx, strategy, outs.drop_first())
    }
}

/// The views of a list of outputs.
pub open spec fn output_views(s: Seq<AssertionOutput>) -> Seq<OutputView> {
    s.map_values(|o: AssertionOutput| o@)
}

/// A type of assertion output that can be collected from many executions
/// of an assertion and merged into a single output, following a
/// [merge strategy](MergeStrategy).
pub trait MergeableOutput: Sized {
    /// The type of the merged output.
    type Merged;

    /// Whether `r` merges `outputs` with `strategy` in context `cx`.
    /// An implementation that does not define it promises nothing of the
    /// result.
    open spec fn merges(cx: ContextView, strategy: MergeStrategy, outputs: Seq<Self>, r: Self::Merged) -> bool {
        true
    }

    /// Whether this output alone settles the merged output under
    /// `strategy`, so that no later output needs to be produced.
    /// An implementation that does not define it never settles early.
    open spec fn decides(&self, strategy: MergeStrategy) -> bool {
        false
    }

    /// Checks whether this output alone settles the merged output.
    fn is_decisive(&self, strategy: MergeStrategy) -> (r: bool)
        ensures
            r == self.decides(strategy),
    ;

    /// Merges assertion outputs into a single output.
    fn merge(cx: AssertionContext, strategy: MergeStrategy, outputs: Vec<Self>) -> (r: Self::Merged)
        ensures
            Self::merges(cx@, strategy, outputs@, r),
    ;
}

proof fn lemma_merged_first_decisive(
    cx: ContextView,
    strategy: MergeStrategy,
    outs: Seq<OutputView>,
    k: int,
)
    requires
        0 <= k < outs.len(),
        decisive(strategy, outs[k]),
        forall|j: int| 0 <= j < k ==> !decisive(strategy, #[trigger] outs[j]),
    ensures
        merged(cx, strategy, outs) == outs[k],
    decreases k,
{
    if k > 0 {
        lemma_merged_first_decisive(cx, strategy, outs.drop_first(), k - 1);
    }
}

proof fn lemma_merged_none_decisive(cx: ContextView, strategy: MergeStrategy, outs: Seq<OutputView>)
    requires
        outs.len() > 0,
        forall|j: int| 0 <= j < outs.len() ==> !decisive(strategy, #[trigger] outs[j]),
    ensures
        merged(cx, strategy, outs) == outs.last(),
    decreases outs.len(),
{
    if outs.len() > 1 {
        assert(!decisive(strategy, outs[0]));
        lemma_merged_none_decisive(cx, strategy, outs.drop_first());
    }
}

impl MergeableOutput for AssertionOutput {
    type Merged = AssertionOutput;

    open spec fn merges(
        cx: ContextView,
        strategy: MergeStrategy,
        outputs: Seq<AssertionOutput>,
        r: AssertionOutput,
    ) -> bool {
        r@ == merged(cx, strategy, output_views(outputs))
    }

    /// A failure settles `All`; a success settles `Any`.
    open spec fn decides(&self, strategy: MergeStrategy) -> bool {
        decisive(strategy, self@)
    }

    fn is_decisive(&self, strategy: MergeStrategy) -> (r: bool) {
        let pass = self.is_pass();
        match strategy {
            MergeStrategy::All => !pass,
            MergeStrategy::Any => pass,
        }
    }

    fn merge(cx: AssertionContext, strategy: MergeStrategy, outputs: Vec<AssertionOutput>) -> (r:
        AssertionOutput) {
        let ghost outs = output_views(outputs@);
        let ghost initial = outputs@;
        let mut outputs = outputs;
        let mut i: usize = 0;
        #[verifier::loop_isolation(false)]
        while i < outputs.len()
            invariant
                outputs@ == initial,
                outs == output_views(outputs@),
                i <= outputs@.len(),
                forall|j: int| 0 <= j < i ==> !decisive(strategy, #[trigger] outs[j]),
            decreases outputs@.len() - i,
        {
            let pass = outputs[i].is_pass();
            assert(outs[i as int] == outputs@[i as int]@);
            let decides = match strategy {
                MergeStrategy::All => !pass,
                MergeStrategy::Any => pass,
            };
            if decides {
                proof {
                    lemma_merged_first_decisive(cx@, strategy, outs, i as int);
                }
                return outputs.remove(i);
            }
            i = i + 1;
        }
        if outputs.len() == 0 {
            proof {
                reveal_strlit("no outputs");
            }
            let all = match strategy {
                MergeStrategy::All => true,
                MergeStrategy::Any => false,
            };
            cx.pass_if(all, "no outputs".to_owned())
        } else {
            proof {
                lemma_merged_none_decisive(cx@, strategy, outs);
            }
            let last = outputs.len() - 1;
            outputs.remove(last)
        }
    }
}

/// A type of result that can be merged from many results, either requiring
/// all of them to succeed or any of them.
pub trait MergeableResult: Sized {
    /// The type of the merged result.
    type Merged;

    /// Whether `r` merges `results`, requiring all of them to succeed.
    /// An implementation that does not define it promises nothing of the
    /// result.
    open spec fn merges_all(cx: ContextView, results: Seq<Self>, r: Self::Merged) -> bool {
        true
    }

    /// Whether `r` merges `results`, requiring any of them to succeed.
    /// An implementation that does not define it promises nothing of the
    /// result.
    open spec fn merges_any(cx: ContextView, results: Seq<Self>, r: Self::Merged) -> bool {
        true
    }

    /// Whether this result alone settles a merge that requires all results
    /// to succeed. An implementation that does not define it never settles
    /// early.
    open spec fn ends_all(&self) -> bool {
        false
    }

    /// Whether this result alone settles a merge that requires any result
    /// to succeed. An implementation that does not define it never settles
    /// early.
    open spec fn ends_any(&self) -> bool {
        false
    }

    /// Checks whether this result alone settles a merge that requires all
    /// results to succeed.
    fn decides_all(&self) -> (r: bool)
        ensures
            r == self.ends_all(),
    ;

    /// Checks whether this result alone settles a merge that requires any
    /// result to succeed.
    fn decides_any(&self) -> (r: bool)
        ensures
            r == self.ends_any(),
    ;

    /// Merges results: the merged result is a success if and only if none of
    /// the results failed.
    fn merge_all(cx: AssertionContext, results: Vec<Self>) -> (r: Self::Merged)
        ensures
            Self::merges_all(cx@, results@, r),
    ;

    /// Merges results: the merged result is a success if and only if at
    /// least one of the results succeeded.
    fn merge_any(cx: AssertionContext, results: Vec<Self>) -> (r: Self::Merged)
        ensures
            Self::merges_any(cx@, results@, r),
    ;
}

impl MergeableResult for AssertionResult {
    type Merged = AssertionResult;

    /// The first failure, or a success when there is none.
    open spec fn merges_all(cx: ContextView, results: Seq<AssertionResult>, r: AssertionResult) -> bool {
        &&& r is Ok <==> forall|i: int| 0 <= i < results.len() ==> results[i] is Ok
        &&& r is Err ==> exists|k: int|
            0 <= k < results.len() && r == results[k] && forall|j: int|
                0 <= j < k ==> results[j] is Ok
    }

    /// A success if there is one; otherwise the last failure, or a failure
    /// with the message "no results" when there are no results.
    open spec fn merges_any(cx: ContextView, results: Seq<AssertionResult>, r: AssertionResult) -> bool {
        &&& r is Ok <==> exists|i: int| 0 <= i < results.len() && results[i] is Ok
        &&& r is Err && results.len() > 0 ==> r == results.last()
        &&& results.len() == 0 ==> (r matches Err(e) && e@ == (ErrorView {
            cx,
            message: "no results"@,
            cause: None,
        }))
    }

    /// A failure settles a merge of all results.
    open spec fn ends_all(&self) -> bool {
        self is Err
    }

    /// A success settles a merge of any results.
    open spec fn ends_any(&self) -> bool {
        self is Ok
    }

    fn decides_all(&self) -> (r: bool) {
        self.is_err()
    }

    fn decides_any(&self) -> (r: bool) {
        self.is_ok()
    }

    fn merge_all(cx: AssertionContext, results: Vec<AssertionResult>) -> (r: AssertionResult) {
        let ghost initial = results@;
        let mut results = results;
        let mut i: usize = 0;
        #[verifier::loop_isolation(false)]
        while i < results.len()
            invariant
                results@ == initial,
                i <= results@.len(),
                forall|j: int| 0 <= j < i ==> results@[j] is Ok,
            decreases results@.len() - i,
        {
            if results[i].is_err() {
                return results.remove(i);
            }
            i = i + 1;
        }
        Ok(())
    }

    fn merge_any(cx: AssertionContext, results: Vec<AssertionResult>) -> (r: AssertionResult) {
        let ghost initial = results@;
        let mut results = results;
        let mut i: usize = 0;
        #[verifier::loop_isolation(false)]
        while i < results.len()
            invariant
                results@ == initial,
                i <= results@.len(),
                forall|j: int| 0 <= j < i ==> results@[j] is Err,
            decreases results@.len() - i,
        {
            if results[i].is_ok() {
                return Ok(());
            }
            i = i + 1;
        }
        if results.len() == 0 {
            proof {
                reveal_strlit("no results");
            }
            Err(AssertionError::new(cx, "no results".to_owned()))
        } else {
            let last = results.len() - 1;
            results.remove(last)
        }
    }
}

} // verus!
