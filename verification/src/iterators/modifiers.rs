//! Modifiers for sequences: counting, selecting, forking over the elements,
//! zipping, and reading bytes as text.
use vstd::prelude::*;

use crate::assertion::{Assertion, AssertionModifier};
use crate::context::{AssertionContext, AssertionContextBuilder, ContextView};
use crate::general::{InitializableOutput, IntoInitializableOutput};
use crate::iterators::{MergeStrategy, MergeableOutput};
use crate::metadata::Annotated;
use crate::text::{decimal, push_decimal};
use crate::vecs::{reversed, zipped};

verus! {

/// Counts the number of items in a subject.
#[derive(Clone, Debug)]
pub struct CountModifier<M> {
    pub prev: M,
}

impl<M> CountModifier<M> {
    /// Creates the modifier on top of a chain.
    pub(crate) fn new(prev: M) -> (r: CountModifier<M>)
        ensures
            r.prev == prev,
    {
        CountModifier { prev }
    }
}

impl<M: AssertionModifier<CountAssertion<A>>, A> AssertionModifier<A> for CountModifier<M> {
    type Output = M::Output;

    open spec fn admits(&self, cx: ContextView, next: A) -> bool {
        self.prev.admits(cx, CountAssertion { next })
    }

    open spec fn yields(&self, cx: ContextView, next: A, out: M::Output) -> bool {
        self.prev.yields(cx, CountAssertion { next }, out)
    }

    fn apply(self, cx: AssertionContextBuilder, next: A) -> (out: M::Output) {
        self.prev.apply(cx, CountAssertion { next })
    }
}

/// Executes the inner assertion on the number of items in the subject.
#[derive(Clone, Debug)]
pub struct CountAssertion<A> {
    pub next: A,
}

impl<X, A: Assertion<usize>> Assertion<Vec<X>> for CountAssertion<A> {
    type Output = A::Output;

    open spec fn accepts(&self, cx: ContextView, subject: Vec<X>) -> bool {
        self.next.accepts(cx, subject@.len() as usize)
    }

    open spec fn produces(&self, cx: ContextView, subject: Vec<X>, out: A::Output) -> bool {
        self.next.produces(cx, subject@.len() as usize, out)
    }

    fn execute(self, cx: AssertionContext, subject: Vec<X>) -> (out: A::Output) {
        self.next.execute(cx, subject.len())
    }

    fn execute_annotated(self, cx: AssertionContext, subject: Annotated<Vec<X>>) -> (out: A::Output) {
        self.execute(cx, subject.into_inner())
    }
}

/// Selects an element out of the subject.
#[derive(Clone, Debug)]
pub struct NthModifier<M> {
    pub prev: M,
    pub index: Annotated<usize>,
}

impl<M> NthModifier<M> {
    /// Creates the modifier on top of a chain.
    pub(crate) fn new(prev: M, index: Annotated<usize>) -> (r: Self)
        ensures
            r.prev == prev,
            r.index == index,
    {
        NthModifier { prev, index }
    }
}

impl<M: AssertionModifier<NthAssertion<A>>, A> AssertionModifier<A> for NthModifier<M> {
    type Output = M::Output;

    open spec fn admits(&self, cx: ContextView, next: A) -> bool {
        self.prev.admits(cx, NthAssertion { next, index: self.index })
    }

    open spec fn yields(&self, cx: ContextView, next: A, out: M::Output) -> bool {
        self.prev.yields(cx, NthAssertion { next, index: self.index }, out)
    }

    fn apply(self, cx: AssertionContextBuilder, next: A) -> (out: M::Output) {
        self.prev.apply(cx, NthAssertion { next, index: self.index })
    }
}

/// Selects an element out of the subject and executes the inner assertion
/// on it; fails if there is no such element.
#[derive(Clone, Debug)]
pub struct NthAssertion<A> {
    pub next: A,
    pub index: Annotated<usize>,
}

impl<A> NthAssertion<A> {
    /// The context once the index is annotated.
    pub open spec fn annotated_context(&self, cx: ContextView) -> ContextView {
        cx.annotated("index"@, self.index.repr@)
    }
}

impl<X, A> Assertion<Vec<X>> for NthAssertion<A> where
    A: Assertion<X>,
    A::Output: IntoInitializableOutput,
 {
    type Output = <A::Output as IntoInitializableOutput>::Initialized;

    open spec fn accepts(&self, cx: ContextView, subject: Vec<X>) -> bool {
        &&& cx.has_frame()
        &&& self.index.value < subject@.len() ==> self.next.accepts(
            self.annotated_context(cx),
            subject@[self.index.value as int],
        )
    }

    open spec fn produces(&self, cx: ContextView, subject: Vec<X>, out: Self::Output) -> bool {
        if self.index.value < subject@.len() {
            exists|o: A::Output| #[trigger]
                self.next.produces(
                    self.annotated_context(cx),
                    subject@[self.index.value as int],
                    o,
                ) && o.initializes_to(out)
        } else {
            out.failed_in(self.annotated_context(cx), "index out of bounds"@)
        }
    }

    fn execute(self, cx: AssertionContext, subject: Vec<X>) -> (out: <A::Output as IntoInitializableOutput>::Initialized) {
        let mut cx = cx;
        proof {
            reveal_strlit("index");
            reveal_strlit("index out of bounds");
        }
        cx.annotate("index", self.index.as_str().to_owned());
        let index = self.index.into_inner();
        if index >= subject.len() {
            return cx.fail("index out of bounds".to_owned());
        }
        let mut subject = subject;
        let item = subject.swap_remove(index);
        self.next.execute(cx, item).into_initialized()
    }

    fn execute_annotated(self, cx: AssertionContext, subject: Annotated<Vec<X>>) -> (out: <A::Output as IntoInitializableOutput>::Initialized) {
        self.execute(cx, subject.into_inner())
    }
}

/// Forks an assertion, executing it for each element of the subject.
#[derive(Clone, Debug)]
pub struct MergeModifier<M> {
    pub prev: M,
    pub strategy: MergeStrategy,
}

impl<M> MergeModifier<M> {
    /// Creates the modifier on top of a chain.
    pub(crate) fn new(prev: M, strategy: MergeStrategy) -> (r: Self)
        ensures
            r.prev == prev,
            r.strategy == strategy,
    {
        MergeModifier { prev, strategy }
    }
}

impl<M: AssertionModifier<MergeAssertion<A>>, A> AssertionModifier<A> for MergeModifier<M> {
    type Output = M::Output;

    open spec fn admits(&self, cx: ContextView, next: A) -> bool {
        self.prev.admits(cx, MergeAssertion { next, strategy: self.strategy })
    }

    open spec fn yields(&self, cx: ContextView, next: A, out: M::Output) -> bool {
        self.prev.yields(cx, MergeAssertion { next, strategy: self.strategy }, out)
    }

    fn apply(self, cx: AssertionContextBuilder, next: A) -> (out: M::Output) {
        self.prev.apply(cx, MergeAssertion { next, strategy: self.strategy })
    }
}

/// The context of the execution path for the element at `index`.
pub open spec fn index_context(cx: ContextView, index: int) -> ContextView {
    cx.annotated("index"@, decimal(index as nat))
}

/// Forks the inner assertion, executing a copy of it on each element of
/// the subject (each in its own copy of the context, annotated with the
/// element's index), and merges the outputs.
#[derive(Clone, Debug)]
pub struct MergeAssertion<A> {
    pub next: A,
    pub strategy: MergeStrategy,
}

/// Whether `outs` are outputs that the copies `copies` of `next` give on
/// the first `outs.len()` elements of `subject`, each in the context of its
/// index, none of which settles the merge under `strategy`.
pub open spec fn unsettled_outputs<X, A>(
    next: A,
    cx: ContextView,
    subject: Seq<X>,
    strategy: MergeStrategy,
    copies: Seq<A>,
    outs: Seq<A::Output>,
) -> bool where A: Assertion<X> + Clone, A::Output: MergeableOutput {
    &&& outs.len() <= subject.len()
    &&& copies.len() == outs.len()
    &&& forall|i: int|
        0 <= i < outs.len() ==> cloned(next, #[trigger] copies[i]) && copies[i].produces(
            index_context(cx, i),
            subject[i],
            outs[i],
        )
    &&& forall|i: int| 0 <= i < outs.len() ==> !(#[trigger] outs[i]).decides(strategy)
}

/// Whether `outs` are the outputs that the copies `copies` of `next` give on
/// the elements of `subject` in order, each in the context of its index, up
/// to and including the first output that settles the merge under
/// `strategy`: no element after it is run.
pub open spec fn element_outputs<X, A>(
    next: A,
    cx: ContextView,
    subject: Seq<X>,
    strategy: MergeStrategy,
    copies: Seq<A>,
    outs: Seq<A::Output>,
) -> bool where A: Assertion<X> + Clone, A::Output: MergeableOutput {
    ||| outs.len() == subject.len() && unsettled_outputs(next, cx, subject, strategy, copies, outs)
    ||| outs.len() > 0 && outs.last().decides(strategy) && unsettled_outputs(
        next,
        cx,
        subject,
        strategy,
        copies.drop_last(),
        outs.drop_last(),
    ) && copies.len() == outs.len() && cloned(next, copies.last()) && copies.last().produces(
        index_context(cx, outs.len() - 1),
        subject[outs.len() - 1],
        outs.last(),
    )
}

impl<X, A> Assertion<Vec<X>> for MergeAssertion<A> where
    A: Assertion<X> + Clone,
    A::Output: MergeableOutput,
 {
    type Output = <A::Output as MergeableOutput>::Merged;

    /// Each copy of the inner assertion must accept the element it may be
    /// run on: the one after any run of outputs that did not settle the
    /// merge.
    open spec fn accepts(&self, cx: ContextView, subject: Vec<X>) -> bool {
        &&& cx.has_frame()
        &&& forall|copies: Seq<A>, outs: Seq<A::Output>, a: A|
            #![trigger unsettled_outputs(self.next, cx, subject@, self.strategy, copies, outs), cloned(self.next, a)]
            unsettled_outputs(self.next, cx, subject@, self.strategy, copies, outs) && outs.len()
                < subject@.len() && cloned(self.next, a) ==> a.accepts(
                index_context(cx, outs.len() as int),
                subject@[outs.len() as int],
            )
    }

    open spec fn produces(&self, cx: ContextView, subject: Vec<X>, out: Self::Output) -> bool {
        exists|copies: Seq<A>, outs: Seq<A::Output>| #[trigger]
            element_outputs(self.next, cx, subject@, self.strategy, copies, outs)
                && A::Output::merges(cx, self.strategy, outs, out)
    }

    fn execute(self, cx: AssertionContext, subject: Vec<X>) -> (out: <A::Output as MergeableOutput>::Merged) {
        let ghost items = subject@;
        let total = subject.len();
        let mut rest = reversed(subject);
        let mut outputs: Vec<A::Output> = Vec::new();
        let mut idx: usize = 0;
        let ghost mut copies: Seq<A> = Seq::empty();
        #[verifier::loop_isolation(false)]
        while rest.len() > 0
            invariant
                idx == outputs@.len(),
                items.len() == total,
                rest@.len() + idx == items.len(),
                forall|i: int| 0 <= i < rest@.len() ==> rest@[i] == items[items.len() - 1 - i],
                unsettled_outputs(self.next, cx@, items, self.strategy, copies, outputs@),
            decreases rest@.len(),
        {
            let item = rest.pop().unwrap();
            assert(item == items[idx as int]);
            let mut item_cx = cx.clone();
            let mut index = String::new();
            push_decimal(&mut index, idx);
            item_cx.annotate("index", index);
            proof {
                reveal_strlit("index");
            }
            let next = self.next.clone();
            assert(cloned(self.next, next));
            assert(item_cx@ == index_context(cx@, idx as int));
            assert(next.accepts(index_context(cx@, outputs@.len() as int), items[outputs@.len() as int]));
            let ghost prev_copies = copies;
            let ghost prev_outs = outputs@;
            proof {
                copies = copies.push(next);
            }
            let out = next.execute(item_cx, item);
            let stop = out.is_decisive(self.strategy);
            outputs.push(out);
            idx = idx + 1;
            if stop {
                assert(outputs@.drop_last() =~= prev_outs);
                assert(copies.drop_last() =~= prev_copies);
                assert(element_outputs(self.next, cx@, items, self.strategy, copies, outputs@));
                return MergeableOutput::merge(cx, self.strategy, outputs);
            }
            assert forall|i: int| 0 <= i < outputs@.len() implies cloned(
                self.next,
                #[trigger] copies[i],
            ) && copies[i].produces(index_context(cx@, i), items[i], outputs@[i]) by {
                if i < prev_outs.len() {
                    assert(outputs@[i] == prev_outs[i]);
                    assert(copies[i] == prev_copies[i]);
                }
            }
            assert forall|i: int| 0 <= i < outputs@.len() implies !(
            #[trigger] outputs@[i]).decides(self.strategy) by {
                if i < prev_outs.len() {
                    assert(outputs@[i] == prev_outs[i]);
                }
            }
        }
        assert(element_outputs(self.next, cx@, items, self.strategy, copies, outputs@));
        MergeableOutput::merge(cx, self.strategy, outputs)
    }

    fn execute_annotated(self, cx: AssertionContext, subject: Annotated<Vec<X>>) -> (out: <A::Output as MergeableOutput>::Merged) {
        self.execute(cx, subject.into_inner())
    }
}


/// Pairs up the elements of two sequences, up to the length of the shorter
/// one.
pub open spec fn zip_seq<X, U>(a: Seq<X>, b: Seq<U>) -> Seq<(X, U)> {
    Seq::new(if a.len() <= b.len() { a.len() } else { b.len() }, |i: int| (a[i], b[i]))
}

/// Zips the subject with another sequence.
#[derive(Clone, Debug)]
pub struct ZipModifier<U, M> {
    pub prev: M,
    pub other: Annotated<Vec<U>>,
}

impl<U, M> ZipModifier<U, M> {
    /// Creates the modifier on top of a chain.
    pub(crate) fn new(prev: M, other: Annotated<Vec<U>>) -> (r: Self)
        ensures
            r.prev == prev,
            r.other == other,
    {
        ZipModifier { prev, other }
    }
}

impl<U, M: AssertionModifier<ZipAssertion<U, A>>, A> AssertionModifier<A> for ZipModifier<U, M> {
    type Output = M::Output;

    open spec fn admits(&self, cx: ContextView, next: A) -> bool {
        self.prev.admits(cx, ZipAssertion { next, other: self.other })
    }

    open spec fn yields(&self, cx: ContextView, next: A, out: M::Output) -> bool {
        self.prev.yields(cx, ZipAssertion { next, other: self.other }, out)
    }

    fn apply(self, cx: AssertionContextBuilder, next: A) -> (out: M::Output) {
        self.prev.apply(cx, ZipAssertion { next, other: self.other })
    }
}

/// Zips the subject with another sequence and executes the inner assertion
/// on the pairs.
#[derive(Clone, Debug)]
pub struct ZipAssertion<U, A> {
    pub next: A,
    pub other: Annotated<Vec<U>>,
}

impl<U, A> ZipAssertion<U, A> {
    /// The context once the other sequence is annotated.
    pub open spec fn annotated_context(&self, cx: ContextView) -> ContextView {
        cx.annotated("other"@, self.other.repr@)
    }
}

impl<X, U, A> Assertion<Vec<X>> for ZipAssertion<U, A> where
    A: Assertion<Vec<(X, U)>>,
    A::Output: IntoInitializableOutput,
 {
    type Output = <A::Output as IntoInitializableOutput>::Initialized;

    open spec fn accepts(&self, cx: ContextView, subject: Vec<X>) -> bool {
        &&& cx.has_frame()
        &&& forall|z: Vec<(X, U)>| z@ == zip_seq(subject@, self.other.value@) ==> #[trigger] self.next.accepts(
            self.annotated_context(cx),
            z,
        )
    }

    open spec fn produces(&self, cx: ContextView, subject: Vec<X>, out: Self::Output) -> bool {
        exists|z: Vec<(X, U)>, o: A::Output| #[trigger]
            self.next.produces(self.annotated_context(cx), z, o) && z@ == zip_seq(
                subject@,
                self.other.value@,
            ) && o.initializes_to(out)
    }

    fn execute(self, cx: AssertionContext, subject: Vec<X>) -> (out: <A::Output as IntoInitializableOutput>::Initialized) {
        let ghost old_cx = cx@;
        let mut cx = cx;
        proof {
            reveal_strlit("other");
        }
        cx.annotate("other", self.other.as_str().to_owned());
        assert(cx@ == self.annotated_context(old_cx));
        let ghost other = self.other.value@;
        let pairs = zipped(subject, self.other.into_inner());
        assert(pairs@ =~= zip_seq(subject@, other));
        let ghost z = pairs;
        let o = self.next.execute(cx, pairs);
        let out = o.into_initialized();
        assert(self.next.produces(self.annotated_context(old_cx), z, o));
        out
    }

    fn execute_annotated(self, cx: AssertionContext, subject: Annotated<Vec<X>>) -> (out: <A::Output as IntoInitializableOutput>::Initialized) {
        self.execute(cx, subject.into_inner())
    }
}

/// Reads the subject as UTF-8 encoded text.
#[derive(Clone, Debug)]
pub struct AsUtf8Modifier<M> {
    pub prev: M,
}

impl<M> AsUtf8Modifier<M> {
    /// Creates the modifier on top of a chain.
    pub(crate) fn new(prev: M) -> (r: Self)
        ensures
            r.prev == prev,
    {
        AsUtf8Modifier { prev }
    }
}

impl<M: AssertionModifier<AsUtf8Assertion<A>>, A> AssertionModifier<A> for AsUtf8Modifier<M> {
    type Output = M::Output;

    open spec fn admits(&self, cx: ContextView, next: A) -> bool {
        self.prev.admits(cx, AsUtf8Assertion { next })
    }

    open spec fn yields(&self, cx: ContextView, next: A, out: M::Output) -> bool {
        self.prev.yields(cx, AsUtf8Assertion { next }, out)
    }

    fn apply(self, cx: AssertionContextBuilder, next: A) -> (out: M::Output) {
        self.prev.apply(cx, AsUtf8Assertion { next })
    }
}

/// The `Display` text of the error that `String::from_utf8` gives on bytes
/// that are not valid UTF-8.
pub uninterp spec fn utf8_error_description(bytes: Seq<u8>) -> Seq<char>;

/// Decodes bytes with `String::from_utf8`, which succeeds exactly when the
/// bytes are valid UTF-8, giving the text they encode; on failure, gives
/// the `Display` text of its error, which depends on the bytes alone.
#[verifier::external_body]
fn string_from_utf8(bytes: Vec<u8>) -> (r: Result<String, String>)
    ensures
        r is Ok <==> vstd::utf8::valid_utf8(bytes@),
        r matches Ok(s) ==> s@ == vstd::utf8::decode_utf8(bytes@),
        r matches Err(e) ==> e@ == utf8_error_description(bytes@),
{
    match String::from_utf8(bytes) {
        Ok(text) => Ok(text),
        Err(error) => Err(error.to_string()),
    }
}

/// Fails an assertion whose subject is not valid UTF-8, recording the
/// description of the decoding error.
pub fn fail_invalid_utf8<O: InitializableOutput>(cx: AssertionContext, description: String) -> (out: O)
    requires
        cx@.has_frame(),
    ensures
        out.failed_in(cx@.annotated("error"@, description@), "invalid utf8"@),
{
    let mut cx = cx;
    proof {
        reveal_strlit("error");
        reveal_strlit("invalid utf8");
    }
    cx.annotate("error", description);
    cx.fail("invalid utf8".to_owned())
}

/// Reads the subject as UTF-8, then executes the inner assertion on the
/// text; fails if the subject is not valid UTF-8.
#[derive(Clone, Debug)]
pub struct AsUtf8Assertion<A> {
    pub next: A,
}

impl<A> Assertion<Vec<u8>> for AsUtf8Assertion<A> where
    A: Assertion<String>,
    A::Output: IntoInitializableOutput,
 {
    type Output = <A::Output as IntoInitializableOutput>::Initialized;

    open spec fn accepts(&self, cx: ContextView, subject: Vec<u8>) -> bool {
        &&& cx.has_frame()
        &&& forall|s: String| s@ == vstd::utf8::decode_utf8(subject@) ==> #[trigger] self.next.accepts(cx, s)
    }

    /// Valid UTF-8 is decoded and passed on; otherwise the output is a
    /// failure whose current frame is annotated with the description of the
    /// decoding error.
    open spec fn produces(&self, cx: ContextView, subject: Vec<u8>, out: Self::Output) -> bool {
        if vstd::utf8::valid_utf8(subject@) {
            exists|s: String, o: A::Output| #[trigger]
                self.next.produces(cx, s, o) && s@ == vstd::utf8::decode_utf8(subject@)
                    && o.initializes_to(out)
        } else {
            out.failed_in(cx.annotated("error"@, utf8_error_description(subject@)), "invalid utf8"@)
        }
    }

    fn execute(self, cx: AssertionContext, subject: Vec<u8>) -> (out: <A::Output as IntoInitializableOutput>::Initialized) {
        match string_from_utf8(subject) {
            Ok(text) => self.next.execute(cx, text).into_initialized(),
            Err(description) => fail_invalid_utf8(cx, description),
        }
    }

    fn execute_annotated(self, cx: AssertionContext, subject: Annotated<Vec<u8>>) -> (out: <A::Output as IntoInitializableOutput>::Initialized) {
        self.execute(cx, subject.into_inner())
    }
}

} // verus!
