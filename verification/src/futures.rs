//! The decisions taken by asynchronous assertions when the values they wait
//! for become ready. The waiting itself is done by the caller, which hands
//! the outcome of each poll to these functions.
use vstd::prelude::*;

use crate::assertion::Assertion;
use crate::context::{AssertionContext, ContextView};
use crate::general::{InitializableOutput, IntoInitializableOutput};
use crate::output::{fail_view, AssertionOutput};
use crate::text::{decimal, push_decimal};

verus! {

/// The order that a subject future is expected to complete in, relative to
/// another future.
#[derive(Clone, Copy, PartialEq, Eq, Debug, Structural)]
pub enum CompletionOrder {
    /// The subject completes before (or together with) the other future.
    Before,
    /// The subject completes after (or together with) the other future.
    After,
}

/// What to do after polling both futures.
#[derive(Debug)]
pub enum CompletionDecision<T> {
    /// Neither outcome is known yet: poll again later.
    Pending,
    /// The ordering constraint holds: run the inner assertion on the
    /// subject's output.
    Execute(T),
    /// The ordering constraint is violated, for the given reason.
    Fail(&'static str),
}

/// Decides the outcome of an ordering constraint, given whether the other
/// future has completed (on this poll or an earlier one) and the subject's
/// output if it completed on this poll. Ties satisfy both orders.
pub fn decide_completion<T>(order: CompletionOrder, other_done: bool, subject: Option<T>) -> (r:
    CompletionDecision<T>)
    ensures
        match (order, other_done, subject) {
            (_, false, None) => r is Pending,
            (CompletionOrder::Before, _, Some(v)) => r == CompletionDecision::Execute(v),
            (CompletionOrder::Before, true, None) => r matches CompletionDecision::Fail(m)
                && m@ == "did not complete before"@,
            (CompletionOrder::After, true, Some(v)) => r == CompletionDecision::Execute(v),
            (CompletionOrder::After, true, None) => r is Pending,
            (CompletionOrder::After, false, Some(_)) => r matches CompletionDecision::Fail(m)
                && m@ == "completed before"@,
        },
{
    match (order, other_done, subject) {
        (_, false, None) => CompletionDecision::Pending,
        (CompletionOrder::Before, _, Some(v)) => CompletionDecision::Execute(v),
        (CompletionOrder::Before, true, None) => {
            proof {
                reveal_strlit("did not complete before");
            }
            CompletionDecision::Fail("did not complete before")
        },
        (CompletionOrder::After, true, Some(v)) => CompletionDecision::Execute(v),
        (CompletionOrder::After, true, None) => CompletionDecision::Pending,
        (CompletionOrder::After, false, Some(_)) => {
            proof {
                reveal_strlit("completed before");
            }
            CompletionDecision::Fail("completed before")
        },
    }
}

/// Finishes an ordering constraint once it is decided: runs the inner
/// assertion on the subject's output, or fails with the reason.
pub fn finish_completion<T, A: Assertion<T, Output = AssertionOutput>>(
    cx: AssertionContext,
    next: A,
    result: Result<T, &'static str>,
) -> (out: AssertionOutput)
    requires
        result matches Ok(v) ==> next.accepts(cx@, v),
    ensures
        match result {
            Ok(v) => next.produces(cx@, v, out),
            Err(m) => out@ == fail_view(cx@, m@),
        },
{
    match result {
        Ok(subject) => next.execute(cx, subject),
        Err(error) => cx.fail(error.to_owned()),
    }
}

/// Takes in the bytes of one read: appends the first `read` bytes of the
/// buffer to what was read so far, and says whether the buffer should grow
/// before the next read (a read that filled the whole buffer suggests more
/// data is waiting).
pub fn absorb_read(result: &mut Vec<u8>, buffer: &[u8], read: usize) -> (grow: bool)
    requires
        read <= buffer@.len(),
    ensures
        final(result)@ == old(result)@ + buffer@.subrange(0, read as int),
        grow == (read == buffer@.len()),
{
    let mut i: usize = 0;
    while i < read
        invariant
            i <= read,
            read <= buffer@.len(),
            result@ == old(result)@ + buffer@.subrange(0, i as int),
        decreases read - i,
    {
        result.push(buffer[i]);
        i = i + 1;
        assert(result@ =~= old(result)@ + buffer@.subrange(0, i as int));
    }
    read == buffer.len()
}

/// What to do after one read of an asynchronous subject.
#[derive(Debug)]
pub enum ReadAction {
    /// Read again; first grow the buffer if `grow` holds.
    Continue { grow: bool },
    /// The subject is exhausted: finish with the bytes read.
    Finish,
    /// The read failed with the given error: fail the assertion.
    Fail(String),
}

/// Takes in the outcome of one read into `buffer` (the number of bytes read,
/// or the error): a read of no bytes ends the subject, a read of some bytes
/// appends them to what was read so far, and an error fails.
pub fn read_step(result: &mut Vec<u8>, buffer: &[u8], outcome: Result<usize, String>) -> (action: ReadAction)
    requires
        outcome matches Ok(n) ==> n <= buffer@.len(),
    ensures
        match outcome {
            Ok(n) => if n == 0 {
                action is Finish && final(result)@ == old(result)@
            } else {
                final(result)@ == old(result)@ + buffer@.subrange(0, n as int) && action
                    == (ReadAction::Continue { grow: n == buffer@.len() })
            },
            Err(e) => action == ReadAction::Fail(e) && final(result)@ == old(result)@,
        },
{
    match outcome {
        Ok(0) => ReadAction::Finish,
        Ok(n) => {
            let grow = absorb_read(result, buffer, n);
            ReadAction::Continue { grow }
        },
        Err(e) => ReadAction::Fail(e),
    }
}

/// Finishes reading a subject: records how many bytes were read and runs
/// the inner assertion on them.
pub fn finish_read<A>(cx: AssertionContext, next: A, bytes: Vec<u8>) -> (out: <A::Output as IntoInitializableOutput>::Initialized) where
    A: Assertion<Vec<u8>>,
    A::Output: IntoInitializableOutput,
    requires
        cx@.has_frame(),
        forall|c: ContextView| c == cx@.annotated("read bytes"@, decimal(bytes@.len())) ==> #[trigger] next.accepts(c, bytes),
    ensures
        exists|o: A::Output| #[trigger]
            next.produces(cx@.annotated("read bytes"@, decimal(bytes@.len())), bytes, o)
                && o.initializes_to(out),
{
    let mut cx = cx;
    let mut count = String::new();
    push_decimal(&mut count, bytes.len());
    proof {
        reveal_strlit("read bytes");
    }
    cx.annotate("read bytes", count);
    next.execute(cx, bytes).into_initialized()
}

/// Fails an assertion whose subject could not be read, recording the error.
pub fn fail_read<O: InitializableOutput>(cx: AssertionContext, error: String) -> (out: O)
    requires
        cx@.has_frame(),
    ensures
        out.failed_in(cx@.annotated("error"@, error@), "failed to read"@),
{
    let mut cx = cx;
    proof {
        reveal_strlit("error");
        reveal_strlit("failed to read");
    }
    cx.annotate("error", error);
    cx.fail("failed to read".to_owned())
}

} // verus!
