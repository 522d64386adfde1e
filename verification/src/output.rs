//! The foundational assertion output, and the error it turns into on failure.
use vstd::prelude::*;

use crate::context::{AssertionContext, ContextFrame, ContextView, FrameView};
use crate::metadata::loc_text;
use crate::text::{decimal, push_char, push_decimal, push_str};

verus! {

/// The foundational assertion output: a success or a failure, together with
/// the context of the execution path that led to it.
///
/// It can be converted into a [`Result`] with
/// [`into_result`](AssertionOutput::into_result).
#[derive(Debug)]
pub struct AssertionOutput {
    pub cx: AssertionContext,
    /// The failure message, or `None` for a success.
    pub error: Option<String>,
    /// The report of the failure of inner assertions that caused this
    /// failure, if any.
    pub cause: Option<String>,
}

/// The abstract value of an [`AssertionOutput`].
pub struct OutputView {
    pub cx: ContextView,
    pub error: Option<Seq<char>>,
    pub cause: Option<Seq<char>>,
}

/// The view of an optional string.
pub open spec fn opt_view(s: Option<String>) -> Option<Seq<char>> {
    match s {
        Some(s) => Some(s@),
        None => None,
    }
}

impl View for AssertionOutput {
    type V = OutputView;

    open spec fn view(&self) -> OutputView {
        OutputView { cx: self.cx@, error: opt_view(self.error), cause: opt_view(self.cause) }
    }
}

impl OutputView {
    /// Whether the output represents a success.
    pub open spec fn passed(self) -> bool {
        self.error is None
    }
}

fn clone_opt(s: &Option<String>) -> (r: Option<String>)
    ensures
        opt_view(r) == opt_view(*s),
{
    match s {
        Some(s) => Some(s.clone()),
        None => None,
    }
}

impl Clone for AssertionOutput {
    fn clone(&self) -> (r: Self)
        ensures
            r@ == self@,
    {
        AssertionOutput {
            cx: self.cx.clone(),
            error: clone_opt(&self.error),
            cause: clone_opt(&self.cause),
        }
    }
}

impl AssertionOutput {
    /// Creates an output from a context and an optional failure message.
    pub(crate) fn new(cx: AssertionContext, error: Option<String>) -> (r: Self)
        ensures
            r@ == (OutputView { cx: cx@, error: opt_view(error), cause: None }),
    {
        AssertionOutput { cx, error, cause: None }
    }

    /// Creates a failure caused by an inner failure whose report is `cause`.
    pub(crate) fn failure_with_cause(cx: AssertionContext, message: String, cause: String) -> (r:
        Self)
        ensures
            r@ == (OutputView { cx: cx@, error: Some(message@), cause: Some(cause@) }),
    {
        AssertionOutput { cx, error: Some(message), cause: Some(cause) }
    }

    /// Gets whether this output indicates a success.
    pub fn is_pass(&self) -> (r: bool)
        ensures
            r == self@.passed(),
    {
        self.error.is_none()
    }

    /// Sets this output to a success in the context `new_cx`. The frames
    /// that this output's execution path visited beyond `new_cx` are kept as
    /// recovered frames.
    pub(crate) fn set_pass(&mut self, new_cx: AssertionContext)
        requires
            new_cx@.visited.len() <= old(self)@.cx.visited.len(),
        ensures
            final(self)@ == (OutputView {
                cx: new_cx@.recovering(old(self)@.cx),
                error: None,
                cause: None,
            }),
    {
        self.error = None;
        self.cause = None;
        let mut new_cx = new_cx;
        std::mem::swap(&mut self.cx, &mut new_cx);
        self.cx.recover(new_cx);
    }

    /// Sets this output to a failure with the given message in the context
    /// `new_cx`. The frames that this output's execution path visited beyond
    /// `new_cx` are kept as recovered frames.
    pub(crate) fn set_fail(&mut self, new_cx: AssertionContext, message: String)
        requires
            new_cx@.visited.len() <= old(self)@.cx.visited.len(),
        ensures
            final(self)@ == (OutputView {
                cx: new_cx@.recovering(old(self)@.cx),
                error: Some(message@),
                cause: None,
            }),
    {
        self.error = Some(message);
        self.cause = None;
        let mut new_cx = new_cx;
        std::mem::swap(&mut self.cx, &mut new_cx);
        self.cx.recover(new_cx);
    }

    /// Converts this output into a [`Result`]: `Ok` for a success, and an
    /// error carrying the context and message for a failure.
    pub fn into_result(self) -> (r: Result<(), AssertionError>)
        ensures
            r is Ok <==> self@.passed(),
            r matches Err(e) ==> e@ == (ErrorView {
                cx: self@.cx,
                message: self@.error.unwrap(),
                cause: self@.cause,
            }),
    {
        match self.error {
            Some(message) => Err(AssertionError { cx: Box::new(self.cx), message, cause: self.cause }),
            None => Ok(()),
        }
    }
}

/// The result of an assertion in its plain form.
pub type AssertionResult = Result<(), AssertionError>;

/// An error that can occur during an assertion.
#[derive(Debug)]
pub struct AssertionError {
    pub cx: Box<AssertionContext>,
    pub message: String,
    pub cause: Option<String>,
}

/// The abstract value of an [`AssertionError`].
pub struct ErrorView {
    pub cx: ContextView,
    pub message: Seq<char>,
    pub cause: Option<Seq<char>>,
}

impl View for AssertionError {
    type V = ErrorView;

    open spec fn view(&self) -> ErrorView {
        ErrorView { cx: self.cx@, message: self.message@, cause: opt_view(self.cause) }
    }
}

impl AssertionError {
    /// Creates an error from a context and a failure message.
    pub(crate) fn new(cx: AssertionContext, message: String) -> (r: Self)
        ensures
            r@ == (ErrorView { cx: cx@, message: message@, cause: None }),
    {
        AssertionError { cx: Box::new(cx), message, cause: None }
    }
}

// ---------------------------------------------------------------------------
// The failure report.
// ---------------------------------------------------------------------------
/// The number of pages attached to a list of frames.
pub open spec fn count_pages(frames: Seq<FrameView>) -> nat
    decreases frames.len(),
{
    if frames.len() == 0 {
        0
    } else {
        count_pages(frames.drop_last()) + frames.last().pages.len()
    }
}

/// All pages attached to a list of frames, in order.
pub open spec fn all_pages(frames: Seq<FrameView>) -> Seq<(Seq<char>, Seq<char>)>
    decreases frames.len(),
{
    if frames.len() == 0 {
        Seq::empty()
    } else {
        all_pages(frames.drop_last()) + frames.last().pages
    }
}

/// The page numbers `first, first + 1, ..., first + n - 1`, separated by
/// `", "`.
pub open spec fn page_refs(first: nat, n: nat) -> Seq<char>
    decreases n,
{
    if n == 0 {
        Seq::empty()
    } else if n == 1 {
        decimal(first)
    } else {
        page_refs(first, (n - 1) as nat) + seq![',', ' '] + decimal((first + n - 1) as nat)
    }
}

/// The comment written after the name of a frame: references to its pages
/// (numbered from `first_page`), then the failure message if the frame is
/// the one where the failure happened.
pub open spec fn frame_comment(
    frame: FrameView,
    first_page: nat,
    show_message: bool,
    message: Seq<char>,
) -> Seq<char> {
    let refs = seq!['['] + page_refs(first_page, frame.pages.len()) + seq![']'];
    if frame.pages.len() > 0 && show_message {
        seq![' '] + refs + seq![' '] + message
    } else if frame.pages.len() > 0 {
        seq![' '] + refs
    } else if show_message {
        seq![' '] + message
    } else {
        Seq::empty()
    }
}

/// The annotations of a frame, one per line.
pub open spec fn annotations_text(anns: Seq<(Seq<char>, Seq<char>)>) -> Seq<char>
    decreases anns.len(),
{
    if anns.len() == 0 {
        Seq::empty()
    } else {
        annotations_text(anns.drop_last()) + seq![' ', ' ', ' ', ' '] + anns.last().0 + seq![
            ':',
            ' ',
        ] + anns.last().1 + seq!['\n']
    }
}

/// The section of the report for one frame.
pub open spec fn frame_text(
    frame: FrameView,
    first_page: nat,
    show_message: bool,
    message: Seq<char>,
) -> Seq<char> {
    seq![' ', ' '] + frame.name + seq![':'] + frame_comment(
        frame,
        first_page,
        show_message,
        message,
    ) + seq!['\n'] + annotations_text(frame.annotations) + seq!['\n']
}

/// The sections of the report for a list of frames; the failure message is
/// shown on the frame at index `message_at`.
pub open spec fn frames_text(frames: Seq<FrameView>, message_at: int, message: Seq<char>) -> Seq<
    char,
>
    decreases frames.len(),
{
    if frames.len() == 0 {
        Seq::empty()
    } else {
        let prev = frames.drop_last();
        frames_text(prev, message_at, message) + frame_text(
            frames.last(),
            count_pages(prev) + 1,
            prev.len() == message_at,
            message,
        )
    }
}

/// The sections of the report for the steps that were never reached.
pub open spec fn unvisited_text(names: Seq<Seq<char>>) -> Seq<char>
    decreases names.len(),
{
    if names.len() == 0 {
        Seq::empty()
    } else {
        unvisited_text(names.drop_last()) + seq![' ', ' '] + names.last()
            + ": (not visited)\n\n"@
    }
}

/// The pages of the report, numbered from 1.
pub open spec fn pages_text(pages: Seq<(Seq<char>, Seq<char>)>) -> Seq<char>
    decreases pages.len(),
{
    if pages.len() == 0 {
        Seq::empty()
    } else {
        pages_text(pages.drop_last()) + "----- "@ + pages.last().0 + " ["@ + decimal(pages.len())
            + "] -----\n"@ + pages.last().1 + seq!['\n', '\n']
    }
}

/// The report of the failure that caused this one, if any.
pub open spec fn cause_text(cause: Option<Seq<char>>) -> Seq<char> {
    match cause {
        Some(c) => "CAUSED BY:\n"@ + c,
        None => Seq::empty(),
    }
}

/// The first lines of the report.
pub open spec fn header_text(cx: ContextView) -> Seq<char> {
    "assertion failed:\n  at: "@ + loc_text(cx.location) + "\n  subject: "@ + cx.subject
        + "\n\nsteps:\n"@
}

/// The failure report of an error: where the assertion was written, its
/// subject, every frame of the execution path (visited, then recovered) with
/// its annotations, the steps that were never reached, the pages attached
/// to the frames, and the report of the failure that caused this one.
pub open spec fn report(e: ErrorView) -> Seq<char> {
    let frames = e.cx.visited + e.cx.recovered;
    header_text(e.cx) + frames_text(frames, e.cx.visited.len() - 1, e.message) + unvisited_text(
        e.cx.remaining.skip(e.cx.recovered.len() as int),
    ) + pages_text(all_pages(frames)) + cause_text(e.cause)
}

/// Whether the report of an error can be written: its recovered frames are
/// at most as many as the steps not visited, and its pages can be numbered.
pub open spec fn reportable(e: ErrorView) -> bool {
    &&& e.cx.recovered.len() <= e.cx.remaining.len()
    &&& count_pages(e.cx.visited + e.cx.recovered) < usize::MAX
}

proof fn lemma_count_pages_push(frames: Seq<FrameView>, f: FrameView)
    ensures
        count_pages(frames.push(f)) == count_pages(frames) + f.pages.len(),
        all_pages(frames.push(f)) == all_pages(frames) + f.pages,
{
    assert(frames.push(f).drop_last() =~= frames);
}

proof fn lemma_count_all_pages(frames: Seq<FrameView>)
    ensures
        all_pages(frames).len() == count_pages(frames),
    decreases frames.len(),
{
    if frames.len() > 0 {
        lemma_count_all_pages(frames.drop_last());
    }
}

proof fn lemma_count_pages_prefix(frames: Seq<FrameView>, i: int)
    requires
        0 <= i <= frames.len(),
    ensures
        count_pages(frames.take(i)) <= count_pages(frames),
    decreases frames.len() - i,
{
    if i < frames.len() {
        lemma_count_pages_prefix(frames, i + 1);
        assert(frames.take(i + 1).drop_last() =~= frames.take(i));
    } else {
        assert(frames.take(i) =~= frames);
    }
}

fn write_page_refs(s: &mut String, first: usize, n: usize)
    requires
        first + n <= usize::MAX,
    ensures
        final(s)@ == old(s)@ + page_refs(first as nat, n as nat),
{
    let mut k: usize = 0;
    while k < n
        invariant
            k <= n,
            first + n <= usize::MAX,
            s@ == old(s)@ + page_refs(first as nat, k as nat),
        decreases n - k,
    {
        if k != 0 {
            push_char(s, ',');
            push_char(s, ' ');
        }
        push_decimal(s, first + k);
        k = k + 1;
        assert(s@ =~= old(s)@ + page_refs(first as nat, k as nat));
    }
}

/// Writes the section of the report for one frame.
fn write_frame(
    s: &mut String,
    frame: &ContextFrame,
    first_page: usize,
    show_message: bool,
    message: &str,
)
    requires
        first_page + frame@.pages.len() <= usize::MAX,
    ensures
        final(s)@ == old(s)@ + frame_text(frame@, first_page as nat, show_message, message@),
{
    push_char(s, ' ');
    push_char(s, ' ');
    push_str(s, frame.assertion_name);
    push_char(s, ':');
    let ghost before_comment = s@;
    if frame.pages.len() > 0 {
        push_char(s, ' ');
        push_char(s, '[');
        write_page_refs(s, first_page, frame.pages.len());
        push_char(s, ']');
    }
    if show_message {
        push_char(s, ' ');
        push_str(s, message);
    }
    assert(s@ =~= before_comment + frame_comment(frame@, first_page as nat, show_message, message@));
    push_char(s, '\n');
    let mut i: usize = 0;
    let ghost before_anns = s@;
    while i < frame.annotations.len()
        invariant
            i <= frame@.annotations.len(),
            s@ == before_anns + annotations_text(frame@.annotations.take(i as int)),
        decreases frame@.annotations.len() - i,
    {
        let (k, v) = &frame.annotations[i];
        push_str(s, "    ");
        push_str(s, k);
        push_str(s, ": ");
        push_str(s, v.as_str());
        push_char(s, '\n');
        proof {
            reveal_strlit("    ");
            reveal_strlit(": ");
            let t = frame@.annotations.take(i + 1);
            assert(t.drop_last() =~= frame@.annotations.take(i as int));
        }
        assert(s@ =~= before_anns + annotations_text(frame@.annotations.take(i + 1)));
        i = i + 1;
    }
    assert(frame@.annotations.take(frame@.annotations.len() as int) =~= frame@.annotations);
    push_char(s, '\n');
    assert(s@ =~= old(s)@ + frame_text(frame@, first_page as nat, show_message, message@));
}

fn collect_pages(pages: &mut Vec<(String, String)>, frame: &ContextFrame)
    ensures
        crate::context::page_views(final(pages)@) == crate::context::page_views(old(pages)@)
            + frame@.pages,
{
    let mut i: usize = 0;
    while i < frame.pages.len()
        invariant
            i <= frame@.pages.len(),
            pages@.len() == old(pages)@.len() + i,
            crate::context::page_views(pages@) == crate::context::page_views(old(pages)@)
                + frame@.pages.take(i as int),
        decreases frame@.pages.len() - i,
    {
        let title = frame.pages[i].0.clone();
        let page = frame.pages[i].1.clone();
        let ghost before = pages@;
        let ghost item = (title@, page@);
        pages.push((title, page));
        assert(crate::context::page_views(pages@) =~= crate::context::page_views(before).push(item));
        assert(crate::context::page_views(pages@) =~= crate::context::page_views(old(pages)@)
            + frame@.pages.take(i + 1));
        i = i + 1;
    }
    assert(frame@.pages.take(frame@.pages.len() as int) =~= frame@.pages);
}

impl AssertionError {
    /// Renders the failure report of this error.
    pub fn to_string(&self) -> (r: String)
        requires
            reportable(self@),
        ensures
            r@ == report(self@),
    {
        let cx: &AssertionContext = &self.cx;
        let ghost frames = cx@.visited + cx@.recovered;
        let ghost message_at = cx@.visited.len() - 1;
        let mut s = String::new();
        push_str(&mut s, "assertion failed:\n  at: ");
        let loc = cx.source_loc.render();
        push_str(&mut s, loc.as_str());
        push_str(&mut s, "\n  subject: ");
        push_str(&mut s, cx.subject.as_str());
        push_str(&mut s, "\n\nsteps:\n");
        proof {
            reveal_strlit("assertion failed:\n  at: ");
            reveal_strlit("\n  subject: ");
            reveal_strlit("\n\nsteps:\n");
        }
        assert(s@ =~= header_text(cx@));
        let ghost head = s@;

        // Frames, visited and then recovered
        let mut pages: Vec<(String, String)> = Vec::new();
        let n_visited = cx.visited.len();
        let mut i: usize = 0;
        while i < n_visited
            invariant
                n_visited == cx@.visited.len(),
                frames == cx@.visited + cx@.recovered,
                message_at == cx@.visited.len() - 1,
                count_pages(frames) < usize::MAX,
                i <= n_visited,
                s@ == head + frames_text(frames.take(i as int), message_at, self@.message),
                crate::context::page_views(pages@) == all_pages(frames.take(i as int)),
            decreases n_visited - i,
        {
            let frame = &cx.visited[i];
            proof {
                let t = frames.take(i + 1);
                assert(t.drop_last() =~= frames.take(i as int));
                assert(t.last() == frame@);
                lemma_count_all_pages(frames.take(i as int));
                lemma_count_pages_prefix(frames, i + 1);
                lemma_count_pages_push(frames.take(i as int), frame@);
            }
            write_frame(&mut s, frame, pages.len() + 1, i + 1 == n_visited, self.message.as_str());
            collect_pages(&mut pages, frame);
            i = i + 1;
        }
        let n_recovered = cx.recovered.len();
        let mut j: usize = 0;
        while j < n_recovered
            invariant
                n_visited == cx@.visited.len(),
                n_recovered == cx@.recovered.len(),
                frames == cx@.visited + cx@.recovered,
                message_at == cx@.visited.len() - 1,
                count_pages(frames) < usize::MAX,
                j <= n_recovered,
                s@ == head + frames_text(frames.take(n_visited + j), message_at, self@.message),
                crate::context::page_views(pages@) == all_pages(frames.take(n_visited + j)),
            decreases n_recovered - j,
        {
            let frame = &cx.recovered[j];
            proof {
                let t = frames.take(n_visited + j + 1);
                assert(t.drop_last() =~= frames.take(n_visited + j));
                assert(t.last() == frame@);
                lemma_count_all_pages(frames.take(n_visited + j));
                lemma_count_pages_prefix(frames, n_visited + j + 1);
                lemma_count_pages_push(frames.take(n_visited + j), frame@);
            }
            write_frame(&mut s, frame, pages.len() + 1, false, self.message.as_str());
            collect_pages(&mut pages, frame);
            j = j + 1;
        }
        assert(frames.take(n_visited + n_recovered) =~= frames);
        let ghost after_frames = s@;

        // Steps that were never reached
        let mut k: usize = n_recovered;
        while k < cx.remaining.len()
            invariant
                n_recovered == cx@.recovered.len(),
                n_recovered <= k <= cx@.remaining.len(),
                s@ == after_frames + unvisited_text(
                    cx@.remaining.subrange(n_recovered as int, k as int),
                ),
            decreases cx@.remaining.len() - k,
        {
            push_char(&mut s, ' ');
            push_char(&mut s, ' ');
            push_str(&mut s, cx.remaining[k]);
            push_str(&mut s, ": (not visited)\n\n");
            proof {
                reveal_strlit(": (not visited)\n\n");
                let t = cx@.remaining.subrange(n_recovered as int, k + 1);
                assert(t.drop_last() =~= cx@.remaining.subrange(n_recovered as int, k as int));
            }
            assert(s@ =~= after_frames + unvisited_text(
                cx@.remaining.subrange(n_recovered as int, k + 1),
            ));
            k = k + 1;
        }
        assert(cx@.remaining.subrange(n_recovered as int, cx@.remaining.len() as int)
            =~= cx@.remaining.skip(n_recovered as int));
        let ghost after_unvisited = s@;

        // Pages
        let mut p: usize = 0;
        proof {
            lemma_count_all_pages(frames);
        }
        while p < pages.len()
            invariant
                p <= pages@.len(),
                pages@.len() < usize::MAX,
                s@ == after_unvisited + pages_text(
                    crate::context::page_views(pages@).take(p as int),
                ),
            decreases pages@.len() - p,
        {
            let (title, page) = &pages[p];
            push_str(&mut s, "----- ");
            push_str(&mut s, title.as_str());
            push_str(&mut s, " [");
            push_decimal(&mut s, p + 1);
            push_str(&mut s, "] -----\n");
            push_str(&mut s, page.as_str());
            push_char(&mut s, '\n');
            push_char(&mut s, '\n');
            proof {
                reveal_strlit("----- ");
                reveal_strlit(" [");
                reveal_strlit("] -----\n");
                let t = crate::context::page_views(pages@).take(p + 1);
                assert(t.drop_last() =~= crate::context::page_views(pages@).take(p as int));
            }
            assert(s@ =~= after_unvisited + pages_text(
                crate::context::page_views(pages@).take(p + 1),
            ));
            p = p + 1;
        }
        assert(crate::context::page_views(pages@).take(pages@.len() as int)
            =~= crate::context::page_views(pages@));

        // The failure that caused this one
        if let Some(cause) = &self.cause {
            push_str(&mut s, "CAUSED BY:\n");
            push_str(&mut s, cause.as_str());
            proof {
                reveal_strlit("CAUSED BY:\n");
            }
        }
        assert(s@ =~= report(self@));
        s
    }
}

} // verus!

verus! {

/// A success in context `cx`.
pub open spec fn pass_view(cx: ContextView) -> OutputView {
    OutputView { cx, error: None, cause: None }
}

/// A failure with `message` in context `cx`.
pub open spec fn fail_view(cx: ContextView, message: Seq<char>) -> OutputView {
    OutputView { cx, error: Some(message), cause: None }
}

/// A success in context `cx` if `pass` holds, and a failure with `message`
/// otherwise.
pub open spec fn pass_if_view(cx: ContextView, pass: bool, message: Seq<char>) -> OutputView {
    if pass {
        pass_view(cx)
    } else {
        fail_view(cx, message)
    }
}

} // verus!
