//! The context that travels through an assertion and records its execution
//! path for failure reports.
use vstd::prelude::*;

use crate::general::InitializableOutput;
use crate::metadata::{SourceLoc, SourceLocView};
use crate::output::AssertionOutput;

verus! {

/// One step of an execution path: the name of the modifier or assertion
/// that ran, with the annotations and pages it attached.
#[derive(Debug)]
pub struct ContextFrame {
    pub assertion_name: &'static str,
    pub annotations: Vec<(&'static str, String)>,
    pub pages: Vec<(String, String)>,
}

/// The abstract value of a [`ContextFrame`].
pub struct FrameView {
    pub name: Seq<char>,
    pub annotations: Seq<(Seq<char>, Seq<char>)>,
    pub pages: Seq<(Seq<char>, Seq<char>)>,
}

/// The views of a list of annotations.
pub open spec fn annotation_views(s: Seq<(&'static str, String)>) -> Seq<(Seq<char>, Seq<char>)> {
    s.map_values(|p: (&'static str, String)| (p.0@, p.1@))
}

/// The views of a list of pages.
pub open spec fn page_views(s: Seq<(String, String)>) -> Seq<(Seq<char>, Seq<char>)> {
    s.map_values(|p: (String, String)| (p.0@, p.1@))
}

/// The views of a list of frames.
pub open spec fn frame_views(s: Seq<ContextFrame>) -> Seq<FrameView> {
    s.map_values(|f: ContextFrame| f@)
}

/// The views of a list of frame names.
pub open spec fn name_views(s: Seq<&'static str>) -> Seq<Seq<char>> {
    s.map_values(|n: &'static str| n@)
}

impl View for ContextFrame {
    type V = FrameView;

    open spec fn view(&self) -> FrameView {
        FrameView {
            name: self.assertion_name@,
            annotations: annotation_views(self.annotations@),
            pages: page_views(self.pages@),
        }
    }
}

/// A fresh frame for the step with the given name.
pub open spec fn empty_frame(name: Seq<char>) -> FrameView {
    FrameView { name, annotations: Seq::empty(), pages: Seq::empty() }
}

impl FrameView {
    /// This frame with one more annotation.
    pub open spec fn with_annotation(self, key: Seq<char>, value: Seq<char>) -> FrameView {
        FrameView { annotations: self.annotations.push((key, value)), ..self }
    }

    /// This frame with one more page.
    pub open spec fn with_page(self, title: Seq<char>, page: Seq<char>) -> FrameView {
        FrameView { pages: self.pages.push((title, page)), ..self }
    }
}

fn clone_annotations(v: &Vec<(&'static str, String)>) -> (r: Vec<(&'static str, String)>)
    ensures
        annotation_views(r@) == annotation_views(v@),
{
    let mut r: Vec<(&'static str, String)> = Vec::new();
    let mut i: usize = 0;
    while i < v.len()
        invariant
            i <= v@.len(),
            r@.len() == i,
            annotation_views(r@) == annotation_views(v@).take(i as int),
        decreases v@.len() - i,
    {
        let key = v[i].0;
        let value = v[i].1.clone();
        r.push((key, value));
        assert(annotation_views(r@) =~= annotation_views(v@).take(i + 1));
        i = i + 1;
    }
    assert(annotation_views(v@).take(v@.len() as int) =~= annotation_views(v@));
    r
}

fn clone_pages(v: &Vec<(String, String)>) -> (r: Vec<(String, String)>)
    ensures
        page_views(r@) == page_views(v@),
{
    let mut r: Vec<(String, String)> = Vec::new();
    let mut i: usize = 0;
    while i < v.len()
        invariant
            i <= v@.len(),
            r@.len() == i,
            page_views(r@) == page_views(v@).take(i as int),
        decreases v@.len() - i,
    {
        let (t, p) = &v[i];
        r.push((t.clone(), p.clone()));
        assert(page_views(r@) =~= page_views(v@).take(i + 1));
        i = i + 1;
    }
    assert(page_views(v@).take(v@.len() as int) =~= page_views(v@));
    r
}

impl Clone for ContextFrame {
    fn clone(&self) -> (r: Self)
        ensures
            r@ == self@,
    {
        ContextFrame {
            assertion_name: self.assertion_name,
            annotations: clone_annotations(&self.annotations),
            pages: clone_pages(&self.pages),
        }
    }
}

fn clone_frames(v: &Vec<ContextFrame>) -> (r: Vec<ContextFrame>)
    ensures
        frame_views(r@) == frame_views(v@),
{
    let mut r: Vec<ContextFrame> = Vec::new();
    let mut i: usize = 0;
    while i < v.len()
        invariant
            i <= v@.len(),
            r@.len() == i,
            frame_views(r@) == frame_views(v@).take(i as int),
        decreases v@.len() - i,
    {
        r.push(v[i].clone());
        assert(frame_views(r@) =~= frame_views(v@).take(i + 1));
        i = i + 1;
    }
    assert(frame_views(v@).take(v@.len() as int) =~= frame_views(v@));
    r
}

fn clone_names(v: &Vec<&'static str>) -> (r: Vec<&'static str>)
    ensures
        name_views(r@) == name_views(v@),
{
    let mut r: Vec<&'static str> = Vec::new();
    let mut i: usize = 0;
    while i < v.len()
        invariant
            i <= v@.len(),
            r@.len() == i,
            name_views(r@) == name_views(v@).take(i as int),
        decreases v@.len() - i,
    {
        r.push(v[i]);
        assert(name_views(r@) =~= name_views(v@).take(i + 1));
        i = i + 1;
    }
    assert(name_views(v@).take(v@.len() as int) =~= name_views(v@));
    r
}

/// Context that is passed through an assertion to track the full execution
/// flow that occurred.
///
/// It records the steps visited so far (with their annotations and pages),
/// the names of the steps not visited yet, and frames recovered from a
/// deeper execution path whose outcome was overridden by an earlier step.
///
/// Contexts can be cloned to fork an execution path; forked contexts do not
/// affect each other.
#[derive(Debug)]
pub struct AssertionContext {
    pub subject: String,
    pub source_loc: SourceLoc,
    pub visited: Vec<ContextFrame>,
    pub remaining: Vec<&'static str>,
    pub recovered: Vec<ContextFrame>,
}

/// The abstract value of an [`AssertionContext`].
pub struct ContextView {
    pub subject: Seq<char>,
    pub location: SourceLocView,
    pub visited: Seq<FrameView>,
    pub remaining: Seq<Seq<char>>,
    pub recovered: Seq<FrameView>,
}

impl View for AssertionContext {
    type V = ContextView;

    open spec fn view(&self) -> ContextView {
        ContextView {
            subject: self.subject@,
            location: self.source_loc@,
            visited: frame_views(self.visited@),
            remaining: name_views(self.remaining@),
            recovered: frame_views(self.recovered@),
        }
    }
}

impl ContextView {
    /// Whether there is a current frame that annotations can be added to.
    pub open spec fn has_frame(self) -> bool {
        self.visited.len() > 0
    }

    /// This context with an annotation added to the current frame.
    pub open spec fn annotated(self, key: Seq<char>, value: Seq<char>) -> ContextView {
        ContextView {
            visited: self.visited.update(
                self.visited.len() - 1,
                self.visited.last().with_annotation(key, value),
            ),
            ..self
        }
    }

    /// This context with a page added to the current frame.
    pub open spec fn paged(self, title: Seq<char>, page: Seq<char>) -> ContextView {
        ContextView {
            visited: self.visited.update(
                self.visited.len() - 1,
                self.visited.last().with_page(title, page),
            ),
            ..self
        }
    }

    /// The context for the next step: the first remaining step becomes the
    /// current frame, and recovered frames are dropped.
    pub open spec fn advanced(self) -> ContextView {
        ContextView {
            visited: self.visited.push(empty_frame(self.remaining[0])),
            remaining: self.remaining.drop_first(),
            recovered: Seq::empty(),
            ..self
        }
    }

    /// This context with the frames that `other` visited beyond this
    /// context, followed by the frames `other` had recovered, recorded as
    /// recovered frames.
    pub open spec fn recovering(self, other: ContextView) -> ContextView {
        ContextView {
            recovered: other.visited.skip(self.visited.len() as int) + other.recovered,
            ..self
        }
    }

    /// Whether `self` lies on an execution path that went through `earlier`:
    /// the same assertion, with the same steps visited so far (whose
    /// annotations may have grown), possibly with more steps visited.
    pub open spec fn extends(self, earlier: ContextView) -> bool {
        &&& self.subject == earlier.subject
        &&& self.location == earlier.location
        &&& self.visited.len() >= earlier.visited.len()
        &&& self.visited.len() + self.remaining.len() == earlier.visited.len()
            + earlier.remaining.len()
    }
}

impl Clone for AssertionContext {
    fn clone(&self) -> (r: Self)
        ensures
            r@ == self@,
    {
        AssertionContext {
            subject: self.subject.clone(),
            source_loc: self.source_loc,
            visited: clone_frames(&self.visited),
            remaining: clone_names(&self.remaining),
            recovered: clone_frames(&self.recovered),
        }
    }
}

impl AssertionContext {
    /// Creates the context for a new assertion on a subject (shown as
    /// `subject`), written at `source_loc`, whose steps have the given names.
    pub fn __new(subject: String, source_loc: SourceLoc, frames: &'static [&'static str]) -> (r:
        AssertionContextBuilder)
        ensures
            r.inner@ == (ContextView {
                subject: subject@,
                location: source_loc@,
                visited: Seq::empty(),
                remaining: name_views(frames@),
                recovered: Seq::empty(),
            }),
    {
        let mut remaining: Vec<&'static str> = Vec::new();
        let mut i: usize = 0;
        while i < frames.len()
            invariant
                i <= frames@.len(),
                remaining@.len() == i,
                name_views(remaining@) == name_views(frames@).take(i as int),
            decreases frames@.len() - i,
        {
            remaining.push(frames[i]);
            assert(name_views(remaining@) =~= name_views(frames@).take(i + 1));
            i = i + 1;
        }
        assert(name_views(frames@).take(frames@.len() as int) =~= name_views(frames@));
        let r = AssertionContextBuilder {
            inner: AssertionContext {
                subject,
                source_loc,
                visited: Vec::new(),
                remaining,
                recovered: Vec::new(),
            },
        };
        assert(frame_views(r.inner.visited@) =~= Seq::empty());
        assert(frame_views(r.inner.recovered@) =~= Seq::empty());
        r
    }

    /// Adds an annotation to the current frame. Annotations appear in
    /// failure messages to explain what happened on the execution path.
    pub fn annotate(&mut self, key: &'static str, value: String)
        requires
            old(self)@.has_frame(),
        ensures
            final(self)@ == old(self)@.annotated(key@, value@),
    {
        let last = self.visited.len() - 1;
        let mut frame = self.visited.remove(last);
        let ghost before = frame.annotations@;
        frame.annotations.push((key, value));
        assert(annotation_views(frame.annotations@) =~= annotation_views(before).push((key@, value@)));
        self.visited.push(frame);
        assert(frame_views(self.visited@) =~= old(self)@.annotated(key@, value@).visited);
    }

    /// Adds a page with additional details (like a diff) to the current
    /// frame. Pages appear at the end of failure messages.
    pub fn add_page(&mut self, title: String, page: String)
        requires
            old(self)@.has_frame(),
        ensures
            final(self)@ == old(self)@.paged(title@, page@),
    {
        let last = self.visited.len() - 1;
        let mut frame = self.visited.remove(last);
        let ghost before = frame.pages@;
        frame.pages.push((title, page));
        assert(page_views(frame.pages@) =~= page_views(before).push((title@, page@)));
        self.visited.push(frame);
        assert(frame_views(self.visited@) =~= old(self)@.paged(title@, page@).visited);
    }

    /// Creates a success value.
    pub fn pass<O: InitializableOutput>(self) -> (r: O)
        ensures
            r.passed_in(self@),
    {
        O::pass(self)
    }

    /// Creates a success value if `pass` holds, and a failure with the
    /// given message otherwise.
    pub fn pass_if<O: InitializableOutput>(self, pass: bool, failure_message: String) -> (r: O)
        ensures
            pass ==> r.passed_in(self@),
            !pass ==> r.failed_in(self@, failure_message@),
    {
        if pass {
            self.pass()
        } else {
            self.fail(failure_message)
        }
    }

    /// Creates a failure with the given message. The context, with its
    /// annotations and the execution path that led here, is attached to it.
    pub fn fail<O: InitializableOutput>(self, message: String) -> (r: O)
        ensures
            r.failed_in(self@, message@),
    {
        O::fail(self, message)
    }

    /// Creates a failure caused by the failure of inner assertions. The
    /// report of the inner failure is attached to the new failure.
    pub fn fail_with(self, cause: crate::output::AssertionError, message: String) -> (r:
        AssertionOutput)
        requires
            crate::output::reportable(cause@),
        ensures
            r@.cx == self@,
            r@.error == Some(message@),
            r@.cause == Some(crate::output::report(cause@)),
    {
        AssertionOutput::failure_with_cause(self, message, cause.to_string())
    }

    /// The source location of the assertion.
    pub fn source_location(&self) -> (r: SourceLoc)
        ensures
            r == self.source_loc,
    {
        self.source_loc
    }

    /// Records, as recovered frames, the frames that `other` visited beyond
    /// this context followed by the frames `other` had recovered.
    pub fn recover(&mut self, other: AssertionContext)
        requires
            old(self)@.visited.len() <= other@.visited.len(),
        ensures
            final(self)@ == old(self)@.recovering(other@),
    {
        let mut recovered: Vec<ContextFrame> = Vec::new();
        let ghost other_view = other@;
        let mut other = other;
        let start = self.visited.len();
        let mut i: usize = start;
        while i < other.visited.len()
            invariant
                start == old(self)@.visited.len(),
                start <= i <= other@.visited.len(),
                other@ == other_view,
                recovered@.len() == i - start,
                frame_views(recovered@) == other@.visited.subrange(start as int, i as int),
            decreases other@.visited.len() - i,
        {
            recovered.push(other.visited[i].clone());
            assert(frame_views(recovered@) =~= other@.visited.subrange(start as int, i + 1));
            i = i + 1;
        }
        let ghost before = frame_views(recovered@);
        let ghost tail = other.recovered@;
        recovered.append(&mut other.recovered);
        assert(frame_views(recovered@) =~= before + frame_views(tail));
        self.recovered = recovered;
    }

    /// The context for the next step of the execution path.
    pub fn next(self) -> (r: AssertionContext)
        requires
            self@.remaining.len() > 0,
        ensures
            r@ == self@.advanced(),
    {
        let mut cx = self;
        let name = cx.remaining.remove(0);
        cx.visited.push(ContextFrame { assertion_name: name, annotations: Vec::new(), pages: Vec::new() });
        cx.recovered = Vec::new();
        assert(name_views(cx.remaining@) =~= self@.remaining.drop_first());
        assert(annotation_views(Seq::<(&'static str, String)>::empty()) =~= Seq::empty());
        assert(page_views(Seq::<(String, String)>::empty()) =~= Seq::empty());
        assert(frame_views(cx.visited@) =~= self@.advanced().visited);
        assert(frame_views(cx.recovered@) =~= Seq::empty());
        cx
    }
}

/// Prepares an [`AssertionContext`] for use within an assertion. It is
/// passed up through the chain of modifiers before the context is handed
/// back down through the constructed assertions.
#[derive(Debug)]
pub struct AssertionContextBuilder {
    pub inner: AssertionContext,
}

impl Clone for AssertionContextBuilder {
    fn clone(&self) -> (r: Self)
        ensures
            r.inner@ == self.inner@,
    {
        AssertionContextBuilder { inner: self.inner.clone() }
    }
}

} // verus!
