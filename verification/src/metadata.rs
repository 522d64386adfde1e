//! Metadata attached to assertions: where they were written, and how the
//! values passed into them are shown in failure reports.
use vstd::prelude::*;

use crate::text::{decimal, push_char, push_decimal, push_str};

verus! {

/// The place in the source code where an assertion was written.
#[derive(Clone, Copy, Debug)]
pub struct SourceLoc {
    pub file: &'static str,
    pub line: u32,
    pub column: u32,
    pub module: &'static str,
}

/// The abstract value of a [`SourceLoc`].
pub struct SourceLocView {
    pub file: Seq<char>,
    pub line: nat,
    pub column: nat,
    pub module: Seq<char>,
}

impl View for SourceLoc {
    type V = SourceLocView;

    open spec fn view(&self) -> SourceLocView {
        SourceLocView {
            file: self.file@,
            line: self.line as nat,
            column: self.column as nat,
            module: self.module@,
        }
    }
}

/// How a source location is shown: `file:line:column [module]`.
pub open spec fn loc_text(loc: SourceLocView) -> Seq<char> {
    loc.file + seq![':'] + decimal(loc.line) + seq![':'] + decimal(loc.column) + seq![' ', '[']
        + loc.module + seq![']']
}

impl SourceLoc {
    /// Creates a source location.
    pub fn new(file: &'static str, line: u32, column: u32, module: &'static str) -> (r: Self)
        ensures
            r.file == file,
            r.line == line,
            r.column == column,
            r.module == module,
    {
        SourceLoc { file, line, column, module }
    }

    /// Renders this location as `file:line:column [module]`.
    pub fn render(&self) -> (r: String)
        ensures
            r@ == loc_text(self@),
    {
        let mut s = String::new();
        push_str(&mut s, self.file);
        push_char(&mut s, ':');
        push_decimal(&mut s, self.line as usize);
        push_char(&mut s, ':');
        push_decimal(&mut s, self.column as usize);
        push_char(&mut s, ' ');
        push_char(&mut s, '[');
        push_str(&mut s, self.module);
        push_char(&mut s, ']');
        assert(s@ =~= loc_text(self@));
        s
    }
}

/// How an annotated value is represented in failure reports.
#[derive(Clone, Copy, Debug, PartialEq, Eq, Structural)]
pub enum AnnotatedKind {
    /// The value's debug representation is used.
    Debug,
    /// The value has no debug representation, so the source text of the
    /// expression that produced it is used instead.
    Stringify,
}

/// A value together with its textual representations.
///
/// Assertions and modifiers receive their parameters as annotated values so
/// that failure reports can show them even when the values themselves were
/// moved into the assertion.
#[derive(Clone, Debug)]
pub struct Annotated<T> {
    pub value: T,
    pub kind: AnnotatedKind,
    /// The single-line representation: the debug representation for
    /// [`AnnotatedKind::Debug`], the source text otherwise.
    pub repr: String,
    /// The multi-line ("pretty") debug representation, if there is one.
    pub pretty: Option<String>,
    /// The display representation, if there is one.
    pub display: Option<String>,
}

impl<T> Annotated<T> {
    /// Annotates a value that has a debug representation.
    pub fn from_debug(value: T, debug: String, pretty: String, display: Option<String>) -> (r: Self)
        ensures
            r.value == value,
            r.kind == AnnotatedKind::Debug,
            r.repr@ == debug@,
            r.pretty == Some(pretty),
            r.display == display,
    {
        Annotated { value, kind: AnnotatedKind::Debug, repr: debug, pretty: Some(pretty), display }
    }

    /// Annotates a value that has no debug representation, using the source
    /// text of the expression that produced it.
    pub fn from_stringify(value: T, source: String, display: Option<String>) -> (r: Self)
        ensures
            r.value == value,
            r.kind == AnnotatedKind::Stringify,
            r.repr@ == source@,
            r.pretty is None,
            r.display == display,
    {
        Annotated { value, kind: AnnotatedKind::Stringify, repr: source, pretty: None, display }
    }

    /// How the value is represented.
    pub fn kind(&self) -> (r: AnnotatedKind)
        ensures
            r == self.kind,
    {
        self.kind
    }

    /// The single-line representation of the value.
    pub fn as_str(&self) -> (r: &str)
        ensures
            r@ == self.repr@,
    {
        self.repr.as_str()
    }

    /// The debug representation, if the value has one.
    pub fn as_debug(&self) -> (r: Option<&str>)
        ensures
            self.kind == AnnotatedKind::Debug ==> (r matches Some(s) && s@ == self.repr@),
            self.kind == AnnotatedKind::Stringify ==> r is None,
    {
        match self.kind {
            AnnotatedKind::Debug => Some(self.repr.as_str()),
            AnnotatedKind::Stringify => None,
        }
    }

    /// The multi-line debug representation, if the value has one.
    pub fn as_pretty_debug(&self) -> (r: Option<&str>)
        ensures
            r matches Some(s) ==> self.pretty matches Some(p) && s@ == p@,
            r is None <==> self.pretty is None,
    {
        match &self.pretty {
            Some(p) => Some(p.as_str()),
            None => None,
        }
    }

    /// The display representation, if the value has one.
    pub fn as_display(&self) -> (r: Option<&str>)
        ensures
            r matches Some(s) ==> self.display matches Some(d) && s@ == d@,
            r is None <==> self.display is None,
    {
        match &self.display {
            Some(d) => Some(d.as_str()),
            None => None,
        }
    }

    /// A reference to the annotated value.
    pub fn inner(&self) -> (r: &T)
        ensures
            *r == self.value,
    {
        &self.value
    }

    /// Takes the annotated value.
    pub fn into_inner(self) -> (r: T)
        ensures
            r == self.value,
    {
        self.value
    }
}

} // verus!
