//! The error taxonomy: a tagged kind for every way a parse or a render can
//! fail, a ghost-level error value carrying the offending context, and the
//! user-facing error record with its message text.

use vstd::prelude::*;
use crate::chars::{append_str, append_vec, chars_to_string};
use crate::numbers::{dec_of, usize_to_chars};

verus! {

/// The kind of a failure, one variant per error condition.
#[derive(Debug, PartialEq, Eq, Structural, Clone, Copy)]
pub enum ErrorKind {
    /// A directive line with no separator.
    NullDirective,
    /// A directive key outside the recognized set.
    InvalidDirective,
    /// A tag token outside the closed tag set.
    InvalidTag,
    /// A footnote declared out of sequential order.
    InvalidFootnoteNumber,
    /// An opening bracket with no closing bracket after it.
    UnterminatedMarker,
    /// A template start delimiter with no end delimiter after it.
    UnterminatedTag,
    /// Bracket contents that are not a non-negative integer.
    MalformedReference,
    /// A footnote reference beyond the next allowed sequential index.
    SkippedAnnotation,
    /// A template placeholder name the resolver does not recognize.
    InvalidSubstitution,
    /// An error built directly from a message.
    General,
}

/// A failure at the specification level, carrying its context: the offending
/// reference index, or the unresolved placeholder name.
pub enum SpecErr {
    NullDirective,
    InvalidDirective,
    InvalidTag,
    InvalidFootnoteNumber,
    UnterminatedMarker,
    UnterminatedTag,
    MalformedReference,
    SkippedAnnotation(int),
    InvalidSubstitution(Seq<char>),
}

/// The kind that a specification-level failure surfaces as.
pub open spec fn kind_of(e: SpecErr) -> ErrorKind {
    match e {
        SpecErr::NullDirective => ErrorKind::NullDirective,
        SpecErr::InvalidDirective => ErrorKind::InvalidDirective,
        SpecErr::InvalidTag => ErrorKind::InvalidTag,
        SpecErr::InvalidFootnoteNumber => ErrorKind::InvalidFootnoteNumber,
        SpecErr::UnterminatedMarker => ErrorKind::UnterminatedMarker,
        SpecErr::UnterminatedTag => ErrorKind::UnterminatedTag,
        SpecErr::MalformedReference => ErrorKind::MalformedReference,
        SpecErr::SkippedAnnotation(_) => ErrorKind::SkippedAnnotation,
        SpecErr::InvalidSubstitution(_) => ErrorKind::InvalidSubstitution,
    }
}

/// The message text that a specification-level failure surfaces with.
pub open spec fn msg_of(e: SpecErr) -> Seq<char> {
    match e {
        SpecErr::NullDirective => "Error: Null tag"@,
        SpecErr::InvalidDirective => "Invalid directive"@,
        SpecErr::InvalidTag => "Invalid tag"@,
        SpecErr::InvalidFootnoteNumber => "Invalid footnote number"@,
        SpecErr::UnterminatedMarker => "No closing ']' found"@,
        SpecErr::UnterminatedTag => "No closing tag found"@,
        SpecErr::MalformedReference => "Malformed reference number"@,
        SpecErr::SkippedAnnotation(i) => "Annotation '"@ + dec_of((i - 1) as nat) + "' skipped"@,
        SpecErr::InvalidSubstitution(name) => "Invalid subst '"@ + name + "'"@,
    }
}

/// An error report: its kind, and the message shown to the user.
#[derive(Debug)]
pub struct XVError {
    pub kind: ErrorKind,
    pub msg: String,
}

/// Whether the error record `x` reports the failure `e`.
pub open spec fn err_matches(x: XVError, e: SpecErr) -> bool {
    x.kind == kind_of(e) && x.msg@ == msg_of(e)
}

impl XVError {
    /// An error built directly from a message.
    pub fn from_slice(st: &str) -> (e: XVError)
        ensures
            e.kind == ErrorKind::General,
            e.msg@ == st@,
    {
        XVError { kind: ErrorKind::General, msg: String::from_str(st) }
    }
}

/// An error whose message is a fixed text.
pub(crate) fn err_fixed(kind: ErrorKind, msg: &str) -> (e: XVError)
    ensures
        e.kind == kind,
        e.msg@ == msg@,
{
    XVError { kind, msg: String::from_str(msg) }
}

/// The error for a footnote reference that skips ahead of the sequence.
pub(crate) fn err_skipped(id: usize) -> (e: XVError)
    requires
        id >= 1,
    ensures
        err_matches(e, SpecErr::SkippedAnnotation(id as int)),
{
    let mut m: Vec<char> = Vec::new();
    append_str(&mut m, "Annotation '");
    let num = usize_to_chars(id - 1);
    append_vec(&mut m, &num);
    append_str(&mut m, "' skipped");
    XVError { kind: ErrorKind::SkippedAnnotation, msg: chars_to_string(&m) }
}

/// The error for a template placeholder that the resolver rejected.
pub(crate) fn err_invalid_subst(name: &Vec<char>) -> (e: XVError)
    ensures
        err_matches(e, SpecErr::InvalidSubstitution(name@)),
{
    let mut m: Vec<char> = Vec::new();
    append_str(&mut m, "Invalid subst '");
    append_vec(&mut m, name);
    append_str(&mut m, "'");
    XVError { kind: ErrorKind::InvalidSubstitution, msg: chars_to_string(&m) }
}

} // verus!
