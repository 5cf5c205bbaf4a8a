//! The ways in which turning a syntax tree into a note can fail.

use vstd::prelude::*;

verus! {

/// Why a document could not be turned into a note.
#[derive(Debug, PartialEq)]
pub enum NoteError {
    /// The tree handed over is not rooted at a document node.
    InvalidDocument,
    /// A node of the named kind cannot be rendered.
    UnsupportedSyntax(String),
}

} // verus!
