//! What a run of the formatter is asked to do.

use vstd::prelude::*;

verus! {

/// The files to format and how.
#[derive(Debug, PartialEq)]
pub struct Config {
    /// The files named, in order.
    pub files: Vec<String>,
    /// A glob pattern that names the files instead.
    pub glob: Option<String>,
    /// Where to write an index of the files, instead of formatting them.
    pub index: Option<String>,
    /// Overwrite each file with its canonical form.
    pub write: bool,
    /// Print the syntax tree of each file.
    pub md: bool,
    /// Print the note model of each file.
    pub note: bool,
    /// Only report the files that cannot be formatted.
    pub check: bool,
    /// Print the note model of each file as JSON.
    pub json: bool,
}

} // verus!
