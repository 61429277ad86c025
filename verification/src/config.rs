//! The declarative configuration that a formatter is built from.

use vstd::prelude::*;

verus! {

/// How a status line is laid out.
#[derive(Debug, Clone)]
pub struct LineSettings {
    /// The text put between two tokens. It is used as it is, never trimmed.
    pub separator: String,
    /// Whether a token that occurred before is left out.
    pub uniquify: bool,
    /// Whether an empty token is left out rather than shown as an empty slot.
    pub hide_empty: bool,
}

/// A pattern and what its matches are replaced by.
#[derive(Debug, Clone)]
pub struct Replacement {
    pub regex: String,
    pub replace: String,
}

/// The names of two case conventions, the one to read a value under and the
/// one to write it under.
#[derive(Debug, Clone)]
pub struct CaseConversion {
    pub from: String,
    pub to: String,
}

/// One element of the status line: the tags to try, in the order of their
/// priority, and what to do with the value found.
#[derive(Debug, Clone)]
pub struct Element {
    pub exif_tags: Vec<String>,
    pub case_conversion: Option<CaseConversion>,
    pub capitalize: Option<bool>,
    pub replace: Option<Vec<Replacement>>,
}

} // verus!
