//! Patterns of the regex engine: compiling one, and replacing its matches.

use regex::Regex;
use vstd::prelude::*;

verus! {

/// A compiled pattern of `regex`. The library never looks inside one: it
/// holds them in a [`Pattern`].
#[verifier::external_type_specification]
#[verifier::external_body]
pub struct ExRegex(regex::Regex);

/// Whether the regex engine accepts `pattern`: whether `Regex::new` returns
/// `Ok` for it.
pub uninterp spec fn pattern_compiles(pattern: Seq<char>) -> bool;

/// Whether `pattern` has a match anywhere in `text`: what `Regex::is_match`
/// returns.
pub uninterp spec fn has_match(pattern: Seq<char>, text: Seq<char>) -> bool;

/// `text` with every non-overlapping match of `pattern` replaced by
/// `replacement`, in which `$1`, `$name` and the like stand for captured
/// groups: what `Regex::replace_all` returns.
pub uninterp spec fn replaced(pattern: Seq<char>, text: Seq<char>, replacement: Seq<char>) -> Seq<
    char,
>;

/// A pattern that the regex engine accepted: its text, and what the engine
/// compiled it to. One is made by [`compile`] alone, with the engine's
/// default options, so that what it matches depends on its text and on
/// nothing else.
#[derive(Debug)]
pub struct Pattern {
    source: String,
    regex: Regex,
}

impl View for Pattern {
    type V = Seq<char>;

    /// The text of the pattern.
    closed spec fn view(&self) -> Seq<char> {
        self.source@
    }
}

impl Pattern {
    /// The text of the pattern.
    pub fn source(&self) -> (source: &String)
        ensures
            source@ == self@,
    {
        &self.source
    }
}

/// Calls `Regex::new` and keeps the text beside what was compiled from it.
/// Trusted: whether the pattern is accepted depends on the pattern alone.
#[verifier::external_body]
pub(crate) fn compile(pattern: &str) -> (r: Result<Pattern, regex::Error>)
    ensures
        r is Ok <==> pattern_compiles(pattern@),
        r matches Ok(compiled) ==> compiled@ == pattern@,
{
    Regex::new(pattern).map(|regex| Pattern { source: pattern.to_string(), regex })
}

/// Calls `Regex::replace_all` on the compiled pattern, with a replacement
/// string. Trusted: the result depends on the pattern's text, the text and
/// the replacement alone.
#[verifier::external_body]
pub(crate) fn replace_all(pattern: &Pattern, text: &str, replacement: &str) -> (out: String)
    ensures
        out@ == replaced(pattern@, text@, replacement@),
{
    pattern.regex.replace_all(text, replacement).into_owned()
}

/// Calls `Regex::is_match` on the compiled pattern. Trusted: the answer
/// depends on the pattern's text and the text alone.
#[verifier::external_body]
pub(crate) fn is_match(pattern: &Pattern, text: &str) -> (found: bool)
    ensures
        found == has_match(pattern@, text@),
{
    pattern.regex.is_match(text)
}

} // verus!
