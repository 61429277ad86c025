//! Errors of the configuration stage.

use vstd::prelude::*;
use vstd::string::StringExecFns;

verus! {

/// The error type of `regex`, carried unopened inside [`RahmenError::Regex`].
#[verifier::external_type_specification]
#[verifier::external_body]
pub struct ExRegexError(regex::Error);

/// What can be wrong with a configuration. Every variant is fatal: a
/// formatter is never built from a configuration that has one.
#[derive(Debug)]
pub enum RahmenError {
    /// A case name that matches no supported case convention.
    CaseUnknown(String),
    /// A pattern that the regex engine refused, with the engine's reason.
    Regex { pattern: String, error: regex::Error },
    /// An element that names no tag at all.
    NoTags,
}

pub type RahmenResult<T> = Result<T, RahmenError>;

/// What is wrong with a configuration, in plain values.
pub enum Fault {
    /// The name that names no case convention.
    CaseUnknown(Seq<char>),
    /// The pattern that the regex engine refuses.
    Regex(Seq<char>),
    /// An element names no tag.
    NoTags,
}

impl View for RahmenError {
    type V = Fault;

    open spec fn view(&self) -> Fault {
        match self {
            RahmenError::CaseUnknown(name) => Fault::CaseUnknown(name@),
            RahmenError::Regex { pattern, .. } => Fault::Regex(pattern@),
            RahmenError::NoTags => Fault::NoTags,
        }
    }
}

impl RahmenError {
    /// The text of the error, as it is shown to the user: it names the
    /// case or the pattern at fault.
    pub open spec fn text(self) -> Seq<char> {
        match self {
            RahmenError::CaseUnknown(name) => "unknown case: "@ + name@,
            RahmenError::Regex { pattern, error } => "invalid pattern "@ + pattern@ + ": "@
                + regex_error_text(error),
            RahmenError::NoTags => "element without tags"@,
        }
    }

    /// A one-line description for the user.
    pub fn message(&self) -> (text: String)
        ensures
            text@ == self.text(),
    {
        match self {
            RahmenError::CaseUnknown(name) => {
                let mut text = "unknown case: ".to_string();
                text.append(name.as_str());
                text
            },
            RahmenError::Regex { pattern, error } => {
                let mut text = "invalid pattern ".to_string();
                text.append(pattern.as_str());
                text.append(": ");
                text.append(describe_regex_error(error).as_str());
                text
            },
            RahmenError::NoTags => "element without tags".to_string(),
        }
    }
}

/// What `Display` prints for an error of the regex engine.
pub uninterp spec fn regex_error_text(e: regex::Error) -> Seq<char>;

/// Renders a `regex::Error` through its `Display` impl. Trusted: the text
/// depends on the error alone.
#[verifier::external_body]
fn describe_regex_error(e: &regex::Error) -> (text: String)
    ensures
        text@ == regex_error_text(*e),
{
    format!("{}", e)
}

} // verus!
