//! Transformations: the pure text-to-text steps that a value goes through.

use convert_case::Case;
use vstd::prelude::*;

use crate::case::{case_label, change_case, converted};
use crate::config::Replacement;
use crate::errors::{Fault, RahmenError, RahmenResult};
use crate::pattern::{
    compile,
    has_match,
    is_match,
    pattern_compiles,
    replace_all,
    replaced,
    Pattern,
};

verus! {

/// One step of a transformation chain.
#[derive(Debug)]
pub enum StatusLineTransformation {
    /// Replaces every match of the pattern by the replacement.
    RegexReplace(Pattern, String),
    /// Reads the text as upper case and writes it in title case.
    Capitalize,
    /// Reads the text under the first convention and writes it under the
    /// second.
    ChangeCase(Case, Case),
}

/// What a transformation does, in plain values: patterns by their source
/// text and case conventions by their names.
pub enum Step {
    Replace { pattern: Seq<char>, replacement: Seq<char> },
    Capitalize,
    ChangeCase { from: Seq<char>, to: Seq<char> },
}

/// The text that `step` makes of `text`.
pub open spec fn applied(step: Step, text: Seq<char>) -> Seq<char> {
    match step {
        Step::Replace { pattern, replacement } => if has_match(pattern, text) {
            replaced(pattern, text, replacement)
        } else {
            text
        },
        Step::Capitalize => converted(text, "Upper"@, "Title"@),
        Step::ChangeCase { from, to } => converted(text, from, to),
    }
}

/// The text that the steps make of `text`, applied from the first to the
/// last.
pub open spec fn applied_all(steps: Seq<Step>, text: Seq<char>) -> Seq<char>
    decreases steps.len(),
{
    if steps.len() == 0 {
        text
    } else {
        applied(steps.last(), applied_all(steps.drop_last(), text))
    }
}

/// The step that a replacement asks for.
pub open spec fn replace_step(value: Replacement) -> Step {
    Step::Replace { pattern: value.regex@, replacement: value.replace@ }
}

/// A replacement that finds nothing left to replace in its own result
/// changes nothing when it is applied again.
pub proof fn lemma_replace_settles(step: Step, text: Seq<char>)
    requires
        step matches Step::Replace { pattern, .. } && !has_match(pattern, applied(step, text)),
    ensures
        applied(step, applied(step, text)) == applied(step, text),
{
}

/// The steps of a list of transformations.
pub open spec fn steps_of(ts: Seq<StatusLineTransformation>) -> Seq<Step> {
    Seq::new(ts.len(), |i: int| ts[i]@)
}

impl View for StatusLineTransformation {
    type V = Step;

    open spec fn view(&self) -> Step {
        match self {
            StatusLineTransformation::RegexReplace(pattern, replacement) => Step::Replace {
                pattern: pattern@,
                replacement: replacement@,
            },
            StatusLineTransformation::Capitalize => Step::Capitalize,
            StatusLineTransformation::ChangeCase(from, to) => Step::ChangeCase {
                from: case_label(*from),
                to: case_label(*to),
            },
        }
    }
}

impl StatusLineTransformation {
    /// The replacement of every match of `value.regex` by `value.replace`,
    /// in which `$1`, `$name` and the like stand for captured groups. Fails
    /// where the regex engine does not accept the pattern.
    pub fn try_from(value: Replacement) -> (r: RahmenResult<Self>)
        ensures
            r is Ok <==> pattern_compiles(value.regex@),
            r matches Ok(t) ==> t@ == replace_step(value),
            r matches Err(e) ==> e@ == Fault::Regex(value.regex@),
    {
        match compile(value.regex.as_str()) {
            Ok(pattern) => Ok(StatusLineTransformation::RegexReplace(pattern, value.replace)),
            Err(error) => Err(RahmenError::Regex { pattern: value.regex, error }),
        }
    }

    /// Applies the transformation to `input`. Nothing but the input and the
    /// transformation enters the result; text in which a pattern finds no
    /// match is returned as it is.
    pub fn transform(&self, input: &str) -> (output: String)
        ensures
            output@ == applied(self@, input@),
    {
        match self {
            StatusLineTransformation::RegexReplace(pattern, replacement) => {
                if is_match(pattern, input) {
                    replace_all(pattern, input, replacement.as_str())
                } else {
                    input.to_string()
                }
            },
            StatusLineTransformation::Capitalize => {
                let upper = upper_case();
                let title = title_case();
                change_case(input, &upper, &title)
            },
            StatusLineTransformation::ChangeCase(from, to) => change_case(input, from, to),
        }
    }
}

/// Names `Case::Upper`. Trusted: that is the variant's name.
#[verifier::external_body]
fn upper_case() -> (case: Case)
    ensures
        case_label(case) == "Upper"@,
{
    Case::Upper
}

/// Names `Case::Title`. Trusted: that is the variant's name.
#[verifier::external_body]
fn title_case() -> (case: Case)
    ensures
        case_label(case) == "Title"@,
{
    Case::Title
}

/// Applies the transformations to `input`, from the first to the last.
pub fn transform_all(transformations: &Vec<StatusLineTransformation>, input: String) -> (output:
    String)
    ensures
        output@ == applied_all(steps_of(transformations@), input@),
{
    let mut value = input;
    let mut i: usize = 0;
    while i < transformations.len()
        invariant
            i <= transformations.len(),
            value@ == applied_all(steps_of(transformations@).take(i as int), input@),
        decreases transformations.len() - i,
    {
        proof {
            let before = steps_of(transformations@).take(i as int);
            let after = steps_of(transformations@).take(i + 1);
            assert(after.drop_last() =~= before);
            assert(after.last() == transformations@[i as int]@);
        }
        value = transformations[i].transform(value.as_str());
        i += 1;
    }
    proof {
        assert(steps_of(transformations@).take(transformations.len() as int) =~= steps_of(
            transformations@,
        ));
    }
    value
}

} // verus!
