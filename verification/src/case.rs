//! Case conventions: finding a convention by its name, and converting text
//! from one convention to another.

use convert_case::{Case, Casing};
use vstd::prelude::*;
use vstd::string::{StrSliceExecFns, StringExecFns};
use vstd::utf8::is_ascii_chars;

use crate::errors::{Fault, RahmenError, RahmenResult};

verus! {

/// A case convention of `convert_case`. The library never looks inside one:
/// it gets them from [`all_cases`] and hands them back to [`recase`].
#[verifier::external_type_specification]
#[verifier::external_body]
pub struct ExCase(convert_case::Case);

/// The name of a convention: what `{:?}` prints for it.
pub uninterp spec fn case_label(case: Case) -> Seq<char>;

/// `text` in lower case: what `from_case(Case::Flat).to_case(Case::Flat)`
/// makes of it, which takes the text as one word and lowers its letters.
pub uninterp spec fn lowered(text: Seq<char>) -> Seq<char>;

/// `text` read under the convention named `from` and written under the one
/// named `to`: what `from_case(..).to_case(..)` makes of it.
pub uninterp spec fn recased(text: Seq<char>, from: Seq<char>, to: Seq<char>) -> Seq<char>;

/// The names of the supported conventions, in the order in which they are
/// tried.
pub open spec fn supported_labels() -> Seq<Seq<char>> {
    seq![
        "Upper"@,
        "Lower"@,
        "Title"@,
        "Toggle"@,
        "Camel"@,
        "Pascal"@,
        "UpperCamel"@,
        "Snake"@,
        "UpperSnake"@,
        "ScreamingSnake"@,
        "Kebab"@,
        "Cobol"@,
        "Train"@,
        "Flat"@,
        "UpperFlat"@,
        "Alternating"@,
    ]
}

/// The names of a list of conventions.
pub open spec fn labels_of(cases: Seq<Case>) -> Seq<Seq<char>> {
    Seq::new(cases.len(), |i: int| case_label(cases[i]))
}

/// Whether a convention marks its word boundaries by capital letters alone.
pub open spec fn splits_on_capitals(label: Seq<char>) -> bool {
    label == "Camel"@ || label == "Pascal"@ || label == "UpperCamel"@
}

/// Whether `c` separates words in a name: a hyphen, an underscore or a
/// space.
pub open spec fn is_separator(c: char) -> bool {
    c == '-' || c == '_' || c == ' '
}

/// `text` without its separators.
pub open spec fn without_separators(text: Seq<char>) -> Seq<char>
    decreases text.len(),
{
    if text.len() == 0 {
        text
    } else if is_separator(text.last()) {
        without_separators(text.drop_last())
    } else {
        without_separators(text.drop_last()).push(text.last())
    }
}

/// `c` in lower case, where it is an ASCII capital; any other character as
/// it is.
pub open spec fn ascii_lower_char(c: char) -> char {
    if 'A' <= c <= 'Z' {
        ((c as u32) + 32) as char
    } else {
        c
    }
}

/// ASCII text in lower case, letter by letter.
pub open spec fn ascii_lower(text: Seq<char>) -> Seq<char> {
    Seq::new(text.len(), |i: int| ascii_lower_char(text[i]))
}

/// `text` in lower case: letter by letter where it is ASCII, and as the
/// case crate lowers it where it is not.
pub open spec fn folded(text: Seq<char>) -> Seq<char> {
    if is_ascii_chars(text) {
        ascii_lower(text)
    } else {
        lowered(text)
    }
}

/// `text` in flat form: in lower case and without separators.
pub open spec fn flat_form(text: Seq<char>) -> Seq<char> {
    folded(without_separators(text))
}

/// The flat form of ASCII text is known letter by letter: it is the text
/// without its separators, each capital lowered.
pub proof fn lemma_flat_form_ascii(text: Seq<char>)
    requires
        is_ascii_chars(text),
    ensures
        is_ascii_chars(without_separators(text)),
        flat_form(text) == ascii_lower(without_separators(text)),
    decreases text.len(),
{
    if text.len() > 0 {
        let head = text.drop_last();
        assert forall|i: int| 0 <= i < head.len() implies '\0' <= #[trigger] head[i]
            <= '\u{7f}' by {
            assert(head[i] == text[i]);
        }
        lemma_flat_form_ascii(head);
        assert('\0' <= text[text.len() - 1] <= '\u{7f}');
    }
}

/// Whether `name` names the convention labelled `label`: the two agree in
/// flat form, that is up to letter case and separators.
pub open spec fn names_case(name: Seq<char>, label: Seq<char>) -> bool {
    flat_form(name) == flat_form(label)
}

/// The position in `labels` of the first convention that `name` names.
pub open spec fn first_named(name: Seq<char>, labels: Seq<Seq<char>>) -> Option<int>
    decreases labels.len(),
{
    if labels.len() == 0 {
        None
    } else if first_named(name, labels.drop_last()) is Some {
        first_named(name, labels.drop_last())
    } else if names_case(name, labels.last()) {
        Some(labels.len() - 1)
    } else {
        None
    }
}

/// Calls `Case::all_cases`. Trusted: the list holds the sixteen conventions
/// of the crate built without its `random` feature, in the order of its
/// source, so their names are [`supported_labels`].
#[verifier::external_body]
fn all_cases() -> (cases: Vec<Case>)
    ensures
        labels_of(cases@) == supported_labels(),
{
    Case::all_cases()
}

/// Prints a convention with `{:?}`. Trusted: the result is the variant's
/// name.
#[verifier::external_body]
fn label_of(case: &Case) -> (label: String)
    ensures
        label@ == case_label(*case),
{
    format!("{:?}", case)
}

/// Calls `Casing::from_case` with `Case::Flat` and then `to_case` with
/// `Case::Flat`: the text is taken as one word, so that no word is cut, and
/// its letters are lowered. Trusted: the result depends on the text alone,
/// and ASCII text comes back in ASCII lower case.
#[verifier::external_body]
fn lower(text: &str) -> (out: String)
    ensures
        out@ == lowered(text@),
        is_ascii_chars(text@) ==> out@ == ascii_lower(text@),
{
    text.from_case(Case::Flat).to_case(Case::Flat)
}

/// Calls `Casing::from_case` and then `to_case` on what it returns. Trusted:
/// the result depends on the text and on the two conventions alone. The
/// crate cuts words at capitals at byte offsets that it counts in
/// characters, so text that is not ASCII is handed over only where the
/// source convention does not cut words at capitals.
#[verifier::external_body]
fn recase(text: &str, from: &Case, to: &Case) -> (out: String)
    requires
        is_ascii_chars(text@) || !splits_on_capitals(case_label(*from)),
    ensures
        out@ == recased(text@, case_label(*from), case_label(*to)),
{
    text.from_case(*from).to_case(*to)
}

/// Drops the separators of `text`.
pub fn strip_separators(text: &str) -> (out: String)
    ensures
        out@ == without_separators(text@),
{
    let n = text.unicode_len();
    let mut out = String::new();
    let mut i: usize = 0;
    while i < n
        invariant
            i <= n,
            n == text@.len(),
            out@ == without_separators(text@.take(i as int)),
        decreases n - i,
    {
        proof {
            let after = text@.take(i + 1);
            assert(after.drop_last() =~= text@.take(i as int));
            assert(after.last() == text@[i as int]);
        }
        let c = text.get_char(i);
        if !(c == '-' || c == '_' || c == ' ') {
            let ghost before = out@;
            out.append(text.substring_char(i, i + 1));
            assert(out@ =~= before.push(text@[i as int]));
        }
        i += 1;
    }
    proof {
        assert(text@.take(n as int) =~= text@);
    }
    out
}

/// The flat form of `text`: without separators and in lower case.
pub fn flatten(text: &str) -> (flat: String)
    ensures
        flat@ == flat_form(text@),
{
    let stripped = strip_separators(text);
    lower(stripped.as_str())
}

/// The first convention in `cases` that `name` names, if there is one.
pub fn find_case(name: &str, cases: &Vec<Case>) -> (found: Option<Case>)
    ensures
        match first_named(name@, labels_of(cases@)) {
            Some(i) => found == Some(cases@[i]),
            None => found is None,
        },
{
    let flat = flatten(name);
    let mut i: usize = 0;
    while i < cases.len()
        invariant
            i <= cases.len(),
            flat@ == flat_form(name@),
            first_named(name@, labels_of(cases@).take(i as int)) is None,
        decreases cases.len() - i,
    {
        let label = label_of(&cases[i]);
        let flat_label = flatten(label.as_str());
        let ghost before = labels_of(cases@).take(i as int);
        let ghost after = labels_of(cases@).take(i + 1);
        proof {
            assert(after.drop_last() =~= before);
            assert(after.last() == case_label(cases@[i as int]));
        }
        if flat == flat_label {
            proof {
                lemma_first_named_extends(name@, labels_of(cases@), i + 1);
            }
            return Some(cases[i]);
        }
        i += 1;
    }
    proof {
        assert(labels_of(cases@).take(cases.len() as int) =~= labels_of(cases@));
    }
    None
}

/// A convention found among the first `n` labels is the one found in the
/// whole list.
proof fn lemma_first_named_extends(name: Seq<char>, labels: Seq<Seq<char>>, n: int)
    requires
        0 <= n <= labels.len(),
        first_named(name, labels.take(n)) is Some,
    ensures
        first_named(name, labels) == first_named(name, labels.take(n)),
    decreases labels.len() - n,
{
    if n < labels.len() {
        assert(labels.take(n + 1).drop_last() =~= labels.take(n));
        lemma_first_named_extends(name, labels, n + 1);
    } else {
        assert(labels.take(n) =~= labels);
    }
}

/// Whether `name` names one of the supported conventions.
pub open spec fn is_case_name(name: Seq<char>) -> bool {
    first_named(name, supported_labels()) is Some
}

/// The name of the convention that `name` names, where it names one.
pub open spec fn case_named(name: Seq<char>) -> Seq<char> {
    supported_labels()[first_named(name, supported_labels())->0]
}

/// Finds the case convention that `s` names. The comparison ignores letter
/// case and separators: `"snake"`, `"Snake"` and `"SNAKE"` all name the snake
/// convention, `"upper-camel"` and `"UpperCamel"` the upper camel one. Where
/// several conventions fit, the first in the order of [`supported_labels`]
/// is returned.
pub fn str_to_case(s: String) -> (r: RahmenResult<Case>)
    ensures
        r is Ok <==> is_case_name(s@),
        r matches Ok(case) ==> case_label(case) == case_named(s@),
        r matches Err(e) ==> e@ == Fault::CaseUnknown(s@),
{
    let cases = all_cases();
    match find_case(s.as_str(), &cases) {
        Some(case) => {
            proof {
                lemma_first_named_in_range(s@, supported_labels());
            }
            Ok(case)
        },
        None => Err(RahmenError::CaseUnknown(s)),
    }
}

/// A position that [`first_named`] returns lies in the list, and the name
/// names the convention at that position and none before it.
pub proof fn lemma_first_named_in_range(name: Seq<char>, labels: Seq<Seq<char>>)
    ensures
        first_named(name, labels) matches Some(i) ==> {
            &&& 0 <= i < labels.len()
            &&& names_case(name, labels[i])
            &&& forall|j: int| 0 <= j < i ==> !names_case(name, #[trigger] labels[j])
        },
        first_named(name, labels) is None ==> forall|j: int|
            0 <= j < labels.len() ==> !names_case(name, #[trigger] labels[j]),
    decreases labels.len(),
{
    if labels.len() > 0 {
        lemma_first_named_in_range(name, labels.drop_last());
        assert forall|j: int| 0 <= j < labels.len() - 1 implies labels.drop_last()[j]
            == labels[j] by {}
    }
}

/// Whether text can be converted from the convention `from`: the convention
/// cuts words at separators, or the text is ASCII.
pub open spec fn convertible(text: Seq<char>, from: Seq<char>) -> bool {
    is_ascii_chars(text) || !splits_on_capitals(from)
}

/// `text` converted from `from` to `to` where it is [`convertible`], and
/// unchanged where it is not.
pub open spec fn converted(text: Seq<char>, from: Seq<char>, to: Seq<char>) -> Seq<char> {
    if convertible(text, from) {
        recased(text, from, to)
    } else {
        text
    }
}

/// Whether `case` cuts words at capital letters alone.
pub fn cuts_at_capitals(case: &Case) -> (yes: bool)
    ensures
        yes == splits_on_capitals(case_label(*case)),
{
    let label = label_of(case);
    let camel = "Camel".to_string();
    let pascal = "Pascal".to_string();
    let upper_camel = "UpperCamel".to_string();
    label == camel || label == pascal || label == upper_camel
}

/// Reads `text` under the convention `from` and writes it under `to`. Text
/// with a character outside ASCII is left as it is where `from` cuts words
/// at capitals.
pub fn change_case(text: &str, from: &Case, to: &Case) -> (out: String)
    ensures
        out@ == converted(text@, case_label(*from), case_label(*to)),
{
    if text.is_ascii() || !cuts_at_capitals(from) {
        recase(text, from, to)
    } else {
        text.to_string()
    }
}

} // verus!
