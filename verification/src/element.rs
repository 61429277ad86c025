//! Elements: one value of the status line each, resolved from a list of
//! fallback tags and passed through a chain of transformations.

use vstd::prelude::*;

use crate::case::{case_named, is_case_name, str_to_case};
use crate::config::{CaseConversion, Element, Replacement};
use crate::errors::{Fault, RahmenError, RahmenResult};
use crate::metadata::MetadataRecord;
use crate::pattern::{compile, pattern_compiles};
use crate::text::views;
use crate::transformation::{
    applied_all,
    replace_step,
    steps_of,
    transform_all,
    StatusLineTransformation,
    Step,
};

verus! {

/// The steps that a list of replacements asks for, in their order.
pub open spec fn replace_steps(replacements: Seq<Replacement>) -> Seq<Step> {
    Seq::new(replacements.len(), |i: int| replace_step(replacements[i]))
}

/// The first pattern of the list that the regex engine refuses, if there is
/// one.
pub open spec fn refused(replacements: Seq<Replacement>) -> Option<Seq<char>>
    decreases replacements.len(),
{
    if replacements.len() == 0 {
        None
    } else if refused(replacements.drop_last()) is Some {
        refused(replacements.drop_last())
    } else if !pattern_compiles(replacements.last().regex@) {
        Some(replacements.last().regex@)
    } else {
        None
    }
}

/// The fault of a list of replacements, if it has one: its first refused
/// pattern.
pub open spec fn replace_fault(replacements: Seq<Replacement>) -> Option<Fault> {
    match refused(replacements) {
        Some(pattern) => Some(Fault::Regex(pattern)),
        None => None,
    }
}

/// The fault of an optional list of replacements.
pub open spec fn optional_replace_fault(replace: Option<Vec<Replacement>>) -> Option<Fault> {
    match replace {
        Some(replacements) => replace_fault(replacements@),
        None => None,
    }
}

/// The steps that a case conversion asks for: one, or none where there is no
/// conversion.
pub open spec fn case_steps(conversion: Option<CaseConversion>) -> Seq<Step> {
    match conversion {
        Some(c) => seq![Step::ChangeCase { from: case_named(c.from@), to: case_named(c.to@) }],
        None => Seq::empty(),
    }
}

/// The steps that the capitalize switch asks for: one where it is on.
pub open spec fn capitalize_steps(capitalize: Option<bool>) -> Seq<Step> {
    if capitalize == Some(true) {
        seq![Step::Capitalize]
    } else {
        Seq::empty()
    }
}

/// The steps that the optional list of replacements asks for.
pub open spec fn optional_replace_steps(replace: Option<Vec<Replacement>>) -> Seq<Step> {
    match replace {
        Some(replacements) => replace_steps(replacements@),
        None => Seq::empty(),
    }
}

/// The chain that an element's configuration asks for: the case conversion,
/// the capitalization, then the replacements in their order.
pub open spec fn planned_steps(config: Element) -> Seq<Step> {
    case_steps(config.case_conversion) + capitalize_steps(config.capitalize)
        + optional_replace_steps(config.replace)
}

/// What is wrong with an element's configuration, if anything. Of several
/// faults the first in this order is reported: no tag, the source case, the
/// target case, a pattern.
pub open spec fn element_fault(config: Element) -> Option<Fault> {
    if config.exif_tags@.len() == 0 {
        Some(Fault::NoTags)
    } else if case_fault(config.case_conversion) is Some {
        case_fault(config.case_conversion)
    } else {
        optional_replace_fault(config.replace)
    }
}

/// What is wrong with a case conversion, if anything: the first of its two
/// names that names no convention.
pub open spec fn case_fault(conversion: Option<CaseConversion>) -> Option<Fault> {
    match conversion {
        Some(c) => if !is_case_name(c.from@) {
            Some(Fault::CaseUnknown(c.from@))
        } else if !is_case_name(c.to@) {
            Some(Fault::CaseUnknown(c.to@))
        } else {
            None
        },
        None => None,
    }
}

/// The value of the first of `tags` that `record` has.
pub open spec fn first_present(tags: Seq<Seq<char>>, record: Map<Seq<char>, Seq<char>>) -> Option<
    Seq<char>,
>
    decreases tags.len(),
{
    if tags.len() == 0 {
        None
    } else if first_present(tags.drop_last(), record) is Some {
        first_present(tags.drop_last(), record)
    } else if record.contains_key(tags.last()) {
        Some(record[tags.last()])
    } else {
        None
    }
}

/// What an element is, in plain values.
pub struct Plan {
    pub tags: Seq<Seq<char>>,
    pub steps: Seq<Step>,
}

/// The value that an element shows for `record`: that of the first tag
/// present, after all the steps; `None` where no tag is present.
pub open spec fn resolved(plan: Plan, record: Map<Seq<char>, Seq<char>>) -> Option<Seq<char>> {
    match first_present(plan.tags, record) {
        Some(value) => Some(applied_all(plan.steps, value)),
        None => None,
    }
}

/// One element of the status line.
#[derive(Debug)]
pub struct StatusLineElement {
    tags: Vec<String>,
    transformations: Vec<StatusLineTransformation>,
}

impl View for StatusLineElement {
    type V = Plan;

    closed spec fn view(&self) -> Plan {
        Plan { tags: views(self.tags@), steps: steps_of(self.transformations@) }
    }
}

/// Compiles the replacements in their order and appends them to
/// `transformations`. Stops at the first pattern that the regex engine
/// refuses.
pub fn push_replacements(
    transformations: &mut Vec<StatusLineTransformation>,
    replacements: Vec<Replacement>,
) -> (r: RahmenResult<()>)
    ensures
        match replace_fault(replacements@) {
            None => r is Ok && steps_of(final(transformations)@) == steps_of(
                old(transformations)@,
            ) + replace_steps(replacements@),
            Some(fault) => r matches Err(e) && e@ == fault,
        },
{
    let ghost start = steps_of(transformations@);
    let ghost all = replacements@;
    for replacement in it: replacements
        invariant
            it.seq() == all,
            steps_of(transformations@) == start + replace_steps(all.take(it.index() as int)),
            refused(all.take(it.index() as int)) is None,
    {
        let ghost k = it.index() as int;
        let ghost before = steps_of(transformations@);
        proof {
            assert(replacement == all[k]);
            assert(all.take(k + 1).drop_last() =~= all.take(k));
            assert(all.take(k + 1).last() == all[k]);
        }
        match StatusLineTransformation::try_from(replacement) {
            Ok(t) => {
                transformations.push(t);
                proof {
                    assert(steps_of(transformations@) =~= before.push(replace_step(all[k])));
                    assert(replace_steps(all.take(k + 1)) =~= replace_steps(all.take(k)).push(
                        replace_step(all[k]),
                    ));
                }
            },
            Err(e) => {
                proof {
                    lemma_refused_extends(all, k + 1);
                }
                return Err(e);
            },
        }
    }
    proof {
        assert(all.take(all.len() as int) =~= all);
    }
    Ok(())
}

/// Whether the regex engine refuses a pattern of the list.
pub fn any_refused(replacements: &Vec<Replacement>) -> (yes: bool)
    ensures
        yes == refused(replacements@) is Some,
{
    let mut i: usize = 0;
    while i < replacements.len()
        invariant
            i <= replacements.len(),
            refused(replacements@.take(i as int)) is None,
        decreases replacements.len() - i,
    {
        proof {
            let after = replacements@.take(i + 1);
            assert(after.drop_last() =~= replacements@.take(i as int));
            assert(after.last() == replacements@[i as int]);
        }
        if compile(replacements[i].regex.as_str()).is_err() {
            proof {
                lemma_refused_extends(replacements@, i + 1);
            }
            return true;
        }
        i += 1;
    }
    proof {
        assert(replacements@.take(replacements.len() as int) =~= replacements@);
    }
    false
}

/// Whether an element's configuration has a fault.
pub fn has_fault(config: &Element) -> (faulty: bool)
    ensures
        faulty == element_fault(*config) is Some,
{
    if config.exif_tags.len() == 0 {
        return true;
    }
    if let Some(conversion) = &config.case_conversion {
        if str_to_case(conversion.from.clone()).is_err() {
            return true;
        }
        if str_to_case(conversion.to.clone()).is_err() {
            return true;
        }
    }
    match &config.replace {
        Some(replacements) => any_refused(replacements),
        None => false,
    }
}

/// A pattern refused among the first `n` replacements is the one refused in
/// the whole list.
proof fn lemma_refused_extends(replacements: Seq<Replacement>, n: int)
    requires
        0 <= n <= replacements.len(),
        refused(replacements.take(n)) is Some,
    ensures
        refused(replacements) == refused(replacements.take(n)),
    decreases replacements.len() - n,
{
    if n < replacements.len() {
        assert(replacements.take(n + 1).drop_last() =~= replacements.take(n));
        lemma_refused_extends(replacements, n + 1);
    } else {
        assert(replacements.take(n) =~= replacements);
    }
}

impl StatusLineElement {
    /// An element names at least one tag.
    #[verifier::type_invariant]
    spec fn has_tags(self) -> bool {
        self.tags@.len() > 0
    }

    /// Builds an element from its configuration: the tags as they are given,
    /// and the chain that [`planned_steps`] describes. Fails on the first
    /// fault of the configuration (see [`element_fault`]).
    pub fn try_from(value: Element) -> (r: RahmenResult<Self>)
        ensures
            match element_fault(value) {
                None => r matches Ok(element) && element@ == (Plan {
                    tags: views(value.exif_tags@),
                    steps: planned_steps(value),
                }),
                Some(fault) => r matches Err(e) && e@ == fault,
            },
    {
        let Element { exif_tags, case_conversion, capitalize, replace } = value;
        if exif_tags.len() == 0 {
            return Err(RahmenError::NoTags);
        }
        let mut transformations: Vec<StatusLineTransformation> = Vec::new();
        if let Some(conversion) = case_conversion {
            let from = str_to_case(conversion.from)?;
            let to = str_to_case(conversion.to)?;
            transformations.push(StatusLineTransformation::ChangeCase(from, to));
        }
        assert(steps_of(transformations@) =~= case_steps(case_conversion));
        if let Some(true) = capitalize {
            transformations.push(StatusLineTransformation::Capitalize);
        }
        assert(steps_of(transformations@) =~= case_steps(case_conversion) + capitalize_steps(
            capitalize,
        ));
        if let Some(replacements) = replace {
            push_replacements(&mut transformations, replacements)?;
        }
        assert(steps_of(transformations@) =~= planned_steps(value));
        Ok(StatusLineElement { tags: exif_tags, transformations })
    }

    /// The tags that the element tries, in the order of their priority.
    pub fn tags(&self) -> (tags: &Vec<String>)
        ensures
            views(tags@) == self@.tags,
            tags@.len() > 0,
    {
        proof {
            use_type_invariant(self);
        }
        &self.tags
    }

    /// Resolves the element for one image: the value of the first tag that
    /// the record has, passed through the chain. `None` where the record has
    /// none of the tags; what is shown then is for the formatter to decide.
    pub fn process(&self, metadata: &MetadataRecord) -> (value: Option<String>)
        ensures
            match resolved(self@, metadata@) {
                Some(text) => value matches Some(v) && v@ == text,
                None => value is None,
            },
    {
        let mut i: usize = 0;
        while i < self.tags.len()
            invariant
                i <= self.tags.len(),
                first_present(views(self.tags@).take(i as int), metadata@) is None,
            decreases self.tags.len() - i,
        {
            proof {
                let after = views(self.tags@).take(i + 1);
                assert(after.drop_last() =~= views(self.tags@).take(i as int));
                assert(after.last() == self.tags@[i as int]@);
            }
            if let Some(found) = metadata.get(&self.tags[i]) {
                proof {
                    lemma_first_present_extends(views(self.tags@), metadata@, i + 1);
                }
                return Some(transform_all(&self.transformations, found));
            }
            i += 1;
        }
        proof {
            assert(views(self.tags@).take(self.tags.len() as int) =~= views(self.tags@));
        }
        None
    }
}

/// A value found among the first `n` tags is the one found in the whole
/// list.
proof fn lemma_first_present_extends(
    tags: Seq<Seq<char>>,
    record: Map<Seq<char>, Seq<char>>,
    n: int,
)
    requires
        0 <= n <= tags.len(),
        first_present(tags.take(n), record) is Some,
    ensures
        first_present(tags, record) == first_present(tags.take(n), record),
    decreases tags.len() - n,
{
    if n < tags.len() {
        assert(tags.take(n + 1).drop_last() =~= tags.take(n));
        lemma_first_present_extends(tags, record, n + 1);
    } else {
        assert(tags.take(n) =~= tags);
    }
}

} // verus!
