//! The formatter: elements resolved in their order, assembled according to
//! the layout policy, passed through the line-level chain, and handed to an
//! optional postprocessing hook.

use vstd::prelude::*;

use crate::config::{Element, LineSettings, Replacement};
use crate::element::{
    element_fault,
    has_fault,
    planned_steps,
    push_replacements,
    replace_steps,
    replace_fault,
    resolved,
    Plan,
    StatusLineElement,
};
use crate::errors::{Fault, RahmenResult};
use crate::metadata::MetadataRecord;
use crate::text::{
    deduped,
    drop_empty,
    join,
    joined,
    lemma_joined_len,
    separator_count,
    total_len,
    unique,
    views,
    without_empty,
};
use crate::transformation::{
    applied_all,
    steps_of,
    transform_all,
    StatusLineTransformation,
    Step,
};

verus! {

/// What a formatter is, in plain values.
pub struct Layout {
    pub elements: Seq<Plan>,
    pub line_steps: Seq<Step>,
    pub separator: Seq<char>,
    pub uniquify: bool,
    pub hide_empty: bool,
    pub postprocess: Option<Seq<char>>,
}

/// The element that a configuration describes.
pub open spec fn plan_of(config: Element) -> Plan {
    Plan { tags: views(config.exif_tags@), steps: planned_steps(config) }
}

/// The elements that a list of configurations describes.
pub open spec fn plans_from(configs: Seq<Element>) -> Seq<Plan> {
    Seq::new(configs.len(), |i: int| plan_of(configs[i]))
}

/// What a list of elements is, in plain values.
pub open spec fn plans_of(elements: Seq<StatusLineElement>) -> Seq<Plan> {
    Seq::new(elements.len(), |i: int| elements[i]@)
}

/// The place of the first faulty element in the list, if there is one.
pub open spec fn first_faulty(configs: Seq<Element>) -> Option<int>
    decreases configs.len(),
{
    if configs.len() == 0 {
        None
    } else if first_faulty(configs.drop_last()) is Some {
        first_faulty(configs.drop_last())
    } else if element_fault(configs.last()) is Some {
        Some(configs.len() - 1)
    } else {
        None
    }
}

/// The fault of the first faulty element, if there is one.
pub open spec fn elements_fault(configs: Seq<Element>) -> Option<Fault> {
    match first_faulty(configs) {
        Some(i) => element_fault(configs[i]),
        None => None,
    }
}

/// What is wrong with a formatter's configuration, if anything: the fault of
/// the first faulty element, else the first line-level pattern that the
/// regex engine refuses.
pub open spec fn config_fault(elements: Seq<Element>, line: Seq<Replacement>) -> Option<Fault> {
    if elements_fault(elements) is Some {
        elements_fault(elements)
    } else {
        replace_fault(line)
    }
}

/// The text of an optional string.
pub open spec fn optional_text(s: Option<String>) -> Option<Seq<char>> {
    match s {
        Some(text) => Some(text@),
        None => None,
    }
}

/// The tags of all the elements, element after element.
pub open spec fn all_tags(elements: Seq<Plan>) -> Seq<Seq<char>>
    decreases elements.len(),
{
    if elements.len() == 0 {
        Seq::empty()
    } else {
        all_tags(elements.drop_last()) + elements.last().tags
    }
}

/// The sequence of slots before the policy is applied: for each element in
/// its order the value that it resolves to; for an element that finds no
/// tag an empty slot, or nothing at all where empty slots are hidden.
pub open spec fn slots(
    elements: Seq<Plan>,
    record: Map<Seq<char>, Seq<char>>,
    hide_empty: bool,
) -> Seq<Seq<char>>
    decreases elements.len(),
{
    if elements.len() == 0 {
        Seq::empty()
    } else {
        let head = slots(elements.drop_last(), record, hide_empty);
        match resolved(elements.last(), record) {
            Some(value) => head.push(value),
            None => if hide_empty {
                head
            } else {
                head.push(Seq::empty())
            },
        }
    }
}

/// The tokens that are joined, by the four policies: empty slots are
/// dropped where they are hidden, then later duplicates are dropped where
/// uniqueness is asked for.
pub open spec fn tokens(slots: Seq<Seq<char>>, hide_empty: bool, uniquify: bool) -> Seq<Seq<char>> {
    let kept = if hide_empty {
        without_empty(slots)
    } else {
        slots
    };
    if uniquify {
        deduped(kept)
    } else {
        kept
    }
}

/// The assembled line, before the line-level chain.
pub open spec fn assembled(layout: Layout, record: Map<Seq<char>, Seq<char>>) -> Seq<char> {
    joined(
        tokens(
            slots(layout.elements, record, layout.hide_empty),
            layout.hide_empty,
            layout.uniquify,
        ),
        layout.separator,
    )
}

/// The line for one image, as it is before any postprocessing.
pub open spec fn line(layout: Layout, record: Map<Seq<char>, Seq<char>>) -> Seq<char> {
    applied_all(layout.line_steps, assembled(layout, record))
}

/// The final line made of what a postprocessing hook returned: without
/// empty parts and without later duplicates, whatever the policy.
pub open spec fn refined(parts: Seq<Seq<char>>, separator: Seq<char>) -> Seq<char> {
    joined(deduped(without_empty(parts)), separator)
}

/// Where empty slots are shown, every element has its slot, whatever tags
/// the image has; and where duplicates are kept too, the slots are the
/// tokens.
pub proof fn lemma_slots_arity(elements: Seq<Plan>, record: Map<Seq<char>, Seq<char>>)
    ensures
        slots(elements, record, false).len() == elements.len(),
        tokens(slots(elements, record, false), false, false) == slots(elements, record, false),
    decreases elements.len(),
{
    if elements.len() > 0 {
        lemma_slots_arity(elements.drop_last(), record);
    }
}

/// Under each of the four policies the assembled line holds the tokens of
/// that policy and one separator for each token but the first.
pub proof fn lemma_separators(layout: Layout, record: Map<Seq<char>, Seq<char>>)
    ensures
        ({
            let parts = tokens(
                slots(layout.elements, record, layout.hide_empty),
                layout.hide_empty,
                layout.uniquify,
            );
            assembled(layout, record).len() == total_len(parts) + separator_count(parts)
                * layout.separator.len()
        }),
{
    lemma_joined_len(
        tokens(
            slots(layout.elements, record, layout.hide_empty),
            layout.hide_empty,
            layout.uniquify,
        ),
        layout.separator,
    );
}

/// What [`StatusLineFormatter::format`] hands back.
#[derive(Debug)]
pub enum Outcome {
    /// The final line: no hook is configured.
    Final(String),
    /// The line to hand to the hook, together with the separator; what the
    /// hook returns goes to [`StatusLineFormatter::refine`].
    Postprocess(String),
}

/// Formats the metadata of an image into one status line.
#[derive(Debug)]
pub struct StatusLineFormatter {
    elements: Vec<StatusLineElement>,
    line_transformations: Vec<StatusLineTransformation>,
    line_settings: LineSettings,
    postprocess: Option<String>,
}

impl View for StatusLineFormatter {
    type V = Layout;

    closed spec fn view(&self) -> Layout {
        Layout {
            elements: plans_of(self.elements@),
            line_steps: steps_of(self.line_transformations@),
            separator: self.line_settings.separator@,
            uniquify: self.line_settings.uniquify,
            hide_empty: self.line_settings.hide_empty,
            postprocess: optional_text(self.postprocess),
        }
    }
}

/// The place of the first faulty element in the list, counted from 0, if
/// there is one: the element whose fault [`StatusLineFormatter::new`]
/// reports.
pub fn first_faulty_element(configs: &Vec<Element>) -> (place: Option<usize>)
    ensures
        match first_faulty(configs@) {
            Some(i) => place == Some(i as usize),
            None => place is None,
        },
{
    let mut i: usize = 0;
    while i < configs.len()
        invariant
            i <= configs.len(),
            first_faulty(configs@.take(i as int)) is None,
        decreases configs.len() - i,
    {
        proof {
            let after = configs@.take(i + 1);
            assert(after.drop_last() =~= configs@.take(i as int));
            assert(after.last() == configs@[i as int]);
        }
        if has_fault(&configs[i]) {
            proof {
                lemma_first_faulty_extends(configs@, i + 1);
            }
            return Some(i);
        }
        i += 1;
    }
    proof {
        assert(configs@.take(configs.len() as int) =~= configs@);
    }
    None
}

/// Applies the layout policy to the slots and joins what is left.
pub fn assemble(slots: Vec<String>, settings: &LineSettings) -> (line: String)
    ensures
        line@ == joined(
            tokens(views(slots@), settings.hide_empty, settings.uniquify),
            settings.separator@,
        ),
{
    let kept = if settings.hide_empty {
        drop_empty(slots)
    } else {
        slots
    };
    let tokens = if settings.uniquify {
        unique(kept)
    } else {
        kept
    };
    join(&tokens, settings.separator.as_str())
}

impl StatusLineFormatter {
    /// Builds a formatter from its configuration. Every element and every
    /// line-level pattern is checked here, so that a formatter that exists
    /// never fails on its configuration later. `py_postprocess` names the
    /// module of the postprocessing hook, if there is one.
    pub fn new(
        statusline_elements: Vec<Element>,
        line_transformations: Vec<Replacement>,
        py_postprocess: Option<String>,
        line_settings: LineSettings,
    ) -> (r: RahmenResult<Self>)
        ensures
            match config_fault(statusline_elements@, line_transformations@) {
                None => r matches Ok(formatter) && formatter@ == (Layout {
                    elements: plans_from(statusline_elements@),
                    line_steps: replace_steps(line_transformations@),
                    separator: line_settings.separator@,
                    uniquify: line_settings.uniquify,
                    hide_empty: line_settings.hide_empty,
                    postprocess: optional_text(py_postprocess),
                }),
                Some(fault) => r matches Err(e) && e@ == fault,
            },
    {
        let ghost all = statusline_elements@;
        let mut elements: Vec<StatusLineElement> = Vec::new();
        for element in it: statusline_elements
            invariant
                it.seq() == all,
                first_faulty(all.take(it.index() as int)) is None,
                plans_of(elements@) == plans_from(all.take(it.index() as int)),
        {
            let ghost k = it.index() as int;
            let ghost before = plans_of(elements@);
            proof {
                assert(element == all[k]);
                assert(all.take(k + 1).drop_last() =~= all.take(k));
                assert(all.take(k + 1).last() == all[k]);
            }
            match StatusLineElement::try_from(element) {
                Ok(built) => {
                    elements.push(built);
                    proof {
                        assert(plans_of(elements@) =~= before.push(plan_of(all[k])));
                        assert(plans_from(all.take(k + 1)) =~= plans_from(all.take(k)).push(
                            plan_of(all[k]),
                        ));
                    }
                },
                Err(e) => {
                    proof {
                        lemma_first_faulty_extends(all, k + 1);
                    }
                    return Err(e);
                },
            }
        }
        proof {
            assert(all.take(all.len() as int) =~= all);
        }
        let mut line: Vec<StatusLineTransformation> = Vec::new();
        push_replacements(&mut line, line_transformations)?;
        assert(steps_of(line@) =~= replace_steps(line_transformations@));
        Ok(
            StatusLineFormatter {
                elements,
                line_transformations: line,
                line_settings,
                postprocess: py_postprocess,
            },
        )
    }

    /// The layout settings.
    pub fn line_settings(&self) -> (settings: &LineSettings)
        ensures
            settings.separator@ == self@.separator,
            settings.uniquify == self@.uniquify,
            settings.hide_empty == self@.hide_empty,
    {
        &self.line_settings
    }

    /// The module of the postprocessing hook, if one is configured.
    pub fn postprocess_module(&self) -> (module: Option<&String>)
        ensures
            match module {
                Some(name) => self@.postprocess == Some(name@),
                None => self@.postprocess is None,
            },
    {
        self.postprocess.as_ref()
    }

    /// The tags that the formatter looks up, element after element: what a
    /// record has to be filled from.
    pub fn wanted_tags(&self) -> (tags: Vec<String>)
        ensures
            views(tags@) == all_tags(self@.elements),
    {
        let mut tags: Vec<String> = Vec::new();
        let mut i: usize = 0;
        while i < self.elements.len()
            invariant
                i <= self.elements.len(),
                views(tags@) == all_tags(plans_of(self.elements@).take(i as int)),
            decreases self.elements.len() - i,
        {
            let own = self.elements[i].tags();
            let ghost before = views(tags@);
            let mut j: usize = 0;
            while j < own.len()
                invariant
                    j <= own.len(),
                    views(tags@) == before + views(own@).take(j as int),
                decreases own.len() - j,
            {
                let ghost so_far = views(tags@);
                tags.push(own[j].clone());
                assert(views(tags@) =~= so_far.push(own@[j as int]@));
                assert(views(own@).take(j + 1) =~= views(own@).take(j as int).push(
                    own@[j as int]@,
                ));
                j += 1;
            }
            proof {
                let after = plans_of(self.elements@).take(i + 1);
                assert(after.drop_last() =~= plans_of(self.elements@).take(i as int));
                assert(after.last() == self.elements@[i as int]@);
                assert(views(own@).take(own.len() as int) =~= views(own@));
            }
            i += 1;
        }
        proof {
            assert(plans_of(self.elements@).take(self.elements.len() as int) =~= plans_of(
                self.elements@,
            ));
        }
        tags
    }

    /// Resolves every element for one image: the sequence of slots that the
    /// layout policy is then applied to.
    pub fn resolve(&self, metadata: &MetadataRecord) -> (found: Vec<String>)
        ensures
            views(found@) == slots(self@.elements, metadata@, self@.hide_empty),
    {
        let mut found: Vec<String> = Vec::new();
        let mut i: usize = 0;
        while i < self.elements.len()
            invariant
                i <= self.elements.len(),
                views(found@) == slots(
                    plans_of(self.elements@).take(i as int),
                    metadata@,
                    self.line_settings.hide_empty,
                ),
            decreases self.elements.len() - i,
        {
            let ghost before = views(found@);
            proof {
                let after = plans_of(self.elements@).take(i + 1);
                assert(after.drop_last() =~= plans_of(self.elements@).take(i as int));
                assert(after.last() == self.elements@[i as int]@);
            }
            match self.elements[i].process(metadata) {
                Some(value) => {
                    found.push(value);
                    assert(views(found@) =~= before.push(value@));
                },
                None => {
                    if !self.line_settings.hide_empty {
                        found.push(String::new());
                        assert(views(found@) =~= before.push(Seq::<char>::empty()));
                    }
                },
            }
            i += 1;
        }
        proof {
            assert(plans_of(self.elements@).take(self.elements.len() as int) =~= plans_of(
                self.elements@,
            ));
        }
        found
    }

    /// Formats the metadata of one image: resolves the elements, applies the
    /// layout policy, joins, and runs the line-level chain. Where a hook is
    /// configured the line is still to be handed to it.
    pub fn format(&self, metadata: &MetadataRecord) -> (outcome: Outcome)
        ensures
            match self@.postprocess {
                None => outcome matches Outcome::Final(text) && text@ == line(self@, metadata@),
                Some(_) => outcome matches Outcome::Postprocess(text) && text@ == line(
                    self@,
                    metadata@,
                ),
            },
    {
        let found = self.resolve(metadata);
        let status_line = assemble(found, &self.line_settings);
        let status_line = transform_all(&self.line_transformations, status_line);
        match &self.postprocess {
            Some(_) => Outcome::Postprocess(status_line),
            None => Outcome::Final(status_line),
        }
    }

    /// Makes the final line of what the hook returned: empty parts and later
    /// duplicates are dropped, whatever the policy is, and the rest is joined
    /// with the separator.
    pub fn refine(&self, parts: Vec<String>) -> (text: String)
        ensures
            text@ == refined(views(parts@), self@.separator),
    {
        let kept = unique(drop_empty(parts));
        join(&kept, self.line_settings.separator.as_str())
    }
}

/// A faulty element found among the first `n` is the first of the whole
/// list.
proof fn lemma_first_faulty_extends(configs: Seq<Element>, n: int)
    requires
        0 <= n <= configs.len(),
        first_faulty(configs.take(n)) is Some,
    ensures
        first_faulty(configs) == first_faulty(configs.take(n)),
    decreases configs.len() - n,
{
    if n < configs.len() {
        assert(configs.take(n + 1).drop_last() =~= configs.take(n));
        lemma_first_faulty_extends(configs, n + 1);
    } else {
        assert(configs.take(n) =~= configs);
    }
}

} // verus!
