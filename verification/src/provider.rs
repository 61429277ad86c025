//! Sources of images, or of whatever else a slideshow steps through.

use vstd::prelude::*;

pub use crate::case::str_to_case;
pub use crate::config::LineSettings;
use crate::errors::RahmenResult;
pub use crate::formatter::StatusLineFormatter;

verus! {

/// A source that hands out one item after the other.
pub trait Provider<D> {
    /// How far the source has come, by its own count. A source that keeps
    /// no count stays at zero.
    open spec fn position(&self) -> int {
        0
    }

    /// Whether one request to the source, as it stands, may give `outcome`
    /// and leave the source at the position `after`. What a source does is
    /// its own to say; one that says nothing may do anything.
    open spec fn steps(&self, after: int, outcome: RahmenResult<Option<D>>) -> bool {
        true
    }

    /// The next item: `Ok(Some(..))` for an item to process, `Ok(None)` when
    /// the source is exhausted, `Err(..)` when it failed. The source is
    /// asked once: the outcome and the position after it are those of one
    /// step.
    fn next_image(&mut self) -> (outcome: RahmenResult<Option<D>>)
        ensures
            old(self).steps(final(self).position(), outcome),
    ;
}

impl<D> Provider<D> for Box<dyn Provider<D>> {
    /// A boxed source is as far as the source in the box.
    open spec fn position(&self) -> int {
        (**self).position()
    }

    /// A boxed source steps as the source in the box does.
    open spec fn steps(&self, after: int, outcome: RahmenResult<Option<D>>) -> bool {
        (**self).steps(after, outcome)
    }

    fn next_image(&mut self) -> (outcome: RahmenResult<Option<D>>) {
        (**self).next_image()
    }
}

} // verus!
