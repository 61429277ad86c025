//! Status-line formatting for an image slideshow: metadata values are looked
//! up by tag name, passed through a chain of transformations and assembled
//! into one caption according to the configured layout policy.

pub mod case;
pub mod config;
pub mod element;
pub mod errors;
pub mod formatter;
pub mod metadata;
pub mod pattern;
pub mod provider;
pub mod text;
pub mod timer;
pub mod transformation;

pub use crate::timer::Timer;
