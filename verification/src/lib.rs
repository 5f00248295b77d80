//! Course event timeline library.
//!
//! A `Course` describes weeks of concrete sessions, recurring-session
//! templates, and assignments with submissions and presentations.  The
//! library expands the templates into concrete per-week sessions, derives a
//! flattened list of calendar events from the finalized course, and orders
//! those events chronologically with a deterministic tie-break.

pub mod expand;
pub mod model;
pub mod order;
pub mod project;
