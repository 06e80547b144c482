//! Engine of a dual-pane directory browser: pane state (navigation history,
//! sorting, multi-selection), directory-listing assembly, a recursive
//! attribute/content search, and a line-oriented file comparison.
//!
//! The engine works on plain values (paths as strings, timestamps as seconds);
//! all filesystem reads happen outside and hand the engine their results.

pub mod app;
pub mod bookmarks;
pub mod diff;
pub mod errors;
pub mod item;
pub mod listing;
pub mod pane;
pub mod path;
pub mod search;
pub mod text;
pub mod trash;
