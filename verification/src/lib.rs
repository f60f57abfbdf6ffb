//! Listing discovery and ranking pipeline: query composition for a catalog of
//! listings (active-only filtering, exact-or-prefix city matching, full-text
//! search), search-text sanitizing, deterministic position-based scoring, tag
//! normalization, and projection of raw store rows into view-ready items.

pub mod discovery;
pub mod project;
pub mod query;
pub mod sanitize;
pub mod score;
pub mod tags;
pub mod text;
