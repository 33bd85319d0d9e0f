//! Core of a chronological diary site generator.
//!
//! A flat collection of content pages, each anchored either to a calendar
//! date or to a caller-chosen slug, is partitioned and re-projected into a
//! set of mutually consistent navigational views: per-day, per-month and
//! per-year archives, a nested chronological index, and a syndication feed
//! ordered by a separate publish timestamp.
//!
//! All indexing, classification, coalescing and document assembly is
//! verified. Fetching pages, rendering rich content bodies to markup, and
//! writing files are external collaborators: callers hand their results in
//! as plain values.

pub mod archive;
pub mod clock;
pub mod coalesce;
pub mod config;
pub mod date;
pub mod feed;
pub mod generator;
pub mod index;
pub mod links;
pub mod markup;
pub mod page;
pub mod pipeline;
pub mod syndication;
pub mod text;
pub mod urls;

use vstd::prelude::*;

verus! {

} // verus!
