//! Field-level comparison of two JSON configuration snapshots.
//!
//! The crate compares two JSON values and lists every place where they differ
//! as a flat sequence of `(path, old, new)` records. It serves the preview of
//! a migration between two projects: what to fetch, what to make of what was
//! fetched, and how to report a failure.
//!
//! - [`json`]: JSON values, their model, and structural equality.
//! - [`changes`]: what a comparison yields, as a function of the models.
//! - [`diff`]: the comparison itself.
//! - [`laws`]: what holds of every comparison.
//! - [`render`], [`text`]: how values and numbers are written.
//! - [`preview`], [`oauth`], [`models`]: the steps around the comparison.
//! - [`outside`]: the calls into other crates, whose contracts are believed.

pub mod changes;
pub mod diff;
pub mod json;
pub mod laws;
pub mod lemmas;
pub mod models;
pub mod oauth;
pub mod outside;
pub mod preview;
pub mod render;
pub mod text;
