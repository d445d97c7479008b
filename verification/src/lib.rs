//! Icon asset compilation and badge composition.
//!
//! The crate has two halves. The first turns raw vector-icon markup into a
//! compact form and keeps the results in named sets that a catalog searches
//! in registration order. The second is a builder that resolves the optional
//! parameters of a badge into an immutable value.

pub mod badge;
pub mod badge_builder;
pub mod catalog;
pub mod compiler;
pub mod icons;
pub mod minify;
pub mod minify_laws;
pub mod removal_laws;
pub mod text;
