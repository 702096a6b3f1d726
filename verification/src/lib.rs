//! Canonical identity of remote sources and the sequencing of a build.
//!
//! [`canonical_url`] collapses locators that name the same repository into
//! one comparable value with a short fingerprint; [`locator`] holds a
//! locator by its parts, [`stable_hash`] makes the hash of the fingerprint
//! and [`text`] the comparisons of text that the rules need. [`compile`]
//! decides, step by step, what a build does next and what it shows.

pub mod canonical_url;
pub mod compile;
pub mod locator;
pub mod stable_hash;
pub mod text;
