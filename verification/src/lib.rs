//! Sitemap discovery and bounded report pipeline.
//!
//! The crate discovers the content URLs of a web site by walking its
//! sitemap index, prunes them against operator rules, and drives a
//! rate-limited, bounded-concurrency fetch of a per-URL report.  All
//! decision logic lives here, verified; network transport is left to
//! the embedding application, which feeds documents and outcomes into
//! the state machines this crate exports.

pub mod config;
pub mod crawler;
pub mod governor;
pub mod pattern;
pub mod seqs;
pub mod sitemaps;
pub mod text;
pub mod urls;
pub mod worker;

use vstd::prelude::*;

verus! {

} // verus!
