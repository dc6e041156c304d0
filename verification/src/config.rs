//! Operator-supplied configuration: the rule set that filters and
//! collapses discovered URLs, the list of crawl targets, and the small
//! request bodies of the site-management API.

use vstd::prelude::*;

verus! {

/// The rule set and site list supplied once per run.
///
/// `ignore_paths` holds substrings: a URL whose path contains any of
/// them is dropped.  `patterns` holds route templates in priority
/// order: the first template a URL's path matches is its dedup key,
/// and only one URL per key is kept.  `sites` lists the origins to
/// crawl.
pub struct Config {
    pub patterns: Vec<String>,
    pub ignore_paths: Vec<String>,
    pub sites: Vec<String>,
}

impl Config {
    /// An empty rule set: no filtering, no pattern dedup, no sites.
    /// Missing or unparsable configuration degrades to this.
    pub fn empty() -> (c: Config)
        ensures
            c.patterns@.len() == 0,
            c.ignore_paths@.len() == 0,
            c.sites@.len() == 0,
    {
        Config { patterns: Vec::new(), ignore_paths: Vec::new(), sites: Vec::new() }
    }
}

/// Request body for creating a site record.
pub struct NewSite {
    pub domain: String,
}

/// Request body for updating a site record.
pub struct UpdateSite {
    pub domain: Option<String>,
}

} // verus!
