//! A verified documentation-site extraction pipeline.
//!
//! A crawl of a documentation site turns fetched markup into structured
//! page records and a cross-page report. This crate holds the pipeline's
//! logic, with its behaviour stated in contracts: the platform-profile
//! registry (`profiles`), the modelled document (`model`) and the page
//! extractor over it (`extract`, `api`, `page`), same-host link
//! discovery (`links`), the claim-once visited set (`visited`), the
//! bounded crawl frontier (`crawl`) and the report aggregator
//! (`report`). Fetching, markup parsing and serialization are external
//! collaborators: callers run them and exchange plain values with the
//! library, which reaches the `url` and `regex` crates through the
//! trusted declarations in `web` and `extract`.
use vstd::prelude::*;

pub mod api;
pub mod crawl;
pub mod extract;
pub mod links;
pub mod model;
pub mod page;
pub mod profiles;
pub mod report;
pub mod text;
pub mod visited;
pub mod web;

verus! {

} // verus!
