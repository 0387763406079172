//! A client library for a CI service's job records.
//!
//! The heart of it is the harvest of paged job feeds: `harvest` walks the
//! pages of one feed one after another, with an age cutoff that stops it at
//! the first page holding a record older than the bound, and `query` runs
//! one harvest per parent resource (pipeline or runner) under a shared
//! budget of simultaneous requests (`gate`), failing as a whole when a
//! first page cannot be had.  The network itself stays outside: the query
//! hands out the requests to send and takes in what came back.
//!
//! Around it: the rules that keep a record (`filter`), the page-count
//! header (`header`), the `Link` header (`links`), the feed addresses
//! (`urls`), the pipeline search (`pipelines`), timestamps (`dates`),
//! durations for display (`format`), the records themselves (`model`) and
//! the options of the log command (`args`).
pub mod args;
pub mod dates;
pub mod filter;
pub mod format;
pub mod gate;
pub mod harvest;
pub mod header;
pub mod links;
pub mod model;
pub mod pipelines;
pub mod query;
pub mod urls;
