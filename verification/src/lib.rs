//! Core of a periodic financial-data harvester: a cron-driven scheduler
//! that dispatches independent data-domain jobs, an in-process shared cache
//! with a time-to-live result cache, and the generalized
//! fetch-reconcile-upsert pipeline that the dividend and suspended-listing
//! workflows instantiate.
//!
//! Everything that decides lives here, specified and verified: cron parsing
//! and due evaluation (`cron`, `scheduler`), the pipeline step machine with
//! its rate limiting and per-candidate failure containment (`pipeline`),
//! the reconciliation rules (`dividend`), the natural-key store model
//! (`persistence`), the caches (`cache`), dates (`dates`), settings
//! precedence (`config`) and the outcome journal (`logging`). The
//! suspending work — fetching, sleeping, database writes — is performed by
//! the surrounding process, which reports each result back as one event.

use vstd::prelude::*;

pub mod cache;
pub mod config;
pub mod cron;
pub mod dates;
pub mod dividend;
pub mod errors;
pub mod logging;
pub mod persistence;
pub mod pipeline;
pub mod revenue;
pub mod scheduler;
pub mod suspend;
pub mod text;

verus! {

} // verus!
