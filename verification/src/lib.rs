//! A bounded, single-host web crawler engine: the frontier, the per-page
//! pipeline and the run statistics, with every rule stated as a contract.
//!
//! The engine neither fetches nor writes. A caller asks it for the next link,
//! fetches that link, and hands the outcome back; the engine accounts for it,
//! extracts and filters the links of the page, and gives out what is to be
//! appended to the streams of the run.

pub mod crawler;
pub mod frontier;
pub mod link;
pub mod metrics;
pub mod page;
pub mod repository;
pub mod text;
pub mod timer;

pub use crate::crawler::Crawler;
pub use crate::crawler::Fetched;
pub use crate::frontier::Frontier;
pub use crate::link::Link;
pub use crate::metrics::ErrorMetrics;
pub use crate::metrics::LogMetrics;
pub use crate::metrics::Metrics;
pub use crate::repository::Repository;
pub use crate::timer::Timer;
