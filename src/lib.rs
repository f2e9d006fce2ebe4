//! Counting messages of a remote paginated store per local calendar day.
//!
//! The library holds the decisions of the pipeline: which failures are
//! retried, how pagination advances, how fetched details become per-day
//! counts, how a run concludes, and how the report is laid out. The program
//! around it performs the network calls, the waiting and the printing.

pub mod calendar;
pub mod counts;
pub mod errors;
pub mod paging;
pub mod report;
pub mod retry;
pub mod run;
