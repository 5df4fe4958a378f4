//! Source line counting: classify each line of a file as code, blank or
//! comment, tally the lines of one file, and merge per-file tallies into
//! per-type buckets with grand totals.
pub mod markers;
pub mod classify;
pub mod scan;
pub mod aggregate;
pub mod dispatch;
