//! Verified core of a single-feature linear-regression tool: the checks that
//! decide whether a dataset file and a pair of sample columns can be used.

pub mod csv_format;
pub mod dataset;
mod external;
pub mod samples;
pub mod text;
