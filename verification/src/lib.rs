//! Classifies the lines of source texts as program, blank or comment lines
//! and counts comment occurrences, against a configurable, ordered set of
//! single-line and multi-line comment delimiter patterns; validates
//! file-type suffixes and aggregates per-file results into running totals.

pub mod aggregate;
pub mod classify;
pub mod file_types;
