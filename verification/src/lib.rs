//! Human-readable reports for the outcome of one sandboxed module run.
//!
//! The crate turns raw counters (sizes, instruction counts, captured logs,
//! payloads) into a text report, scaling each number to a display unit and
//! marking the values that exceed their limit.
pub mod binary64;
pub mod binary64_laws;
pub mod decimal;
pub mod function_run_result;
pub mod humanize;
pub mod humanize_laws;
pub mod limits;
pub mod limits_laws;
pub mod report_laws;
pub mod style;
pub mod text;
