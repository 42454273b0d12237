//! A checkpointed extract-transform-load pipeline for job postings.
//!
//! The library is the verified core of the pipeline: field
//! normalization of raw upstream records, the retry schedule of the
//! resilient HTTP client, window planning and checkpoint advancement,
//! the columnar form a batch takes on its way to storage, and the
//! quartile statistics computed over stored salaries. The thin
//! unverified shell around it (HTTP, file and database I/O) lives
//! outside the verified source and hands this library plain values.

pub mod hh;
pub mod server;
pub mod service;
pub mod text;
pub mod times;
