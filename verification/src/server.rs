//! The read-only query service's verified pieces: its configuration
//! shape and the statistics computed over stored salaries.

pub mod config;
pub mod stats;
