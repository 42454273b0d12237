//! The service wrapper around the pipeline: its directory layout.

pub mod config;
