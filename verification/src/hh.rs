//! The job-posting pipeline: configuration, extraction, normalization,
//! checkpointed state and the columnar loader.

pub mod config;
pub mod extractor;
pub mod loader;
pub mod service;
pub mod skills;
pub mod skills_laws;
pub mod state;
pub mod transformer;
