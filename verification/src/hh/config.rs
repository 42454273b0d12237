//! Configuration of the job-posting pipeline.

use vstd::prelude::*;

verus! {

/// The pipeline's configuration options.
///
/// `filename` names where extracted data is persisted, `url` is the
/// listing endpoint, `query_params` are the static key-value query
/// parameters, `days` says how far back extraction reaches, and
/// `user_agent` is what the HTTP extractor presents itself as. The
/// shell reads these from the configuration file and hands them in.
pub struct Config {
    pub filename: String,
    pub url: String,
    pub query_params: Vec<(String, String)>,
    pub days: u16,
    pub user_agent: String,
}

} // verus!
