//! The service's directory layout.

use vstd::prelude::*;
use vstd::string::StringExecFns;

verus! {

/// Where the service keeps its things: `internals` for internal use,
/// `config` for per-pipeline configuration, `data` for extracted
/// data, and `state` — a fixed directory under `internals` — for the
/// checkpoint files.
pub struct Config {
    pub internals: String,
    pub config: String,
    pub data: String,
    pub state: String,
}

impl Config {
    /// Build the layout from the three chosen directories; the state
    /// directory is always the `state` directory under `internals`.
    pub fn new(internals: &str, config: &str, data: &str) -> (r: Config)
        ensures
            r.internals@ == internals@,
            r.config@ == config@,
            r.data@ == data@,
            r.state@ == internals@ + "/state"@,
    {
        let mut state = internals.to_owned();
        state.append("/state");
        Config {
            internals: internals.to_owned(),
            config: config.to_owned(),
            data: data.to_owned(),
            state,
        }
    }
}

} // verus!
