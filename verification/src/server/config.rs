//! The query server's configuration options.

use vstd::prelude::*;

verus! {

/// What the server needs to run: the column store's connection URI,
/// where the static files live and under which path they are served,
/// and the host and port to bind.  The shell reads these from the
/// configuration file and hands them in.
pub struct Config {
    pub clickhouse_uri: String,
    pub static_dir: String,
    pub static_path: String,
    pub host: String,
    pub port: u16,
}

} // verus!
