//! The settings of the service.

use vstd::prelude::*;
use vstd::string::StringExecFns;

verus! {

/// Where the service listens, where its data lies and how its strip cache is
/// bounded.
#[derive(Debug, Clone)]
pub struct PanelsConfig {
    pub port: u16,
    pub data_dir: String,
    pub strip_cache_max: u64,
    pub strip_cache_ttl_secs: u64,
}

impl PanelsConfig {
    /// The settings of a service that was told nothing: port 3000, the
    /// directory `data`, 500 cached strips, each kept for half an hour.
    pub fn defaults() -> (r: Self)
        ensures
            r.port == 3000,
            r.data_dir@ == "data"@,
            r.strip_cache_max == 500,
            r.strip_cache_ttl_secs == 1800,
    {
        PanelsConfig {
            port: 3000,
            data_dir: String::from_str("data"),
            strip_cache_max: 500,
            strip_cache_ttl_secs: 1800,
        }
    }
}

} // verus!
