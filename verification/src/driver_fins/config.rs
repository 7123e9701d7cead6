//! FINS driver configuration.

use crate::driver_fins::mapping::TagMapping;
use vstd::prelude::*;
use vstd::string::*;

verus! {

/// Keepalive seconds when omitted.
pub fn default_keepalive_secs() -> (r: u64)
    ensures
        r == 30,
{
    30
}

/// Maximum reconnect backoff seconds when omitted.
pub fn default_max_backoff_secs() -> (r: u64)
    ensures
        r == 30,
{
    30
}

/// Maximum number of words per request when omitted.
pub fn default_max_fins_words() -> (r: u32)
    ensures
        r == 960,
{
    960
}

/// Configuration of a FINS/TCP driver instance.
#[derive(Debug)]
pub struct FinsConfig {
    /// Logical name of the PLC / driver instance.
    pub name: String,
    /// TCP endpoint of the PLC (e.g. "192.168.1.10:9600").
    pub endpoint: String,
    /// Poll cycle in milliseconds.
    pub cycle_ms: u64,
    /// TCP keepalive in seconds.
    pub keepalive_secs: u64,
    /// Maximum reconnect backoff in seconds.
    pub max_backoff_secs: u64,
    /// Per-tag mappings of this PLC.
    pub mappings: Vec<TagMapping>,
    /// Maximum number of words per FINS read request.
    pub max_words_per_request: u32,
}

impl FinsConfig {
    /// A configuration with default keepalive, backoff and request size.
    pub fn new(name: &str, endpoint: &str, cycle_ms: u64, mappings: Vec<TagMapping>) -> (r:
        FinsConfig)
        ensures
            r.name@ == name@,
            r.endpoint@ == endpoint@,
            r.cycle_ms == cycle_ms,
            r.mappings == mappings,
            r.keepalive_secs == 30,
            r.max_backoff_secs == 30,
            r.max_words_per_request == 960,
    {
        FinsConfig {
            name: name.to_owned(),
            endpoint: endpoint.to_owned(),
            cycle_ms,
            keepalive_secs: default_keepalive_secs(),
            max_backoff_secs: default_max_backoff_secs(),
            mappings,
            max_words_per_request: default_max_fins_words(),
        }
    }
}

} // verus!
