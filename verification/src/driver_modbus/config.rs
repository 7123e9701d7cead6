//! Modbus driver configuration.

use crate::driver_modbus::mapping::ModbusMapping;
use vstd::prelude::*;
use vstd::string::*;

verus! {

/// Keepalive seconds when omitted.
pub fn default_keepalive_secs() -> (r: u64)
    ensures
        r == 30,
{
    30
}

/// Maximum reconnect backoff seconds when omitted.
pub fn default_max_backoff_secs() -> (r: u64)
    ensures
        r == 30,
{
    30
}

/// IO timeout in milliseconds when omitted.
pub fn default_io_timeout_ms() -> (r: u64)
    ensures
        r == 2000,
{
    2000
}

/// Configuration of a Modbus/TCP driver instance.
#[derive(Debug)]
pub struct ModbusConfig {
    /// Logical name of the PLC / driver instance.
    pub name: String,
    /// TCP endpoint of the PLC (e.g. `127.0.0.1:502`).
    pub endpoint: String,
    /// Modbus unit/slave id (1-255).
    pub unit_id: u8,
    /// Poll cycle in milliseconds.
    pub cycle_ms: u64,
    /// Per-tag mappings of this PLC.
    pub mappings: Vec<ModbusMapping>,
    /// TCP keepalive in seconds.
    pub keepalive_secs: u64,
    /// Maximum reconnect backoff in seconds.
    pub max_backoff_secs: u64,
    /// IO timeout in milliseconds for Modbus operations.
    pub io_timeout_ms: u64,
}

impl ModbusConfig {
    /// A configuration with default keepalive, backoff and timeout.
    pub fn new(
        name: &str,
        endpoint: &str,
        unit_id: u8,
        cycle_ms: u64,
        mappings: Vec<ModbusMapping>,
    ) -> (r: ModbusConfig)
        ensures
            r.name@ == name@,
            r.endpoint@ == endpoint@,
            r.unit_id == unit_id,
            r.cycle_ms == cycle_ms,
            r.mappings == mappings,
            r.keepalive_secs == 30,
            r.max_backoff_secs == 30,
            r.io_timeout_ms == 2000,
    {
        ModbusConfig {
            name: name.to_owned(),
            endpoint: endpoint.to_owned(),
            unit_id,
            cycle_ms,
            mappings,
            keepalive_secs: default_keepalive_secs(),
            max_backoff_secs: default_max_backoff_secs(),
            io_timeout_ms: default_io_timeout_ms(),
        }
    }
}

} // verus!
