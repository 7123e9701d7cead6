//! Modbus/TCP driver: mappings, value coding, read planning and the read/write cycle.

pub mod codec;
pub mod config;
pub mod cycle_laws;
pub mod driver;
pub mod errors;
pub mod laws;
pub mod mapping;
pub mod plan_laws;
pub mod read;
pub mod validate;
pub mod value_laws;

pub use crate::driver_common::write_request::WriteRequest;
pub use config::ModbusConfig;
pub use driver::ModbusDriver;
pub use errors::DriverError;
pub use mapping::{ModbusFunction, ModbusMapping};
