//! FINS/TCP driver: mappings, frames, value coding, read planning and the read/write cycle.

pub mod codec;
pub mod config;
pub mod cycle_laws;
pub mod driver;
pub mod errors;
pub mod frame;
pub mod laws;
pub mod mapping;
pub mod plan_laws;
pub mod read;
pub mod validate;
pub mod value_laws;

pub use crate::driver_common::write_request::WriteRequest;
pub use config::FinsConfig;
pub use driver::FinsDriver;
pub use errors::DriverError;
pub use mapping::TagMapping;
