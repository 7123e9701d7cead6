//! OPC UA side of the bridge: configuration, address space, reads and writes.

pub mod address;
pub mod address_laws;
pub mod address_space;
pub mod config;
pub mod data_source;
pub mod error;
pub mod laws;
pub mod server;
pub mod variant;
pub mod writes;

pub use config::{CertificateConfig, OpcUaConfig, SecurityMode, SecurityPolicy, WriteMode};
pub use error::ServerError;
pub use writes::WriteRequest;
