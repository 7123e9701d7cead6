//! Bridge between PLC protocols (Omron FINS, Modbus/TCP) and OPC UA.

pub mod core_model;
pub mod driver_common;
pub mod driver_fins;
pub mod driver_modbus;
pub mod opcua_server;
pub mod runtime;
pub mod text;
pub mod text_laws;
pub mod time;
