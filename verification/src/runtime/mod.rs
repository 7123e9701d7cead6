//! Runtime of the bridge: configuration, tag conversion, write routing and polling.

pub mod bridge_laws;
pub mod config;
pub mod health_board;
pub mod name_laws;
pub mod run_laws;
pub mod runtime_driver;
pub mod setup;
pub mod setup_laws;
pub mod tags;
pub mod write_handler;
