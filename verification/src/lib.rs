//! Register decoding, encoding and the state logic of a Modbus TCP
//! client/server terminal tool.
pub mod text;
pub mod format;
pub mod half;
pub mod config;
pub mod store;
pub mod state;
pub mod event;
pub mod client;
pub mod view;
