//! Ingestion rules of an operator console: telemetry datagrams and command
//! lines are turned into uniform events for a presentation layer.

pub mod clock;
pub mod command;
pub mod connection;
pub mod event;
pub mod json;
pub mod payload;
pub mod telemetry;
pub mod text;
