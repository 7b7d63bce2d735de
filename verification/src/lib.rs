//! Core of a chat logger: channel names, tag maps, log records, event
//! dispatch and live reconfiguration, each with a machine-checked contract.

pub mod channel;
pub mod config;
pub mod handlers;
pub mod message;
pub mod record;
pub mod reload;
pub mod tags;
pub mod text;
