//! What stands around the protocol: the saved state, the verbosity of the
//! log, the requests to a local ADB server.

pub mod adb_server;
pub mod config;
pub mod logging;
