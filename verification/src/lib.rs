//! Per-display colour correction for compositors with a gamma-control
//! protocol: the colour model, the set of displays, the properties that a
//! session bus exposes for them, and the status-line watcher. Everything here
//! is computation on plain values; sockets, shared memory and floating-point
//! arithmetic are the caller's part.

pub mod binary64;
pub mod color;
pub mod dbus_client;
pub mod dbus_server;
pub mod interface;
pub mod output;
pub mod property;
pub mod ramp;
pub mod reactor;
pub mod signal;
pub mod state;
pub mod sync;
pub mod text;
