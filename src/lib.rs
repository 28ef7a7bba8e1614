//! Real-time core of a shared pixel canvas: chunk addressing and bit
//! packing of the canvas store, the per-identity placement quota, the
//! binary wire format, the per-connection session state machine and the
//! broadcast hub that serialises connects, disconnects and placements.

pub mod config;
pub mod text;
pub mod protocol;
pub mod quota;
pub mod registry;
pub mod error;
pub mod hub;
pub mod session;
pub mod packing;
pub mod canvas;
