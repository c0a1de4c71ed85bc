//! Core logic for a network-discoverable LED strip controller.
//!
//! The controller advertises one of its local IPv4 addresses, answers
//! discovery requests with a topology announcement, decodes streamed
//! pixel frames onto per-channel buffers, and re-announces itself after
//! a period of inbound silence.

pub mod config;
pub mod constants;
pub mod decoder;
pub mod json;
pub mod liveness;
pub mod packets;
pub mod setup;
