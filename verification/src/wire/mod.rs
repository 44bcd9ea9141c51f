//! The WebSocket wire: envelopes, error codes and result shapes.

pub mod envelope;
pub mod error;
pub mod node;
pub mod server_info;
pub mod shape;
