//! Wire types and framing of the KROT tunnel protocol.

pub mod auth;
pub mod consts;
pub mod error;
pub mod fields;
pub mod frames;
pub mod framing;
pub mod ids;
pub mod mux;
pub mod stream;
pub mod wire;
pub mod wire_laws;
