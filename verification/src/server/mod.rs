//! The relay: admission, routing, limits and administration.

pub mod admin;
pub mod admin_api;
pub mod admin_laws;
pub mod admin_reply;
pub mod domain;
pub mod error;
pub mod handshake;
pub mod identity;
pub mod keys;
pub mod keys_laws;
pub mod metrics;
pub mod metrics_laws;
pub mod peer_lookup;
pub mod peers;
pub mod pem_laws;
pub mod rate;
pub mod rate_laws;
pub mod shovel;
pub mod tunnel;
