//! Verified core of the KROT reverse tunnel: the wire protocol, the relay's
//! rules and the client's decisions, each with its contract.

pub mod bytes;
pub mod client;
pub mod clock;
pub mod codec;
pub mod http_parse;
pub mod proto;
pub mod server;
pub mod text;
pub mod text_laws;
pub mod vec_map;
