//! The client: configuration, sessions with a relay, and the local side of tunnels.

pub mod auth_laws;
pub mod bi_stream;
pub mod cli;
pub mod config;
pub mod enroll;
pub mod error;
pub mod inspector;
pub mod local_auth;
pub mod login_laws;
pub mod login_page;
pub mod page_laws;
pub mod proxy;
pub mod session;
pub mod setup_laws;
pub mod stream_laws;
pub mod tls;
pub mod tunnel;
