//! Public-side routing of domain traffic.

pub mod http;
pub mod http_laws;
pub mod https;
pub mod replay;
pub mod sni;
pub mod sni_laws;
pub mod tls_source;
