//! Unified server error type.

use vstd::prelude::*;
use vstd::string::*;

verus! {

/// What can go wrong on the relay. The errors of the outside layers are held
/// as their messages.
#[derive(Debug, Clone, PartialEq, Eq)]
pub enum ServerError {
    Io(String),
    Transport(String),
    Rustls(String),
    Rcgen(String),
    Keys(String),
    AdminToken(&'static str),
    Protocol(&'static str),
    PortPoolExhausted,
}

impl ServerError {
    /// How the error is shown.
    pub open spec fn text(self) -> Seq<char> {
        match self {
            ServerError::Io(m) => "io: "@ + m@,
            ServerError::Transport(m) => "transport: "@ + m@,
            ServerError::Rustls(m) => "rustls: "@ + m@,
            ServerError::Rcgen(m) => "rcgen: "@ + m@,
            ServerError::Keys(m) => "authorized_keys: "@ + m@,
            ServerError::AdminToken(m) => "admin token: "@ + m@,
            ServerError::Protocol(m) => "protocol violation: "@ + m@,
            ServerError::PortPoolExhausted => "port pool exhausted"@,
        }
    }

    /// How the error is shown.
    pub fn to_text(&self) -> (r: String)
        ensures
            r@ == self.text(),
    {
        match self {
            ServerError::Io(m) => "io: ".to_owned().concat(m.as_str()),
            ServerError::Transport(m) => "transport: ".to_owned().concat(m.as_str()),
            ServerError::Rustls(m) => "rustls: ".to_owned().concat(m.as_str()),
            ServerError::Rcgen(m) => "rcgen: ".to_owned().concat(m.as_str()),
            ServerError::Keys(m) => "authorized_keys: ".to_owned().concat(m.as_str()),
            ServerError::AdminToken(m) => "admin token: ".to_owned().concat(m),
            ServerError::Protocol(m) => "protocol violation: ".to_owned().concat(m),
            ServerError::PortPoolExhausted => "port pool exhausted".to_owned(),
        }
    }
}

} // verus!
