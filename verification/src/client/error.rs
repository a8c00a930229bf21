//! Client-side error type.

use crate::proto::error::{error_code_text, ErrorCode};
use vstd::prelude::*;
use vstd::string::*;

verus! {

/// What can go wrong on the client. The errors of the outside layers are held
/// as their messages.
#[derive(Debug, Clone, PartialEq, Eq)]
pub enum ClientError {
    Io(String),
    Transport(String),
    QuinnWrite(String),
    QuinnConnect(String),
    QuinnConnection(String),
    Rustls(String),
    Config(String),
    /// The fingerprint is not `sha256:` and 64 hexadecimal digits.
    BadFingerprint,
    BadServerAddr(String),
    EnrollRejected(ErrorCode),
    AuthRejected(ErrorCode),
    TunnelRejected(ErrorCode, String),
    /// The server did not answer a registration in time.
    RegistrationTimeout,
    Protocol(&'static str),
}

impl ClientError {
    /// How the error is shown.
    pub open spec fn text(self) -> Seq<char> {
        match self {
            ClientError::Io(m) => "io: "@ + m@,
            ClientError::Transport(m) => "transport: "@ + m@,
            ClientError::QuinnWrite(m) => "quinn write: "@ + m@,
            ClientError::QuinnConnect(m) => "quinn connect: "@ + m@,
            ClientError::QuinnConnection(m) => "quinn connection: "@ + m@,
            ClientError::Rustls(m) => "rustls: "@ + m@,
            ClientError::Config(m) => "config: "@ + m@,
            ClientError::BadFingerprint => "bad fingerprint format (expected `sha256:HEX`)"@,
            ClientError::BadServerAddr(a) => "bad server address `"@ + a@ + "`"@,
            ClientError::EnrollRejected(code) => "server rejected enrollment: "@ + error_code_text(code.0),
            ClientError::AuthRejected(code) => "server rejected authentication: "@ + error_code_text(code.0),
            ClientError::TunnelRejected(code, detail) => "server rejected tunnel: "@ + error_code_text(code.0)
                + " — "@ + detail@,
            ClientError::RegistrationTimeout =>
                "server did not confirm tunnel within the registration deadline"@,
            ClientError::Protocol(m) => "unexpected frame: "@ + m@,
        }
    }

    /// How the error is shown.
    pub fn to_text(&self) -> (r: String)
        ensures
            r@ == self.text(),
    {
        match self {
            ClientError::Io(m) => "io: ".to_owned().concat(m.as_str()),
            ClientError::Transport(m) => "transport: ".to_owned().concat(m.as_str()),
            ClientError::QuinnWrite(m) => "quinn write: ".to_owned().concat(m.as_str()),
            ClientError::QuinnConnect(m) => "quinn connect: ".to_owned().concat(m.as_str()),
            ClientError::QuinnConnection(m) => "quinn connection: ".to_owned().concat(m.as_str()),
            ClientError::Rustls(m) => "rustls: ".to_owned().concat(m.as_str()),
            ClientError::Config(m) => "config: ".to_owned().concat(m.as_str()),
            ClientError::BadFingerprint => "bad fingerprint format (expected `sha256:HEX`)".to_owned(),
            ClientError::BadServerAddr(a) => "bad server address `".to_owned().concat(
                a.as_str(),
            ).concat("`"),
            ClientError::EnrollRejected(code) => "server rejected enrollment: ".to_owned().concat(
                code.to_text().as_str(),
            ),
            ClientError::AuthRejected(code) => "server rejected authentication: ".to_owned().concat(
                code.to_text().as_str(),
            ),
            ClientError::TunnelRejected(code, detail) => "server rejected tunnel: ".to_owned().concat(
                code.to_text().as_str(),
            ).concat(" — ").concat(detail.as_str()),
            ClientError::RegistrationTimeout =>
                "server did not confirm tunnel within the registration deadline".to_owned(),
            ClientError::Protocol(m) => "unexpected frame: ".to_owned().concat(m),
        }
    }
}

} // verus!
