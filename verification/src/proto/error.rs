//! Application-level error codes.
//!
//! A code is a raw `u16` on the wire, so that a value introduced by a later
//! revision decodes into an [`ErrorCode`] in place of a parse failure.

use crate::text::{push_char, upper_hex, upper_hex_digit};
use vstd::prelude::*;
use vstd::string::*;

verus! {

/// Numeric error code.
#[derive(Copy, Clone, Debug, PartialEq, Eq, Hash, Structural)]
pub struct ErrorCode(pub u16);

impl ErrorCode {
    // Generic
    pub const NO_ERROR: u16 = 0x0000;

    pub const PROTOCOL_VIOLATION: u16 = 0x0001;

    pub const FRAME_TOO_LARGE: u16 = 0x0002;

    pub const UNKNOWN_STREAM_KIND: u16 = 0x0003;

    pub const UNEXPECTED_STREAM: u16 = 0x0004;

    // Authentication
    pub const AUTHENTICATION_FAILED: u16 = 0x0010;

    pub const UNKNOWN_IDENTITY: u16 = 0x0011;

    pub const KEY_REVOKED: u16 = 0x0012;

    pub const TOKEN_EXPIRED: u16 = 0x0013;

    pub const ENROLL_DISABLED: u16 = 0x0014;

    // Tunnel registration
    pub const LABEL_UNAVAILABLE: u16 = 0x0020;

    pub const LABEL_FORBIDDEN: u16 = 0x0021;

    pub const LABEL_INVALID: u16 = 0x0022;

    pub const TUNNEL_LIMIT_EXCEEDED: u16 = 0x0023;

    pub const HTTP_NOT_AVAILABLE: u16 = 0x0024;

    pub const PORT_POOL_EXHAUSTED: u16 = 0x0025;

    // Quota
    pub const RATE_LIMITED: u16 = 0x0030;

    pub const QUOTA_EXCEEDED: u16 = 0x0031;

    // Session resume
    pub const RESUME_UNKNOWN: u16 = 0x0040;

    pub const RESUME_IDENTITY_MISMATCH: u16 = 0x0041;

    // Server lifecycle
    pub const SERVER_SHUTDOWN: u16 = 0x00F0;

    pub const INTERNAL_ERROR: u16 = 0x00F1;

    /// The code as it stands on the wire.
    pub fn raw(self) -> (code: u16)
        ensures
            code == self.0,
    {
        self.0
    }

    /// The name of a known code; an unknown one in four hexadecimal digits.
    pub fn to_text(&self) -> (r: String)
        ensures
            r@ == error_code_text(self.0),
    {
        match code_name(self.0) {
            Some(name) => name.to_owned(),
            None => {
                let mut out = "ErrorCode(0x".to_owned();
                let digits = hex4_text(self.0);
                out.append(digits.as_str());
                out.append(")");
                out
            },
        }
    }
}

/// `n` in four upper-case hexadecimal digits.
pub open spec fn hex4(n: u16) -> Seq<char> {
    seq![
        upper_hex(n as int / 4096),
        upper_hex(n as int / 256 % 16),
        upper_hex(n as int / 16 % 16),
        upper_hex(n as int % 16),
    ]
}

fn hex4_text(n: u16) -> (r: String)
    ensures
        r@ == hex4(n),
{
    let mut out = String::new();
    let hi: u8 = (n / 256) as u8;
    let lo: u8 = (n % 256) as u8;
    assert(hi / 16 == n as int / 4096 && hi % 16 == n as int / 256 % 16);
    assert(lo / 16 == n as int / 16 % 16 && lo % 16 == n as int % 16);
    push_char(&mut out, upper_hex_digit(hi / 16));
    push_char(&mut out, upper_hex_digit(hi % 16));
    push_char(&mut out, upper_hex_digit(lo / 16));
    push_char(&mut out, upper_hex_digit(lo % 16));
    assert(out@ =~= hex4(n));
    out
}

/// How an error code is shown.
pub open spec fn error_code_text(code: u16) -> Seq<char> {
    match code_name_spec(code) {
        Some(name) => name,
        None => "ErrorCode(0x"@ + hex4(code) + ")"@,
    }
}

/// The names of the known codes.
pub open spec fn code_name_spec(code: u16) -> Option<Seq<char>> {
    if code == ErrorCode::NO_ERROR {
        Some("NoError"@)
    } else if code == ErrorCode::PROTOCOL_VIOLATION {
        Some("ProtocolViolation"@)
    } else if code == ErrorCode::FRAME_TOO_LARGE {
        Some("FrameTooLarge"@)
    } else if code == ErrorCode::UNKNOWN_STREAM_KIND {
        Some("UnknownStreamKind"@)
    } else if code == ErrorCode::UNEXPECTED_STREAM {
        Some("UnexpectedStream"@)
    } else if code == ErrorCode::AUTHENTICATION_FAILED {
        Some("AuthenticationFailed"@)
    } else if code == ErrorCode::UNKNOWN_IDENTITY {
        Some("UnknownIdentity"@)
    } else if code == ErrorCode::KEY_REVOKED {
        Some("KeyRevoked"@)
    } else if code == ErrorCode::TOKEN_EXPIRED {
        Some("TokenExpired"@)
    } else if code == ErrorCode::ENROLL_DISABLED {
        Some("EnrollDisabled"@)
    } else if code == ErrorCode::LABEL_UNAVAILABLE {
        Some("LabelUnavailable"@)
    } else if code == ErrorCode::LABEL_FORBIDDEN {
        Some("LabelForbidden"@)
    } else if code == ErrorCode::LABEL_INVALID {
        Some("LabelInvalid"@)
    } else if code == ErrorCode::TUNNEL_LIMIT_EXCEEDED {
        Some("TunnelLimitExceeded"@)
    } else if code == ErrorCode::HTTP_NOT_AVAILABLE {
        Some("HttpNotAvailable"@)
    } else if code == ErrorCode::PORT_POOL_EXHAUSTED {
        Some("PortPoolExhausted"@)
    } else if code == ErrorCode::RATE_LIMITED {
        Some("RateLimited"@)
    } else if code == ErrorCode::QUOTA_EXCEEDED {
        Some("QuotaExceeded"@)
    } else if code == ErrorCode::RESUME_UNKNOWN {
        Some("ResumeUnknown"@)
    } else if code == ErrorCode::RESUME_IDENTITY_MISMATCH {
        Some("ResumeIdentityMismatch"@)
    } else if code == ErrorCode::SERVER_SHUTDOWN {
        Some("ServerShutdown"@)
    } else if code == ErrorCode::INTERNAL_ERROR {
        Some("InternalError"@)
    } else {
        None
    }
}

fn code_name(code: u16) -> (r: Option<&'static str>)
    ensures
        match r {
            Some(name) => code_name_spec(code) == Some(name@),
            None => code_name_spec(code) is None,
        },
{
    if code == ErrorCode::NO_ERROR {
        Some("NoError")
    } else if code == ErrorCode::PROTOCOL_VIOLATION {
        Some("ProtocolViolation")
    } else if code == ErrorCode::FRAME_TOO_LARGE {
        Some("FrameTooLarge")
    } else if code == ErrorCode::UNKNOWN_STREAM_KIND {
        Some("UnknownStreamKind")
    } else if code == ErrorCode::UNEXPECTED_STREAM {
        Some("UnexpectedStream")
    } else if code == ErrorCode::AUTHENTICATION_FAILED {
        Some("AuthenticationFailed")
    } else if code == ErrorCode::UNKNOWN_IDENTITY {
        Some("UnknownIdentity")
    } else if code == ErrorCode::KEY_REVOKED {
        Some("KeyRevoked")
    } else if code == ErrorCode::TOKEN_EXPIRED {
        Some("TokenExpired")
    } else if code == ErrorCode::ENROLL_DISABLED {
        Some("EnrollDisabled")
    } else if code == ErrorCode::LABEL_UNAVAILABLE {
        Some("LabelUnavailable")
    } else if code == ErrorCode::LABEL_FORBIDDEN {
        Some("LabelForbidden")
    } else if code == ErrorCode::LABEL_INVALID {
        Some("LabelInvalid")
    } else if code == ErrorCode::TUNNEL_LIMIT_EXCEEDED {
        Some("TunnelLimitExceeded")
    } else if code == ErrorCode::HTTP_NOT_AVAILABLE {
        Some("HttpNotAvailable")
    } else if code == ErrorCode::PORT_POOL_EXHAUSTED {
        Some("PortPoolExhausted")
    } else if code == ErrorCode::RATE_LIMITED {
        Some("RateLimited")
    } else if code == ErrorCode::QUOTA_EXCEEDED {
        Some("QuotaExceeded")
    } else if code == ErrorCode::RESUME_UNKNOWN {
        Some("ResumeUnknown")
    } else if code == ErrorCode::RESUME_IDENTITY_MISMATCH {
        Some("ResumeIdentityMismatch")
    } else if code == ErrorCode::SERVER_SHUTDOWN {
        Some("ServerShutdown")
    } else if code == ErrorCode::INTERNAL_ERROR {
        Some("InternalError")
    } else {
        None
    }
}

} // verus!
