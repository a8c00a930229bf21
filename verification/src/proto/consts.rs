//! Protocol-level constants.

use vstd::prelude::*;

verus! {

/// ALPN identifier of the primary QUIC transport: `krot/1`.
pub const ALPN: [u8; 6] = [0x6b, 0x72, 0x6f, 0x74, 0x2f, 0x31];

/// ALPN identifier of the TCP fallback transport: `krot-tcp/1`.
///
/// Same wire semantics above the transport, multiplexed on one TLS-over-TCP
/// connection in place of QUIC.
pub const ALPN_TCP: [u8; 10] = [0x6b, 0x72, 0x6f, 0x74, 0x2d, 0x74, 0x63, 0x70, 0x2f, 0x31];

/// Default UDP port of the QUIC control endpoint.
pub const DEFAULT_UDP_PORT: u16 = 7853;

/// Default TCP port of the `krot-tcp/1` fallback transport. The transport is
/// picked by ALPN, so both ports have the same number.
pub const DEFAULT_TCP_PORT: u16 = 7853;

/// TCP port of the built-in ACME HTTP-01 responder.
pub const ACME_HTTP_PORT: u16 = 80;

/// Maximum size of a Control-stream frame payload, without the length prefix.
pub const MAX_FRAME_SIZE: usize = 64 * 1024;

/// Size of the Data-stream header: a kind byte and a little-endian `u64`.
pub const DATA_HEADER_SIZE: usize = 9;

/// Length in bytes of a session identifier.
pub const SESSION_ID_LEN: usize = 16;

/// Length in bytes of the authentication challenge nonce.
pub const AUTH_NONCE_LEN: usize = 32;

/// Length in bytes of a raw admin token before base32 encoding.
pub const ADMIN_TOKEN_RAW_LEN: usize = 32;

/// Seconds for which an issued admin token can be used.
pub const ADMIN_TOKEN_TTL_SECS: u64 = 10 * 60;

/// Seconds before a dangling tunnel is reclaimed.
pub const DEFAULT_GRACE_PERIOD_SECS: u64 = 30;

/// Recommended QUIC keep-alive interval, in seconds.
pub const KEEP_ALIVE_INTERVAL_SECS: u64 = 5;

/// Recommended QUIC idle timeout, in seconds.
pub const MAX_IDLE_TIMEOUT_SECS: u64 = 15;

/// Seconds that a client waits for the answer to `RegisterTunnel`.
pub const REGISTRATION_DEADLINE_SECS: u64 = 10;

/// Seconds from opening a Data stream to its first tunneled byte in either direction.
pub const DATA_FIRST_BYTE_DEADLINE_SECS: u64 = 30;

/// The ALPN identifiers that both sides offer, the preferred one first.
pub open spec fn supported_alpn_spec() -> Seq<Seq<u8>> {
    seq![ALPN@, ALPN_TCP@]
}

/// The ALPN identifiers that both sides offer, the preferred one first.
pub fn supported_alpn() -> (r: Vec<Vec<u8>>)
    ensures
        r@.len() == supported_alpn_spec().len(),
        forall|i: int| 0 <= i < r@.len() ==> (#[trigger] r@[i])@ == supported_alpn_spec()[i],
{
    let quic = ALPN;
    let tcp = ALPN_TCP;
    let mut out: Vec<Vec<u8>> = Vec::new();
    out.push(vstd::slice::slice_to_vec(quic.as_slice()));
    out.push(vstd::slice::slice_to_vec(tcp.as_slice()));
    out
}

} // verus!
