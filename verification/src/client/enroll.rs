//! Enrollment: an admin token and a public key for a place in the server's
//! list, and the configuration that is kept afterwards.

use crate::client::config::{is_config, key_field, parse_pin, pin_spec, ClientConfig, Identity, ServerPin};
use crate::client::error::ClientError;
use crate::proto::frames::{ClientFrame, ClientFrameView, ServerFrame};
use crate::text::opt_view;
use vstd::prelude::*;
use vstd::string::*;

verus! {

/// What an enrollment is asked with.
#[derive(Debug, Clone)]
pub struct EnrollOptions {
    /// Host or IP address of the server.
    pub server_host: String,
    /// UDP port of the server's QUIC endpoint.
    pub server_quic_port: u16,
    /// SNI to present; the host when `None`.
    pub sni: Option<String>,
    /// Admin token as printed by the server.
    pub admin_token: String,
    /// Hint that the server keeps beside the key.
    pub label_hint: Option<String>,
    /// Known fingerprint; when `None`, whatever the server presents is pinned.
    pub pinned_fingerprint: Option<String>,
}

fn copy_opt(o: &Option<String>) -> (r: Option<String>)
    ensures
        opt_view(r) == opt_view(*o),
{
    match o {
        Some(s) => Some(s.clone()),
        None => None,
    }
}

/// The identity to enroll: that of an earlier, unfinished enrollment if there
/// is one, else a fresh one.
pub fn enroll_identity(existing: Option<ClientConfig>) -> (r: Identity)
    ensures
        existing is Some ==> r == existing->0.identity,
        existing is None ==> exists|key: crate::proto::auth::SigningKey|
            r.private_key@ == crate::codec::hex_text(#[trigger] key.seed@) && r.public_key@
                == crate::codec::hex_text(crate::proto::auth::ed25519_public(key.seed@)),
{
    match existing {
        Some(config) => config.identity,
        None => Identity::generate(),
    }
}

/// The digest that the server's key must have; `None` when it is trusted on
/// first use.
pub fn enroll_pin(opts: &EnrollOptions) -> (r: Result<Option<[u8; 32]>, ClientError>)
    ensures
        match opts.pinned_fingerprint {
            None => r is Ok && r->Ok_0 is None,
            Some(fp) => match pin_spec(fp@) {
                Some(bytes) => r is Ok && r->Ok_0 is Some && r->Ok_0->0@ == bytes,
                None => r is Err && r->Err_0 is BadFingerprint,
            },
        },
{
    match &opts.pinned_fingerprint {
        None => Ok(None),
        Some(fp) => match parse_pin(fp.as_str()) {
            Some(raw) => Ok(Some(raw)),
            None => Err(ClientError::BadFingerprint),
        },
    }
}

/// Whether a pin is the one of these options with this fingerprint.
pub open spec fn pin_of(opts: EnrollOptions, fingerprint: Option<Seq<char>>, pin: ServerPin) -> bool {
    &&& pin.host@ == opts.server_host@
    &&& pin.quic_port == opts.server_quic_port
    &&& pin.tcp_port is None
    &&& opt_view(pin.sni) == opt_view(opts.sni)
    &&& opt_view(pin.fingerprint) == fingerprint
}

/// The server to enroll with.
pub fn enroll_server(opts: &EnrollOptions) -> (r: ServerPin)
    ensures
        pin_of(*opts, opt_view(opts.pinned_fingerprint), r),
{
    ServerPin {
        host: opts.server_host.clone(),
        quic_port: opts.server_quic_port,
        tcp_port: None,
        sni: copy_opt(&opts.sni),
        fingerprint: copy_opt(&opts.pinned_fingerprint),
    }
}

/// The frame that asks for enrollment.
pub fn enroll_request(opts: &EnrollOptions, identity: &Identity) -> (r: Result<ClientFrame, ClientError>)
    ensures
        match key_field("public_key"@, identity.public_key@) {
            Ok(pubkey) => r is Ok && r->Ok_0@ == (ClientFrameView::Enroll {
                admin_token: opts.admin_token@,
                pubkey,
                label_hint: opt_view(opts.label_hint),
            }),
            Err(m) => r is Err && is_config(r->Err_0, m),
        },
{
    match identity.pubkey() {
        Ok(pubkey) => Ok(
            ClientFrame::Enroll {
                admin_token: opts.admin_token.clone(),
                pubkey,
                label_hint: copy_opt(&opts.label_hint),
            },
        ),
        Err(e) => Err(e),
    }
}

/// What a reply to an enrollment says.
pub open spec fn enroll_reply_spec(reply: ServerFrame) -> Result<String, ClientError> {
    match reply {
        ServerFrame::EnrollOk { authorized_line } => Ok(authorized_line),
        ServerFrame::EnrollRejected { code } => Err(ClientError::EnrollRejected(code)),
        _ => Err(ClientError::Protocol("expected EnrollOk")),
    }
}

/// The line that the server stored, if it accepted.
pub fn on_enroll_reply(reply: ServerFrame) -> (r: Result<String, ClientError>)
    ensures
        r == enroll_reply_spec(reply),
        r == match reply {
            ServerFrame::EnrollOk { authorized_line } => Ok::<String, ClientError>(authorized_line),
            ServerFrame::EnrollRejected { code } => Err(ClientError::EnrollRejected(code)),
            _ => Err(ClientError::Protocol("expected EnrollOk")),
        },
{
    match reply {
        ServerFrame::EnrollOk { authorized_line } => Ok(authorized_line),
        ServerFrame::EnrollRejected { code } => Err(ClientError::EnrollRejected(code)),
        _ => Err(ClientError::Protocol("expected EnrollOk")),
    }
}

/// The configuration to keep: a fingerprint that the user gave stays, else the
/// one that was seen is pinned.
pub fn enroll(opts: &EnrollOptions, identity: Identity, learned: Option<String>) -> (r: ClientConfig)
    ensures
        r.identity == identity,
        pin_of(
            *opts,
            match opts.pinned_fingerprint {
                Some(fp) => Some(fp@),
                None => opt_view(learned),
            },
            r.server,
        ),
{
    let fingerprint = match &opts.pinned_fingerprint {
        Some(fp) => Some(fp.clone()),
        None => learned,
    };
    ClientConfig {
        identity,
        server: ServerPin {
            host: opts.server_host.clone(),
            quic_port: opts.server_quic_port,
            tcp_port: None,
            sni: copy_opt(&opts.sni),
            fingerprint,
        },
    }
}

/// A client has enrolled exactly when the server says so, and a refusal keeps
/// the server's code.
pub proof fn law_server_confirms_enrollment(reply: ServerFrame)
    ensures
        enroll_reply_spec(reply) is Ok <==> reply is EnrollOk,
        reply is EnrollOk ==> enroll_reply_spec(reply)->Ok_0 == reply->authorized_line,
        reply is EnrollRejected ==> enroll_reply_spec(reply) == Err::<String, ClientError>(
            ClientError::EnrollRejected(reply->EnrollRejected_code),
        ),
{
}

} // verus!
