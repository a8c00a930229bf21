//! What a client does on the Control stream of a session: authenticate, and
//! ask for the peer relays.

use crate::client::config::{is_config, key_field, pin_spec, Identity, ServerPin};
use crate::client::error::ClientError;
use crate::proto::auth::{
    challenge_accepts, ed25519_decodes, ed25519_public, ed25519_signature, sign_challenge, signing_payload_spec,
};
use crate::proto::error::ErrorCode;
use crate::proto::frames::{ClientFrame, ClientFrameView, ServerFrame};
use crate::proto::ids::{Nonce, PubKey, SessionId};
use crate::server::handshake::{auth_begun, auth_finished, AuthStep, HandshakeOutcome, PendingAuth};
use crate::server::keys::EntryView;
use crate::text::{dec, push_u64};
use vstd::prelude::*;
use vstd::string::*;

verus! {

/// The transport that reached the server.
#[derive(Debug, Clone, Copy, PartialEq, Eq, Structural)]
pub enum SessionTransport {
    Quic,
    TcpFallback,
}

/// What to do after the attempt to connect over QUIC failed.
pub enum AfterFailure {
    /// Try once more over TCP.
    FallBack,
    /// Give up with this error: it would come again over TCP.
    GiveUp(ClientError),
}

/// Whether an error is a failure of the transport, which the fallback may
/// get around.
pub fn is_transport_failure(err: &ClientError) -> (r: bool)
    ensures
        r == (*err is Transport || *err is BadServerAddr),
{
    match err {
        ClientError::Transport(_) => true,
        ClientError::BadServerAddr(_) => true,
        _ => false,
    }
}

/// What to do after the attempt to connect over QUIC failed with this error.
pub open spec fn after_failure(err: ClientError) -> AfterFailure {
    if err is Transport || err is BadServerAddr {
        AfterFailure::FallBack
    } else {
        AfterFailure::GiveUp(err)
    }
}

/// What to do after the attempt to connect over QUIC failed.
pub fn after_quic_failure(err: ClientError) -> (r: AfterFailure)
    ensures
        r == after_failure(err),
        r == if err is Transport || err is BadServerAddr {
            AfterFailure::FallBack
        } else {
            AfterFailure::GiveUp(err)
        },
{
    if is_transport_failure(&err) {
        AfterFailure::FallBack
    } else {
        AfterFailure::GiveUp(err)
    }
}

/// The first frame of a session: it names the identity.
pub fn auth_request(identity: &Identity) -> (r: Result<ClientFrame, ClientError>)
    ensures
        match key_field("public_key"@, identity.public_key@) {
            Ok(pubkey) => r is Ok && r->Ok_0@ == (ClientFrameView::AuthRequest { pubkey }),
            Err(m) => r is Err && is_config(r->Err_0, m),
        },
{
    match identity.pubkey() {
        Ok(pubkey) => Ok(ClientFrame::AuthRequest { pubkey }),
        Err(e) => Err(e),
    }
}

/// What to do with the server's answer to the first frame.
pub enum ChallengeStep {
    /// Send this frame and read the verdict.
    Respond(ClientFrame),
    /// It is no challenge: read one more frame for the reason.
    ReadReject,
    /// Give up.
    Fail(ClientError),
}

/// The signature that answers a challenge for the key with this seed.
pub open spec fn challenge_signature(seed: Seq<u8>, nonce: Nonce) -> Seq<u8> {
    ed25519_signature(seed, signing_payload_spec(nonce))
}

/// Whether a frame is an answer to the challenge that is good under the public
/// key that belongs to the seed.
pub open spec fn convinces(frame: ClientFrame, seed: Seq<u8>, nonce: Nonce) -> bool {
    &&& frame is AuthResponse
    &&& forall|pubkey: PubKey|
        pubkey.0@ == ed25519_public(seed) && ed25519_decodes(pubkey.0@)
            ==> #[trigger] challenge_accepts(pubkey, nonce, frame->signature)
}

/// Answer the challenge of the server. The answer is good under the public key
/// that belongs to the identity's seed.
pub fn on_challenge(identity: &Identity, frame: &ServerFrame) -> (r: ChallengeStep)
    ensures
        match *frame {
            ServerFrame::AuthChallenge { nonce } => match key_field(
                "private_key"@,
                identity.private_key@,
            ) {
                Ok(seed) => {
                    &&& r is Respond
                    &&& r->Respond_0@ == (ClientFrameView::AuthResponse {
                        signature: challenge_signature(seed, nonce),
                    })
                    &&& convinces(r->Respond_0, seed, nonce)
                },
                Err(m) => r is Fail && is_config(r->Fail_0, m),
            },
            _ => r is ReadReject,
        },
{
    match frame {
        ServerFrame::AuthChallenge { nonce } => match identity.signing_key() {
            Ok(key) => ChallengeStep::Respond(
                ClientFrame::AuthResponse { signature: sign_challenge(&key, nonce) },
            ),
            Err(e) => ChallengeStep::Fail(e),
        },
        _ => ChallengeStep::ReadReject,
    }
}

/// Client and relay agree: where the relay lists the public key of the
/// client's seed, the client's answer to the relay's challenge opens the session
/// that the relay names.
pub proof fn law_listed_client_gets_a_session(
    keys: Map<Seq<u8>, EntryView>,
    pubkey: PubKey,
    nonce: Nonce,
    step: AuthStep,
    answer: ClientFrame,
    seed: Seq<u8>,
    session_id: SessionId,
    r: (ServerFrame, HandshakeOutcome),
)
    requires
        pubkey@ == ed25519_public(seed),
        ed25519_decodes(pubkey@),
        keys.contains_key(pubkey@),
        auth_begun(keys, pubkey, nonce, step),
        convinces(answer, seed, nonce),
        step is Challenge ==> auth_finished(step->Challenge_pending, answer, session_id, r),
    ensures
        step is Challenge,
        step->Challenge_reply == (ServerFrame::AuthChallenge { nonce }),
        r.0 == (ServerFrame::AuthOk { session_id }),
        r.1 is Auth,
        r.1->Auth_0.pubkey == pubkey,
        r.1->Auth_0.session_id == session_id,
{
    assert(challenge_accepts(pubkey, nonce, answer->signature));
}

/// The error of a session that got no challenge but this frame, if one came.
pub open spec fn reject_spec(frame: Option<&ServerFrame>) -> ClientError {
    match frame {
        Some(ServerFrame::AuthReject { code }) => ClientError::AuthRejected(*code),
        Some(ServerFrame::ServerBye { code }) => ClientError::AuthRejected(*code),
        _ => ClientError::Protocol("expected AuthChallenge"),
    }
}

/// The error of a session that got no challenge, given the frame that came
/// next, if one did.
pub fn read_reject(frame: Option<&ServerFrame>) -> (r: ClientError)
    ensures
        r == reject_spec(frame),
        r == match frame {
            Some(ServerFrame::AuthReject { code }) => ClientError::AuthRejected(*code),
            Some(ServerFrame::ServerBye { code }) => ClientError::AuthRejected(*code),
            _ => ClientError::Protocol("expected AuthChallenge"),
        },
{
    match frame {
        Some(ServerFrame::AuthReject { code }) => ClientError::AuthRejected(*code),
        Some(ServerFrame::ServerBye { code }) => ClientError::AuthRejected(*code),
        _ => ClientError::Protocol("expected AuthChallenge"),
    }
}

/// The verdict that a frame of the server is.
pub open spec fn verdict_spec(frame: ServerFrame) -> Result<SessionId, ClientError> {
    match frame {
        ServerFrame::AuthOk { session_id } => Ok(session_id),
        ServerFrame::AuthReject { code } => Err(ClientError::AuthRejected(code)),
        _ => Err(ClientError::Protocol("expected AuthOk")),
    }
}

/// The verdict of the server on the signature.
pub fn on_verdict(frame: &ServerFrame) -> (r: Result<SessionId, ClientError>)
    ensures
        r == verdict_spec(*frame),
        r == match *frame {
            ServerFrame::AuthOk { session_id } => Ok::<SessionId, ClientError>(session_id),
            ServerFrame::AuthReject { code } => Err(ClientError::AuthRejected(code)),
            _ => Err(ClientError::Protocol("expected AuthOk")),
        },
{
    match frame {
        ServerFrame::AuthOk { session_id } => Ok(*session_id),
        ServerFrame::AuthReject { code } => Err(ClientError::AuthRejected(*code)),
        _ => Err(ClientError::Protocol("expected AuthOk")),
    }
}

/// The frame that ends a session.
pub fn bye() -> (r: ClientFrame)
    ensures
        r@ == ClientFrameView::Bye,
{
    ClientFrame::Bye
}

/// The frame that asks for the peer relays.
pub fn list_peers() -> (r: ClientFrame)
    ensures
        r@ == ClientFrameView::ListPeers,
{
    ClientFrame::ListPeers
}

/// The peer relays that the server answers with.
pub fn on_peers(frame: ServerFrame) -> (r: Result<Vec<String>, ClientError>)
    ensures
        r == match frame {
            ServerFrame::Peers { relays } => Ok::<Vec<String>, ClientError>(relays),
            _ => Err(ClientError::Protocol("expected Peers response")),
        },
{
    match frame {
        ServerFrame::Peers { relays } => Ok(relays),
        _ => Err(ClientError::Protocol("expected Peers response")),
    }
}

/// The pinned digest that a connection is made with.
pub fn connection_pin(pin: &ServerPin) -> (r: Result<[u8; 32], ClientError>)
    ensures
        match pin.fingerprint {
            None => r is Err && is_config(
                r->Err_0,
                "server pin has no fingerprint (only IpMode is supported today)"@,
            ),
            Some(fp) => match pin_spec(fp@) {
                Some(bytes) => r is Ok && r->Ok_0@ == bytes,
                None => r is Err && r->Err_0 is BadFingerprint,
            },
        },
{
    match pin.fingerprint_bytes() {
        Ok(Some(bytes)) => Ok(bytes),
        Ok(None) => Err(
            ClientError::Config(
                "server pin has no fingerprint (only IpMode is supported today)".to_owned(),
            ),
        ),
        Err(e) => Err(e),
    }
}

/// The port to connect to over a transport.
pub open spec fn port_spec(pin: ServerPin, transport: SessionTransport) -> u16 {
    match transport {
        SessionTransport::Quic => pin.quic_port,
        SessionTransport::TcpFallback => match pin.tcp_port {
            Some(p) => p,
            None => pin.quic_port,
        },
    }
}

/// The port to connect to over a transport.
pub fn port_for(pin: &ServerPin, transport: SessionTransport) -> (r: u16)
    ensures
        r == port_spec(*pin, transport),
        r == match transport {
            SessionTransport::Quic => pin.quic_port,
            SessionTransport::TcpFallback => match pin.tcp_port {
                Some(p) => p,
                None => pin.quic_port,
            },
        },
{
    match transport {
        SessionTransport::Quic => pin.quic_port,
        SessionTransport::TcpFallback => pin.effective_tcp_port(),
    }
}

/// The name that a server is looked up by.
pub open spec fn target_spec(pin: ServerPin, port: u16) -> Seq<char> {
    pin.host@ + ":"@ + dec(port as nat)
}

/// The name that a server is looked up by: its host and a port.
pub fn server_target(pin: &ServerPin, port: u16) -> (r: String)
    ensures
        r@ == target_spec(*pin, port),
{
    let mut out = pin.host.as_str().to_owned();
    out.append(":");
    push_u64(&mut out, port as u64);
    out
}

/// The error of a lookup that failed with this message, or found nothing.
pub fn unresolved(target: &str, failure: Option<&str>) -> (r: ClientError)
    ensures
        r is BadServerAddr,
        r->BadServerAddr_0@ == match failure {
            Some(m) => target@ + ": "@ + m@,
            None => target@,
        },
{
    match failure {
        Some(m) => ClientError::BadServerAddr(target.to_owned().concat(": ").concat(m)),
        None => ClientError::BadServerAddr(target.to_owned()),
    }
}

/// Only a failure to reach the server is tried again over the fallback; any
/// other error is handed on as it is.
pub proof fn law_only_transport_failures_fall_back(err: ClientError)
    ensures
        after_failure(err) is FallBack <==> err is Transport || err is BadServerAddr,
        after_failure(err) is GiveUp ==> after_failure(err)->GiveUp_0 == err,
{
}

/// The client takes the relay's answer for what it is: it has a session
/// exactly when the relay has opened one, the same one, and otherwise learns
/// the relay's code.
pub proof fn law_verdict_is_the_relays(
    pending: PendingAuth,
    response: ClientFrame,
    session_id: SessionId,
    r: (ServerFrame, HandshakeOutcome),
)
    requires
        auth_finished(pending, response, session_id, r),
    ensures
        verdict_spec(r.0) is Ok <==> r.1 is Auth,
        r.1 is Auth ==> verdict_spec(r.0) == Ok::<SessionId, ClientError>(r.1->Auth_0.session_id),
        !(r.1 is Auth) ==> verdict_spec(r.0) == Err::<SessionId, ClientError>(
            ClientError::AuthRejected(r.0->AuthReject_code),
        ),
{
}

/// A client that the relay does not challenge learns the relay's code.
pub proof fn law_refusal_is_the_relays(
    keys: Map<Seq<u8>, EntryView>,
    pubkey: PubKey,
    nonce: Nonce,
    step: AuthStep,
)
    requires
        auth_begun(keys, pubkey, nonce, step),
        step is Reject,
    ensures
        reject_spec(Some(&step->Reject_reply)) == ClientError::AuthRejected(ErrorCode(0x0011)),
        reject_spec(None) == ClientError::Protocol("expected AuthChallenge"),
{
}

/// The fallback uses the port of its own, or else that of QUIC.
pub proof fn law_fallback_port(pin: ServerPin)
    ensures
        port_spec(pin, SessionTransport::Quic) == pin.quic_port,
        pin.tcp_port is Some ==> port_spec(pin, SessionTransport::TcpFallback) == pin.tcp_port->0,
        pin.tcp_port is None ==> port_spec(pin, SessionTransport::TcpFallback) == pin.quic_port,
{
}

} // verus!
