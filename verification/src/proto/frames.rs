//! Control-stream frames and the inspection prelude.
//!
//! A value is encoded as the index of its variant followed by its fields; the
//! outer framing is that of [`crate::proto::framing`].

use crate::proto::error::ErrorCode;
use crate::proto::fields::{
    id16_reader, lemma_read_list, lemma_read_opt, list_bytes, num_reader, num_writer, opt_bytes, port_reader,
    port_writer, put_bool, put_bytes16, put_bytes32, put_bytes64, put_list, put_num, put_opt_num, put_opt_port,
    put_opt_session, put_opt_text, put_text, raw_writer, read_list, read_opt, session_view, take_bytes64, take_list,
    take_opt_num, take_opt_port, take_opt_session, take_opt_text, text_reader, text_writer, tunnel_view,
};
use crate::proto::ids::{Nonce, PubKey, SessionId, Signature, TunnelId};
use crate::proto::wire::{
    bool_from_wire, bytes16_from_wire, bytes32_from_wire, flag_byte, lemma_read_flag, lemma_read_num, lemma_read_raw,
    lemma_read_text, num_to_wire, Read, read_bool, read_raw, read_text, read_u16, read_u32, read_u64, string_from_wire,
    tag_from_wire, text_bytes, took, u16_from_wire, u32_from_wire, u64_from_wire, varint, WireError,
};
use crate::text::{opt_view, views};
use vstd::prelude::*;
use vstd::utf8::encode_utf8;

verus! {

/// A value that travels as the payload of a frame.
pub trait WireValue: Sized + View {
    /// The payload of a value.
    spec fn wire(v: Self::V) -> Seq<u8>;

    /// The value at the front of a payload, and what follows it.
    spec fn parse(s: Seq<u8>) -> Read<Self::V>;

    /// A value is read back from its payload, with nothing left over.
    proof fn wire_roundtrip(v: Self)
        requires
            Self::wire(v@).len() <= usize::MAX,
        ensures
            Self::parse(Self::wire(v@)) == Ok::<_, WireError>((v@, Seq::<u8>::empty())),
    ;

    /// Encode a value into a payload.
    fn encode_wire(&self) -> (r: Vec<u8>)
        ensures
            r@ == Self::wire(self@),
    ;

    /// Decode a payload; bytes behind the value are ignored.
    fn decode_wire(s: &[u8]) -> (r: Result<Self, WireError>)
        ensures
            match Self::parse(s@) {
                Ok((v, _)) => r is Ok && r->Ok_0@ == v,
                Err(e) => r is Err && r->Err_0 == e,
            },
    ;
}

/// Kind of tunnel that a client wants to register.
#[derive(Clone, Copy, Debug, PartialEq, Eq, Structural)]
pub enum TunnelKind {
    /// HTTP(S) tunnel, routed by subdomain.
    Http,
    /// Raw TCP tunnel. `remote_port` may ask for a server port; without it the
    /// server picks one from its pool.
    Tcp { remote_port: Option<u16> },
}

/// The bytes of a tunnel kind.
pub open spec fn kind_bytes(k: TunnelKind) -> Seq<u8> {
    match k {
        TunnelKind::Http => varint(0),
        TunnelKind::Tcp { remote_port } => varint(1) + opt_bytes(remote_port, port_writer()),
    }
}

/// Reads a tunnel kind.
pub open spec fn read_kind(s: Seq<u8>) -> Read<TunnelKind> {
    match read_u32(s) {
        Err(e) => Err(e),
        Ok((i, s)) => if i == 0 {
            Ok((TunnelKind::Http, s))
        } else if i == 1 {
            match read_opt(s, port_reader()) {
                Err(e) => Err(e),
                Ok((remote_port, s)) => Ok((TunnelKind::Tcp { remote_port }, s)),
            }
        } else {
            Err(WireError::UnknownVariant)
        },
    }
}

proof fn lemma_read_kind(k: TunnelKind, rest: Seq<u8>)
    ensures
        read_kind(kind_bytes(k) + rest) == Ok::<_, WireError>((k, rest)),
{
    match k {
        TunnelKind::Http => {
            lemma_read_num(0, rest);
        },
        TunnelKind::Tcp { remote_port } => {
            let t = opt_bytes(remote_port, port_writer()) + rest;
            assert(kind_bytes(k) + rest =~= varint(1) + t);
            lemma_read_num(1, t);
            lemma_opt_port(remote_port, rest);
        },
    }
}

fn put_kind(out: &mut Vec<u8>, k: &TunnelKind)
    ensures
        final(out)@ == old(out)@ + kind_bytes(*k),
{
    match k {
        TunnelKind::Http => put_num(out, 0),
        TunnelKind::Tcp { remote_port } => {
            put_num(out, 1);
            put_opt_port(out, remote_port);
            assert(out@ =~= old(out)@ + kind_bytes(*k));
        },
    }
}

fn take_kind(s: &[u8]) -> (r: Result<(TunnelKind, &[u8]), WireError>)
    ensures
        took(r, read_kind(s@)),
{
    let (i, s) = match u32_from_wire(s) {
        Err(e) => return Err(e),
        Ok(p) => p,
    };
    if i == 0 {
        Ok((TunnelKind::Http, s))
    } else if i == 1 {
        match take_opt_port(s) {
            Err(e) => Err(e),
            Ok((remote_port, s)) => Ok((TunnelKind::Tcp { remote_port }, s)),
        }
    } else {
        Err(WireError::UnknownVariant)
    }
}

proof fn lemma_opt_port(o: Option<u16>, rest: Seq<u8>)
    ensures
        read_opt(opt_bytes(o, port_writer()) + rest, port_reader()) == Ok::<_, WireError>((o, rest)),
{
    if o is Some {
        lemma_read_num(o->0 as nat, rest);
    }
    lemma_read_opt(o, port_writer(), port_reader(), rest);
}

proof fn lemma_opt_num(o: Option<u64>, rest: Seq<u8>)
    ensures
        read_opt(opt_bytes(o, num_writer()) + rest, num_reader()) == Ok::<_, WireError>((o, rest)),
{
    if o is Some {
        lemma_read_num(o->0 as nat, rest);
    }
    lemma_read_opt(o, num_writer(), num_reader(), rest);
}

proof fn lemma_opt_session(o: Option<Seq<u8>>, rest: Seq<u8>)
    requires
        o is Some ==> o->0.len() == 16,
    ensures
        read_opt(opt_bytes(o, raw_writer()) + rest, id16_reader()) == Ok::<_, WireError>((o, rest)),
{
    if o is Some {
        lemma_read_raw(o->0, rest);
    }
    lemma_read_opt(o, raw_writer(), id16_reader(), rest);
}

proof fn lemma_opt_text(o: Option<Seq<char>>, rest: Seq<u8>)
    requires
        opt_bytes(o, text_writer()).len() <= usize::MAX,
    ensures
        read_opt(opt_bytes(o, text_writer()) + rest, text_reader()) == Ok::<_, WireError>((o, rest)),
{
    if o is Some {
        assert(encode_utf8(o->0).len() <= text_bytes(o->0).len());
        lemma_read_text(o->0, rest);
    }
    lemma_read_opt(o, text_writer(), text_reader(), rest);
}

/// A frame that the client sends on the Control stream.
#[derive(Clone, Debug, PartialEq, Eq)]
pub enum ClientFrame {
    /// Begin an authenticated session by presenting a public key.
    AuthRequest { pubkey: PubKey },
    /// Sign the challenge that the server returned.
    AuthResponse { signature: Signature },
    /// Register a tunnel or resume a previous session.
    ///
    /// `inspect` asks for an inspection prelude on every server-opened Data
    /// stream; without it the server sends none.
    RegisterTunnel { label: String, kind: TunnelKind, resume_session_id: Option<SessionId>, inspect: bool },
    /// Close a previously registered tunnel.
    UnregisterTunnel { tunnel_id: TunnelId },
    /// Application-level ping, echoed with the same nonce.
    Ping { nonce: u64 },
    /// Graceful shutdown; open tunnels cannot be resumed after it.
    Bye,
    /// Exchange an admin token for enrollment. The server closes the
    /// connection once enrollment has succeeded or failed.
    Enroll { admin_token: String, pubkey: PubKey, label_hint: Option<String> },
    /// Ask for the federated relays that this identity may publish on.
    ListPeers,
}

/// What a [`ClientFrame`] says, with its texts and byte arrays as sequences.
pub enum ClientFrameView {
    AuthRequest { pubkey: Seq<u8> },
    AuthResponse { signature: Seq<u8> },
    RegisterTunnel { label: Seq<char>, kind: TunnelKind, resume_session_id: Option<Seq<u8>>, inspect: bool },
    UnregisterTunnel { tunnel_id: u64 },
    Ping { nonce: u64 },
    Bye,
    Enroll { admin_token: Seq<char>, pubkey: Seq<u8>, label_hint: Option<Seq<char>> },
    ListPeers,
}

impl View for ClientFrame {
    type V = ClientFrameView;

    open spec fn view(&self) -> ClientFrameView {
        match *self {
            ClientFrame::AuthRequest { pubkey } => ClientFrameView::AuthRequest {
                pubkey: pubkey.0@,
            },
            ClientFrame::AuthResponse { signature } => ClientFrameView::AuthResponse {
                signature: signature.0@,
            },
            ClientFrame::RegisterTunnel { label, kind, resume_session_id, inspect } => ClientFrameView::RegisterTunnel {
                label: label@,
                kind,
                resume_session_id: session_view(resume_session_id),
                inspect,
            },
            ClientFrame::UnregisterTunnel { tunnel_id } => ClientFrameView::UnregisterTunnel {
                tunnel_id: tunnel_id.0,
            },
            ClientFrame::Ping { nonce } => ClientFrameView::Ping {
                nonce,
            },
            ClientFrame::Bye => ClientFrameView::Bye,
            ClientFrame::Enroll { admin_token, pubkey, label_hint } => ClientFrameView::Enroll {
                admin_token: admin_token@,
                pubkey: pubkey.0@,
                label_hint: opt_view(label_hint),
            },
            ClientFrame::ListPeers => ClientFrameView::ListPeers,
        }
    }
}

/// Reads the fields of [`ClientFrame::AuthRequest`].
pub open spec fn read_auth_request(s: Seq<u8>) -> Read<ClientFrameView> {
    match read_raw(s, 32) {
        Err(e) => Err(e),
        Ok((pubkey, s)) => Ok((ClientFrameView::AuthRequest { pubkey }, s)),
    }
}

/// Reads the fields of [`ClientFrame::AuthResponse`].
pub open spec fn read_auth_response(s: Seq<u8>) -> Read<ClientFrameView> {
    match read_raw(s, 64) {
        Err(e) => Err(e),
        Ok((signature, s)) => Ok((ClientFrameView::AuthResponse { signature }, s)),
    }
}

/// Reads the fields of [`ClientFrame::RegisterTunnel`].
pub open spec fn read_register_tunnel(s: Seq<u8>) -> Read<ClientFrameView> {
    match read_text(s) {
        Err(e) => Err(e),
        Ok((label, s)) => match read_kind(s) {
            Err(e) => Err(e),
            Ok((kind, s)) => match read_opt(s, id16_reader()) {
                Err(e) => Err(e),
                Ok((resume_session_id, s)) => match read_bool(s) {
                    Err(e) => Err(e),
                    Ok((inspect, s)) => Ok((ClientFrameView::RegisterTunnel { label, kind, resume_session_id, inspect }, s)),
                },
            },
        },
    }
}

/// Reads the fields of [`ClientFrame::UnregisterTunnel`].
pub open spec fn read_unregister_tunnel(s: Seq<u8>) -> Read<ClientFrameView> {
    match read_u64(s) {
        Err(e) => Err(e),
        Ok((tunnel_id, s)) => Ok((ClientFrameView::UnregisterTunnel { tunnel_id }, s)),
    }
}

/// Reads the fields of [`ClientFrame::Ping`].
pub open spec fn read_ping(s: Seq<u8>) -> Read<ClientFrameView> {
    match read_u64(s) {
        Err(e) => Err(e),
        Ok((nonce, s)) => Ok((ClientFrameView::Ping { nonce }, s)),
    }
}

/// Reads the fields of [`ClientFrame::Enroll`].
pub open spec fn read_enroll(s: Seq<u8>) -> Read<ClientFrameView> {
    match read_text(s) {
        Err(e) => Err(e),
        Ok((admin_token, s)) => match read_raw(s, 32) {
            Err(e) => Err(e),
            Ok((pubkey, s)) => match read_opt(s, text_reader()) {
                Err(e) => Err(e),
                Ok((label_hint, s)) => Ok((ClientFrameView::Enroll { admin_token, pubkey, label_hint }, s)),
            },
        },
    }
}

fn take_auth_request(s: &[u8]) -> (r: Result<ClientFrame, WireError>)
    ensures
        match read_auth_request(s@) {
            Ok((v, _)) => r is Ok && r->Ok_0@ == v,
            Err(e) => r is Err && r->Err_0 == e,
        },
{
    let (pubkey, _rest) = match bytes32_from_wire(s) {
        Err(e) => return Err(e),
        Ok(p) => p,
    };
    Ok(ClientFrame::AuthRequest { pubkey: PubKey(pubkey) })
}

fn take_auth_response(s: &[u8]) -> (r: Result<ClientFrame, WireError>)
    ensures
        match read_auth_response(s@) {
            Ok((v, _)) => r is Ok && r->Ok_0@ == v,
            Err(e) => r is Err && r->Err_0 == e,
        },
{
    let (signature, _rest) = match take_bytes64(s) {
        Err(e) => return Err(e),
        Ok(p) => p,
    };
    Ok(ClientFrame::AuthResponse { signature: Signature(signature) })
}

fn take_register_tunnel(s: &[u8]) -> (r: Result<ClientFrame, WireError>)
    ensures
        match read_register_tunnel(s@) {
            Ok((v, _)) => r is Ok && r->Ok_0@ == v,
            Err(e) => r is Err && r->Err_0 == e,
        },
{
    let (label, s) = match string_from_wire(s) {
        Err(e) => return Err(e),
        Ok(p) => p,
    };
    let (kind, s) = match take_kind(s) {
        Err(e) => return Err(e),
        Ok(p) => p,
    };
    let (resume_session_id, s) = match take_opt_session(s) {
        Err(e) => return Err(e),
        Ok(p) => p,
    };
    let (inspect, _rest) = match bool_from_wire(s) {
        Err(e) => return Err(e),
        Ok(p) => p,
    };
    Ok(ClientFrame::RegisterTunnel { label, kind, resume_session_id, inspect })
}

fn take_unregister_tunnel(s: &[u8]) -> (r: Result<ClientFrame, WireError>)
    ensures
        match read_unregister_tunnel(s@) {
            Ok((v, _)) => r is Ok && r->Ok_0@ == v,
            Err(e) => r is Err && r->Err_0 == e,
        },
{
    let (tunnel_id, _rest) = match u64_from_wire(s) {
        Err(e) => return Err(e),
        Ok(p) => p,
    };
    Ok(ClientFrame::UnregisterTunnel { tunnel_id: TunnelId(tunnel_id) })
}

fn take_ping(s: &[u8]) -> (r: Result<ClientFrame, WireError>)
    ensures
        match read_ping(s@) {
            Ok((v, _)) => r is Ok && r->Ok_0@ == v,
            Err(e) => r is Err && r->Err_0 == e,
        },
{
    let (nonce, _rest) = match u64_from_wire(s) {
        Err(e) => return Err(e),
        Ok(p) => p,
    };
    Ok(ClientFrame::Ping { nonce })
}

fn take_enroll(s: &[u8]) -> (r: Result<ClientFrame, WireError>)
    ensures
        match read_enroll(s@) {
            Ok((v, _)) => r is Ok && r->Ok_0@ == v,
            Err(e) => r is Err && r->Err_0 == e,
        },
{
    let (admin_token, s) = match string_from_wire(s) {
        Err(e) => return Err(e),
        Ok(p) => p,
    };
    let (pubkey, s) = match bytes32_from_wire(s) {
        Err(e) => return Err(e),
        Ok(p) => p,
    };
    let (label_hint, _rest) = match take_opt_text(s) {
        Err(e) => return Err(e),
        Ok(p) => p,
    };
    Ok(ClientFrame::Enroll { admin_token, pubkey: PubKey(pubkey), label_hint })
}

impl WireValue for ClientFrame {
    open spec fn wire(v: ClientFrameView) -> Seq<u8> {
        match v {
            ClientFrameView::AuthRequest { pubkey } => varint(0) + pubkey,
            ClientFrameView::AuthResponse { signature } => varint(1) + signature,
            ClientFrameView::RegisterTunnel { label, kind, resume_session_id, inspect } => varint(2) + (text_bytes(label) + (kind_bytes(kind) + (opt_bytes(resume_session_id, raw_writer()) + flag_byte(inspect)))),
            ClientFrameView::UnregisterTunnel { tunnel_id } => varint(3) + varint(tunnel_id as nat),
            ClientFrameView::Ping { nonce } => varint(4) + varint(nonce as nat),
            ClientFrameView::Bye => varint(5),
            ClientFrameView::Enroll { admin_token, pubkey, label_hint } => varint(6) + (text_bytes(admin_token) + (pubkey + opt_bytes(label_hint, text_writer()))),
            ClientFrameView::ListPeers => varint(7),
        }
    }

    open spec fn parse(s: Seq<u8>) -> Read<ClientFrameView> {
        match read_u32(s) {
            Err(e) => Err(e),
            Ok((i, s)) => if i == 0 {
                read_auth_request(s)
            } else if i == 1 {
                read_auth_response(s)
            } else if i == 2 {
                read_register_tunnel(s)
            } else if i == 3 {
                read_unregister_tunnel(s)
            } else if i == 4 {
                read_ping(s)
            } else if i == 5 {
                Ok((ClientFrameView::Bye, s))
            } else if i == 6 {
                read_enroll(s)
            } else if i == 7 {
                Ok((ClientFrameView::ListPeers, s))
            } else {
                Err(WireError::UnknownVariant)
            },
        }
    }

    proof fn wire_roundtrip(v: ClientFrame) {
        let end = Seq::<u8>::empty();
        match v {
            ClientFrame::AuthRequest { pubkey } => {
                let t0 = pubkey.0@;
                assert(t0 + end =~= t0);
                lemma_read_num(0, t0);
                lemma_read_raw(pubkey.0@, end);
            },
            ClientFrame::AuthResponse { signature } => {
                let t0 = signature.0@;
                assert(t0 + end =~= t0);
                lemma_read_num(1, t0);
                lemma_read_raw(signature.0@, end);
            },
            ClientFrame::RegisterTunnel { label, kind, resume_session_id, inspect } => {
                let t3 = flag_byte(inspect);
                assert(t3 + end =~= t3);
                let t2 = opt_bytes(session_view(resume_session_id), raw_writer()) + t3;
                let t1 = kind_bytes(kind) + t2;
                let t0 = text_bytes(label@) + t1;
                lemma_read_num(2, t0);
                lemma_read_text(label@, t1);
                lemma_read_kind(kind, t2);
                lemma_opt_session(session_view(resume_session_id), t3);
                lemma_read_flag(inspect, end);
            },
            ClientFrame::UnregisterTunnel { tunnel_id } => {
                let t0 = varint(tunnel_id.0 as nat);
                assert(t0 + end =~= t0);
                lemma_read_num(3, t0);
                lemma_read_num(tunnel_id.0 as nat, end);
            },
            ClientFrame::Ping { nonce } => {
                let t0 = varint(nonce as nat);
                assert(t0 + end =~= t0);
                lemma_read_num(4, t0);
                lemma_read_num(nonce as nat, end);
            },
            ClientFrame::Bye => {
                assert(varint(5) + end =~= varint(5));
                lemma_read_num(5, end);
            },
            ClientFrame::Enroll { admin_token, pubkey, label_hint } => {
                let t2 = opt_bytes(opt_view(label_hint), text_writer());
                assert(t2 + end =~= t2);
                let t1 = pubkey.0@ + t2;
                let t0 = text_bytes(admin_token@) + t1;
                lemma_read_num(6, t0);
                lemma_read_text(admin_token@, t1);
                lemma_read_raw(pubkey.0@, t2);
                lemma_opt_text(opt_view(label_hint), end);
            },
            ClientFrame::ListPeers => {
                assert(varint(7) + end =~= varint(7));
                lemma_read_num(7, end);
            },
        }
    }

    fn encode_wire(&self) -> (r: Vec<u8>) {
        match self {
            ClientFrame::AuthRequest { pubkey } => {
                let mut out = num_to_wire(0);
                put_bytes32(&mut out, &pubkey.0);
                assert(out@ =~= Self::wire(self@));
                out
            },
            ClientFrame::AuthResponse { signature } => {
                let mut out = num_to_wire(1);
                put_bytes64(&mut out, &signature.0);
                assert(out@ =~= Self::wire(self@));
                out
            },
            ClientFrame::RegisterTunnel { label, kind, resume_session_id, inspect } => {
                let mut out = num_to_wire(2);
                put_text(&mut out, label.as_str());
                put_kind(&mut out, kind);
                put_opt_session(&mut out, resume_session_id);
                put_bool(&mut out, *inspect);
                assert(out@ =~= Self::wire(self@));
                out
            },
            ClientFrame::UnregisterTunnel { tunnel_id } => {
                let mut out = num_to_wire(3);
                put_num(&mut out, tunnel_id.0);
                assert(out@ =~= Self::wire(self@));
                out
            },
            ClientFrame::Ping { nonce } => {
                let mut out = num_to_wire(4);
                put_num(&mut out, *nonce);
                assert(out@ =~= Self::wire(self@));
                out
            },
            ClientFrame::Bye => {
                let out = num_to_wire(5);
                assert(out@ =~= Self::wire(self@));
                out
            },
            ClientFrame::Enroll { admin_token, pubkey, label_hint } => {
                let mut out = num_to_wire(6);
                put_text(&mut out, admin_token.as_str());
                put_bytes32(&mut out, &pubkey.0);
                put_opt_text(&mut out, label_hint);
                assert(out@ =~= Self::wire(self@));
                out
            },
            ClientFrame::ListPeers => {
                let out = num_to_wire(7);
                assert(out@ =~= Self::wire(self@));
                out
            },
        }
    }

    fn decode_wire(s: &[u8]) -> (r: Result<ClientFrame, WireError>) {
        let (i, s) = match u32_from_wire(s) {
            Err(e) => return Err(e),
            Ok(p) => p,
        };
        if i == 0 {
            take_auth_request(s)
        } else if i == 1 {
            take_auth_response(s)
        } else if i == 2 {
            take_register_tunnel(s)
        } else if i == 3 {
            take_unregister_tunnel(s)
        } else if i == 4 {
            take_ping(s)
        } else if i == 5 {
            Ok(ClientFrame::Bye)
        } else if i == 6 {
            take_enroll(s)
        } else if i == 7 {
            Ok(ClientFrame::ListPeers)
        } else {
            Err(WireError::UnknownVariant)
        }
    }
}

/// A frame that the server sends on the Control stream.
#[allow(inconsistent_fields)]
#[derive(Clone, Debug, PartialEq, Eq)]
pub enum ServerFrame {
    /// Challenge to be signed by the client.
    AuthChallenge { nonce: Nonce },
    /// Successful authentication; the session id can be used to resume.
    AuthOk { session_id: SessionId },
    /// Authentication failed.
    AuthReject { code: ErrorCode },
    /// Confirms a tunnel registration.
    TunnelRegistered { tunnel_id: TunnelId, public_url: String, public_port: Option<u16> },
    /// Rejects a tunnel registration.
    TunnelRejected { code: ErrorCode, detail: String },
    /// Echo of a client `Ping`.
    Pong { nonce: u64 },
    /// A quota or bandwidth limit was hit.
    RateLimit { tunnel_id: Option<TunnelId>, retry_after_ms: u32 },
    /// Server-initiated shutdown of the session.
    ServerBye { code: ErrorCode },
    /// Enrollment succeeded.
    EnrollOk { authorized_line: String },
    /// Enrollment was refused.
    EnrollRejected { code: ErrorCode },
    /// Apex domains of the relays that the identity may publish on, each
    /// with `:<quic_port>` where the port is not the default. May be empty.
    Peers { relays: Vec<String> },
}

/// What a [`ServerFrame`] says, with its texts and byte arrays as sequences.
#[allow(inconsistent_fields)]
pub enum ServerFrameView {
    AuthChallenge { nonce: Seq<u8> },
    AuthOk { session_id: Seq<u8> },
    AuthReject { code: u16 },
    TunnelRegistered { tunnel_id: u64, public_url: Seq<char>, public_port: Option<u16> },
    TunnelRejected { code: u16, detail: Seq<char> },
    Pong { nonce: u64 },
    RateLimit { tunnel_id: Option<u64>, retry_after_ms: u32 },
    ServerBye { code: u16 },
    EnrollOk { authorized_line: Seq<char> },
    EnrollRejected { code: u16 },
    Peers { relays: Seq<Seq<char>> },
}

impl View for ServerFrame {
    type V = ServerFrameView;

    open spec fn view(&self) -> ServerFrameView {
        match *self {
            ServerFrame::AuthChallenge { nonce } => ServerFrameView::AuthChallenge {
                nonce: nonce.0@,
            },
            ServerFrame::AuthOk { session_id } => ServerFrameView::AuthOk {
                session_id: session_id.0@,
            },
            ServerFrame::AuthReject { code } => ServerFrameView::AuthReject {
                code: code.0,
            },
            ServerFrame::TunnelRegistered { tunnel_id, public_url, public_port } => ServerFrameView::TunnelRegistered {
                tunnel_id: tunnel_id.0,
                public_url: public_url@,
                public_port,
            },
            ServerFrame::TunnelRejected { code, detail } => ServerFrameView::TunnelRejected {
                code: code.0,
                detail: detail@,
            },
            ServerFrame::Pong { nonce } => ServerFrameView::Pong {
                nonce,
            },
            ServerFrame::RateLimit { tunnel_id, retry_after_ms } => ServerFrameView::RateLimit {
                tunnel_id: tunnel_view(tunnel_id),
                retry_after_ms,
            },
            ServerFrame::ServerBye { code } => ServerFrameView::ServerBye {
                code: code.0,
            },
            ServerFrame::EnrollOk { authorized_line } => ServerFrameView::EnrollOk {
                authorized_line: authorized_line@,
            },
            ServerFrame::EnrollRejected { code } => ServerFrameView::EnrollRejected {
                code: code.0,
            },
            ServerFrame::Peers { relays } => ServerFrameView::Peers {
                relays: views(relays@),
            },
        }
    }
}

/// Reads the fields of [`ServerFrame::AuthChallenge`].
pub open spec fn read_auth_challenge(s: Seq<u8>) -> Read<ServerFrameView> {
    match read_raw(s, 32) {
        Err(e) => Err(e),
        Ok((nonce, s)) => Ok((ServerFrameView::AuthChallenge { nonce }, s)),
    }
}

/// Reads the fields of [`ServerFrame::AuthOk`].
pub open spec fn read_auth_ok(s: Seq<u8>) -> Read<ServerFrameView> {
    match read_raw(s, 16) {
        Err(e) => Err(e),
        Ok((session_id, s)) => Ok((ServerFrameView::AuthOk { session_id }, s)),
    }
}

/// Reads the fields of [`ServerFrame::AuthReject`].
pub open spec fn read_auth_reject(s: Seq<u8>) -> Read<ServerFrameView> {
    match read_u16(s) {
        Err(e) => Err(e),
        Ok((code, s)) => Ok((ServerFrameView::AuthReject { code }, s)),
    }
}

/// Reads the fields of [`ServerFrame::TunnelRegistered`].
pub open spec fn read_tunnel_registered(s: Seq<u8>) -> Read<ServerFrameView> {
    match read_u64(s) {
        Err(e) => Err(e),
        Ok((tunnel_id, s)) => match read_text(s) {
            Err(e) => Err(e),
            Ok((public_url, s)) => match read_opt(s, port_reader()) {
                Err(e) => Err(e),
                Ok((public_port, s)) => Ok((ServerFrameView::TunnelRegistered { tunnel_id, public_url, public_port }, s)),
            },
        },
    }
}

/// Reads the fields of [`ServerFrame::TunnelRejected`].
pub open spec fn read_tunnel_rejected(s: Seq<u8>) -> Read<ServerFrameView> {
    match read_u16(s) {
        Err(e) => Err(e),
        Ok((code, s)) => match read_text(s) {
            Err(e) => Err(e),
            Ok((detail, s)) => Ok((ServerFrameView::TunnelRejected { code, detail }, s)),
        },
    }
}

/// Reads the fields of [`ServerFrame::Pong`].
pub open spec fn read_pong(s: Seq<u8>) -> Read<ServerFrameView> {
    match read_u64(s) {
        Err(e) => Err(e),
        Ok((nonce, s)) => Ok((ServerFrameView::Pong { nonce }, s)),
    }
}

/// Reads the fields of [`ServerFrame::RateLimit`].
pub open spec fn read_rate_limit(s: Seq<u8>) -> Read<ServerFrameView> {
    match read_opt(s, num_reader()) {
        Err(e) => Err(e),
        Ok((tunnel_id, s)) => match read_u32(s) {
            Err(e) => Err(e),
            Ok((retry_after_ms, s)) => Ok((ServerFrameView::RateLimit { tunnel_id, retry_after_ms }, s)),
        },
    }
}

/// Reads the fields of [`ServerFrame::ServerBye`].
pub open spec fn read_server_bye(s: Seq<u8>) -> Read<ServerFrameView> {
    match read_u16(s) {
        Err(e) => Err(e),
        Ok((code, s)) => Ok((ServerFrameView::ServerBye { code }, s)),
    }
}

/// Reads the fields of [`ServerFrame::EnrollOk`].
pub open spec fn read_enroll_ok(s: Seq<u8>) -> Read<ServerFrameView> {
    match read_text(s) {
        Err(e) => Err(e),
        Ok((authorized_line, s)) => Ok((ServerFrameView::EnrollOk { authorized_line }, s)),
    }
}

/// Reads the fields of [`ServerFrame::EnrollRejected`].
pub open spec fn read_enroll_rejected(s: Seq<u8>) -> Read<ServerFrameView> {
    match read_u16(s) {
        Err(e) => Err(e),
        Ok((code, s)) => Ok((ServerFrameView::EnrollRejected { code }, s)),
    }
}

/// Reads the fields of [`ServerFrame::Peers`].
pub open spec fn read_peers(s: Seq<u8>) -> Read<ServerFrameView> {
    match read_list(s) {
        Err(e) => Err(e),
        Ok((relays, s)) => Ok((ServerFrameView::Peers { relays }, s)),
    }
}

fn take_auth_challenge(s: &[u8]) -> (r: Result<ServerFrame, WireError>)
    ensures
        match read_auth_challenge(s@) {
            Ok((v, _)) => r is Ok && r->Ok_0@ == v,
            Err(e) => r is Err && r->Err_0 == e,
        },
{
    let (nonce, _rest) = match bytes32_from_wire(s) {
        Err(e) => return Err(e),
        Ok(p) => p,
    };
    Ok(ServerFrame::AuthChallenge { nonce: Nonce(nonce) })
}

fn take_auth_ok(s: &[u8]) -> (r: Result<ServerFrame, WireError>)
    ensures
        match read_auth_ok(s@) {
            Ok((v, _)) => r is Ok && r->Ok_0@ == v,
            Err(e) => r is Err && r->Err_0 == e,
        },
{
    let (session_id, _rest) = match bytes16_from_wire(s) {
        Err(e) => return Err(e),
        Ok(p) => p,
    };
    Ok(ServerFrame::AuthOk { session_id: SessionId(session_id) })
}

fn take_auth_reject(s: &[u8]) -> (r: Result<ServerFrame, WireError>)
    ensures
        match read_auth_reject(s@) {
            Ok((v, _)) => r is Ok && r->Ok_0@ == v,
            Err(e) => r is Err && r->Err_0 == e,
        },
{
    let (code, _rest) = match u16_from_wire(s) {
        Err(e) => return Err(e),
        Ok(p) => p,
    };
    Ok(ServerFrame::AuthReject { code: ErrorCode(code) })
}

fn take_tunnel_registered(s: &[u8]) -> (r: Result<ServerFrame, WireError>)
    ensures
        match read_tunnel_registered(s@) {
            Ok((v, _)) => r is Ok && r->Ok_0@ == v,
            Err(e) => r is Err && r->Err_0 == e,
        },
{
    let (tunnel_id, s) = match u64_from_wire(s) {
        Err(e) => return Err(e),
        Ok(p) => p,
    };
    let (public_url, s) = match string_from_wire(s) {
        Err(e) => return Err(e),
        Ok(p) => p,
    };
    let (public_port, _rest) = match take_opt_port(s) {
        Err(e) => return Err(e),
        Ok(p) => p,
    };
    Ok(ServerFrame::TunnelRegistered { tunnel_id: TunnelId(tunnel_id), public_url, public_port })
}

fn take_tunnel_rejected(s: &[u8]) -> (r: Result<ServerFrame, WireError>)
    ensures
        match read_tunnel_rejected(s@) {
            Ok((v, _)) => r is Ok && r->Ok_0@ == v,
            Err(e) => r is Err && r->Err_0 == e,
        },
{
    let (code, s) = match u16_from_wire(s) {
        Err(e) => return Err(e),
        Ok(p) => p,
    };
    let (detail, _rest) = match string_from_wire(s) {
        Err(e) => return Err(e),
        Ok(p) => p,
    };
    Ok(ServerFrame::TunnelRejected { code: ErrorCode(code), detail })
}

fn take_pong(s: &[u8]) -> (r: Result<ServerFrame, WireError>)
    ensures
        match read_pong(s@) {
            Ok((v, _)) => r is Ok && r->Ok_0@ == v,
            Err(e) => r is Err && r->Err_0 == e,
        },
{
    let (nonce, _rest) = match u64_from_wire(s) {
        Err(e) => return Err(e),
        Ok(p) => p,
    };
    Ok(ServerFrame::Pong { nonce })
}

fn take_rate_limit(s: &[u8]) -> (r: Result<ServerFrame, WireError>)
    ensures
        match read_rate_limit(s@) {
            Ok((v, _)) => r is Ok && r->Ok_0@ == v,
            Err(e) => r is Err && r->Err_0 == e,
        },
{
    let (tunnel_id, s) = match take_opt_num(s) {
        Err(e) => return Err(e),
        Ok(p) => p,
    };
    let (retry_after_ms, _rest) = match u32_from_wire(s) {
        Err(e) => return Err(e),
        Ok(p) => p,
    };
    Ok(ServerFrame::RateLimit { tunnel_id, retry_after_ms })
}

fn take_server_bye(s: &[u8]) -> (r: Result<ServerFrame, WireError>)
    ensures
        match read_server_bye(s@) {
            Ok((v, _)) => r is Ok && r->Ok_0@ == v,
            Err(e) => r is Err && r->Err_0 == e,
        },
{
    let (code, _rest) = match u16_from_wire(s) {
        Err(e) => return Err(e),
        Ok(p) => p,
    };
    Ok(ServerFrame::ServerBye { code: ErrorCode(code) })
}

fn take_enroll_ok(s: &[u8]) -> (r: Result<ServerFrame, WireError>)
    ensures
        match read_enroll_ok(s@) {
            Ok((v, _)) => r is Ok && r->Ok_0@ == v,
            Err(e) => r is Err && r->Err_0 == e,
        },
{
    let (authorized_line, _rest) = match string_from_wire(s) {
        Err(e) => return Err(e),
        Ok(p) => p,
    };
    Ok(ServerFrame::EnrollOk { authorized_line })
}

fn take_enroll_rejected(s: &[u8]) -> (r: Result<ServerFrame, WireError>)
    ensures
        match read_enroll_rejected(s@) {
            Ok((v, _)) => r is Ok && r->Ok_0@ == v,
            Err(e) => r is Err && r->Err_0 == e,
        },
{
    let (code, _rest) = match u16_from_wire(s) {
        Err(e) => return Err(e),
        Ok(p) => p,
    };
    Ok(ServerFrame::EnrollRejected { code: ErrorCode(code) })
}

fn take_peers(s: &[u8]) -> (r: Result<ServerFrame, WireError>)
    ensures
        match read_peers(s@) {
            Ok((v, _)) => r is Ok && r->Ok_0@ == v,
            Err(e) => r is Err && r->Err_0 == e,
        },
{
    let (relays, _rest) = match take_list(s) {
        Err(e) => return Err(e),
        Ok(p) => p,
    };
    Ok(ServerFrame::Peers { relays })
}

impl WireValue for ServerFrame {
    open spec fn wire(v: ServerFrameView) -> Seq<u8> {
        match v {
            ServerFrameView::AuthChallenge { nonce } => varint(0) + nonce,
            ServerFrameView::AuthOk { session_id } => varint(1) + session_id,
            ServerFrameView::AuthReject { code } => varint(2) + varint(code as nat),
            ServerFrameView::TunnelRegistered { tunnel_id, public_url, public_port } => varint(3) + (varint(tunnel_id as nat) + (text_bytes(public_url) + opt_bytes(public_port, port_writer()))),
            ServerFrameView::TunnelRejected { code, detail } => varint(4) + (varint(code as nat) + text_bytes(detail)),
            ServerFrameView::Pong { nonce } => varint(5) + varint(nonce as nat),
            ServerFrameView::RateLimit { tunnel_id, retry_after_ms } => varint(6) + (opt_bytes(tunnel_id, num_writer()) + varint(retry_after_ms as nat)),
            ServerFrameView::ServerBye { code } => varint(7) + varint(code as nat),
            ServerFrameView::EnrollOk { authorized_line } => varint(8) + text_bytes(authorized_line),
            ServerFrameView::EnrollRejected { code } => varint(9) + varint(code as nat),
            ServerFrameView::Peers { relays } => varint(10) + list_bytes(relays),
        }
    }

    open spec fn parse(s: Seq<u8>) -> Read<ServerFrameView> {
        match read_u32(s) {
            Err(e) => Err(e),
            Ok((i, s)) => if i == 0 {
                read_auth_challenge(s)
            } else if i == 1 {
                read_auth_ok(s)
            } else if i == 2 {
                read_auth_reject(s)
            } else if i == 3 {
                read_tunnel_registered(s)
            } else if i == 4 {
                read_tunnel_rejected(s)
            } else if i == 5 {
                read_pong(s)
            } else if i == 6 {
                read_rate_limit(s)
            } else if i == 7 {
                read_server_bye(s)
            } else if i == 8 {
                read_enroll_ok(s)
            } else if i == 9 {
                read_enroll_rejected(s)
            } else if i == 10 {
                read_peers(s)
            } else {
                Err(WireError::UnknownVariant)
            },
        }
    }

    proof fn wire_roundtrip(v: ServerFrame) {
        let end = Seq::<u8>::empty();
        match v {
            ServerFrame::AuthChallenge { nonce } => {
                let t0 = nonce.0@;
                assert(t0 + end =~= t0);
                lemma_read_num(0, t0);
                lemma_read_raw(nonce.0@, end);
            },
            ServerFrame::AuthOk { session_id } => {
                let t0 = session_id.0@;
                assert(t0 + end =~= t0);
                lemma_read_num(1, t0);
                lemma_read_raw(session_id.0@, end);
            },
            ServerFrame::AuthReject { code } => {
                let t0 = varint(code.0 as nat);
                assert(t0 + end =~= t0);
                lemma_read_num(2, t0);
                lemma_read_num(code.0 as nat, end);
            },
            ServerFrame::TunnelRegistered { tunnel_id, public_url, public_port } => {
                let t2 = opt_bytes(public_port, port_writer());
                assert(t2 + end =~= t2);
                let t1 = text_bytes(public_url@) + t2;
                let t0 = varint(tunnel_id.0 as nat) + t1;
                lemma_read_num(3, t0);
                lemma_read_num(tunnel_id.0 as nat, t1);
                lemma_read_text(public_url@, t2);
                lemma_opt_port(public_port, end);
            },
            ServerFrame::TunnelRejected { code, detail } => {
                let t1 = text_bytes(detail@);
                assert(t1 + end =~= t1);
                let t0 = varint(code.0 as nat) + t1;
                lemma_read_num(4, t0);
                lemma_read_num(code.0 as nat, t1);
                lemma_read_text(detail@, end);
            },
            ServerFrame::Pong { nonce } => {
                let t0 = varint(nonce as nat);
                assert(t0 + end =~= t0);
                lemma_read_num(5, t0);
                lemma_read_num(nonce as nat, end);
            },
            ServerFrame::RateLimit { tunnel_id, retry_after_ms } => {
                let t1 = varint(retry_after_ms as nat);
                assert(t1 + end =~= t1);
                let t0 = opt_bytes(tunnel_view(tunnel_id), num_writer()) + t1;
                lemma_read_num(6, t0);
                lemma_opt_num(tunnel_view(tunnel_id), t1);
                lemma_read_num(retry_after_ms as nat, end);
            },
            ServerFrame::ServerBye { code } => {
                let t0 = varint(code.0 as nat);
                assert(t0 + end =~= t0);
                lemma_read_num(7, t0);
                lemma_read_num(code.0 as nat, end);
            },
            ServerFrame::EnrollOk { authorized_line } => {
                let t0 = text_bytes(authorized_line@);
                assert(t0 + end =~= t0);
                lemma_read_num(8, t0);
                lemma_read_text(authorized_line@, end);
            },
            ServerFrame::EnrollRejected { code } => {
                let t0 = varint(code.0 as nat);
                assert(t0 + end =~= t0);
                lemma_read_num(9, t0);
                lemma_read_num(code.0 as nat, end);
            },
            ServerFrame::Peers { relays } => {
                let t0 = list_bytes(views(relays@));
                assert(t0 + end =~= t0);
                lemma_read_num(10, t0);
                lemma_read_list(views(relays@), end);
            },
        }
    }

    fn encode_wire(&self) -> (r: Vec<u8>) {
        match self {
            ServerFrame::AuthChallenge { nonce } => {
                let mut out = num_to_wire(0);
                put_bytes32(&mut out, &nonce.0);
                assert(out@ =~= Self::wire(self@));
                out
            },
            ServerFrame::AuthOk { session_id } => {
                let mut out = num_to_wire(1);
                put_bytes16(&mut out, &session_id.0);
                assert(out@ =~= Self::wire(self@));
                out
            },
            ServerFrame::AuthReject { code } => {
                let mut out = num_to_wire(2);
                put_num(&mut out, code.0 as u64);
                assert(out@ =~= Self::wire(self@));
                out
            },
            ServerFrame::TunnelRegistered { tunnel_id, public_url, public_port } => {
                let mut out = num_to_wire(3);
                put_num(&mut out, tunnel_id.0);
                put_text(&mut out, public_url.as_str());
                put_opt_port(&mut out, public_port);
                assert(out@ =~= Self::wire(self@));
                out
            },
            ServerFrame::TunnelRejected { code, detail } => {
                let mut out = num_to_wire(4);
                put_num(&mut out, code.0 as u64);
                put_text(&mut out, detail.as_str());
                assert(out@ =~= Self::wire(self@));
                out
            },
            ServerFrame::Pong { nonce } => {
                let mut out = num_to_wire(5);
                put_num(&mut out, *nonce);
                assert(out@ =~= Self::wire(self@));
                out
            },
            ServerFrame::RateLimit { tunnel_id, retry_after_ms } => {
                let mut out = num_to_wire(6);
                put_opt_num(&mut out, tunnel_id);
                put_num(&mut out, *retry_after_ms as u64);
                assert(out@ =~= Self::wire(self@));
                out
            },
            ServerFrame::ServerBye { code } => {
                let mut out = num_to_wire(7);
                put_num(&mut out, code.0 as u64);
                assert(out@ =~= Self::wire(self@));
                out
            },
            ServerFrame::EnrollOk { authorized_line } => {
                let mut out = num_to_wire(8);
                put_text(&mut out, authorized_line.as_str());
                assert(out@ =~= Self::wire(self@));
                out
            },
            ServerFrame::EnrollRejected { code } => {
                let mut out = num_to_wire(9);
                put_num(&mut out, code.0 as u64);
                assert(out@ =~= Self::wire(self@));
                out
            },
            ServerFrame::Peers { relays } => {
                let mut out = num_to_wire(10);
                put_list(&mut out, relays);
                assert(out@ =~= Self::wire(self@));
                out
            },
        }
    }

    fn decode_wire(s: &[u8]) -> (r: Result<ServerFrame, WireError>) {
        let (i, s) = match u32_from_wire(s) {
            Err(e) => return Err(e),
            Ok(p) => p,
        };
        if i == 0 {
            take_auth_challenge(s)
        } else if i == 1 {
            take_auth_ok(s)
        } else if i == 2 {
            take_auth_reject(s)
        } else if i == 3 {
            take_tunnel_registered(s)
        } else if i == 4 {
            take_tunnel_rejected(s)
        } else if i == 5 {
            take_pong(s)
        } else if i == 6 {
            take_rate_limit(s)
        } else if i == 7 {
            take_server_bye(s)
        } else if i == 8 {
            take_enroll_ok(s)
        } else if i == 9 {
            take_enroll_rejected(s)
        } else if i == 10 {
            take_peers(s)
        } else {
            Err(WireError::UnknownVariant)
        }
    }
}

/// Passive inspection prelude, sent by the server between the Data-stream
/// header and the first tunneled byte when the tunnel asked for it.
#[derive(Clone, Debug, PartialEq, Eq)]
pub struct InspectionPrelude {
    /// Seconds since the UNIX epoch at which the public side accepted the connection.
    pub accept_unix_secs: u64,
    /// Peer address that hit the public port, as `<ip>:<port>`.
    pub peer: String,
    /// Present for HTTP tunnels.
    pub http: Option<HttpMetadata>,
}

/// Metadata that the router derived for an HTTP tunnel.
#[derive(Clone, Debug, PartialEq, Eq)]
pub struct HttpMetadata {
    /// Host header (plain HTTP) or SNI (HTTPS passthrough); empty when there was neither.
    pub host: String,
    /// TLS ClientHello SNI, for HTTPS passthrough.
    pub sni: Option<String>,
}

/// What an [`HttpMetadata`] says.
pub struct HttpMetadataView {
    pub host: Seq<char>,
    pub sni: Option<Seq<char>>,
}

/// What an [`InspectionPrelude`] says.
pub struct InspectionPreludeView {
    pub accept_unix_secs: u64,
    pub peer: Seq<char>,
    pub http: Option<HttpMetadataView>,
}

impl View for HttpMetadata {
    type V = HttpMetadataView;

    open spec fn view(&self) -> HttpMetadataView {
        HttpMetadataView { host: self.host@, sni: opt_view(self.sni) }
    }
}

/// The view of optional metadata.
pub open spec fn http_view(o: Option<HttpMetadata>) -> Option<HttpMetadataView> {
    match o {
        Some(h) => Some(h@),
        None => None,
    }
}

impl View for InspectionPrelude {
    type V = InspectionPreludeView;

    open spec fn view(&self) -> InspectionPreludeView {
        InspectionPreludeView {
            accept_unix_secs: self.accept_unix_secs,
            peer: self.peer@,
            http: http_view(self.http),
        }
    }
}

/// The bytes of HTTP metadata.
pub open spec fn http_bytes(h: HttpMetadataView) -> Seq<u8> {
    text_bytes(h.host) + opt_bytes(h.sni, text_writer())
}

/// Reads HTTP metadata.
pub open spec fn read_http(s: Seq<u8>) -> Read<HttpMetadataView> {
    match read_text(s) {
        Err(e) => Err(e),
        Ok((host, s)) => match read_opt(s, text_reader()) {
            Err(e) => Err(e),
            Ok((sni, s)) => Ok((HttpMetadataView { host, sni }, s)),
        },
    }
}

pub open spec fn http_writer() -> spec_fn(HttpMetadataView) -> Seq<u8> {
    |h: HttpMetadataView| http_bytes(h)
}

pub open spec fn http_reader() -> spec_fn(Seq<u8>) -> Read<HttpMetadataView> {
    |s: Seq<u8>| read_http(s)
}

proof fn lemma_opt_http(o: Option<HttpMetadataView>, rest: Seq<u8>)
    requires
        opt_bytes(o, http_writer()).len() <= usize::MAX,
    ensures
        read_opt(opt_bytes(o, http_writer()) + rest, http_reader()) == Ok::<_, WireError>((o, rest)),
{
    if o is Some {
        let h = o->0;
        let t = opt_bytes(h.sni, text_writer()) + rest;
        assert(opt_bytes(o, http_writer()).len() == 1 + http_bytes(h).len());
        assert(encode_utf8(h.host).len() <= text_bytes(h.host).len());
        assert(http_bytes(h) + rest =~= text_bytes(h.host) + t);
        lemma_read_text(h.host, t);
        lemma_opt_text(h.sni, rest);
    }
    lemma_read_opt(o, http_writer(), http_reader(), rest);
}

fn put_opt_http(out: &mut Vec<u8>, o: &Option<HttpMetadata>)
    ensures
        final(out)@ == old(out)@ + opt_bytes(http_view(*o), http_writer()),
{
    match o {
        None => put_bool(out, false),
        Some(h) => {
            put_bool(out, true);
            put_text(out, h.host.as_str());
            put_opt_text(out, &h.sni);
            assert(out@ =~= old(out)@ + opt_bytes(http_view(*o), http_writer()));
        },
    }
}

fn take_opt_http(s: &[u8]) -> (r: Result<(Option<HttpMetadata>, &[u8]), WireError>)
    ensures
        match read_opt(s@, http_reader()) {
            Ok((o, rest)) => r is Ok && http_view(r->Ok_0.0) == o && r->Ok_0.1@ == rest,
            Err(e) => r is Err && r->Err_0 == e,
        },
{
    match tag_from_wire(s) {
        Err(e) => Err(e),
        Ok((false, rest)) => Ok((None, rest)),
        Ok((true, rest)) => {
            let (host, rest) = match string_from_wire(rest) {
                Err(e) => return Err(e),
                Ok(p) => p,
            };
            let (sni, rest) = match take_opt_text(rest) {
                Err(e) => return Err(e),
                Ok(p) => p,
            };
            Ok((Some(HttpMetadata { host, sni }), rest))
        },
    }
}

impl WireValue for InspectionPrelude {
    open spec fn wire(v: InspectionPreludeView) -> Seq<u8> {
        varint(v.accept_unix_secs as nat) + (text_bytes(v.peer) + opt_bytes(v.http, http_writer()))
    }

    open spec fn parse(s: Seq<u8>) -> Read<InspectionPreludeView> {
        match read_u64(s) {
            Err(e) => Err(e),
            Ok((accept_unix_secs, s)) => match read_text(s) {
                Err(e) => Err(e),
                Ok((peer, s)) => match read_opt(s, http_reader()) {
                    Err(e) => Err(e),
                    Ok((http, s)) => Ok((InspectionPreludeView { accept_unix_secs, peer, http }, s)),
                },
            },
        }
    }

    proof fn wire_roundtrip(v: InspectionPrelude) {
        let end = Seq::<u8>::empty();
        let t1 = opt_bytes(http_view(v.http), http_writer());
        let t0 = text_bytes(v.peer@) + t1;
        assert(encode_utf8(v.peer@).len() <= text_bytes(v.peer@).len());
        lemma_read_num(v.accept_unix_secs as nat, t0);
        lemma_read_text(v.peer@, t1);
        lemma_opt_http(http_view(v.http), end);
        assert(t1 + end =~= t1);
    }

    fn encode_wire(&self) -> (r: Vec<u8>) {
        let mut out = num_to_wire(self.accept_unix_secs);
        put_text(&mut out, self.peer.as_str());
        put_opt_http(&mut out, &self.http);
        assert(out@ =~= Self::wire(self@));
        out
    }

    fn decode_wire(s: &[u8]) -> (r: Result<InspectionPrelude, WireError>) {
        let (accept_unix_secs, s) = match u64_from_wire(s) {
            Err(e) => return Err(e),
            Ok(p) => p,
        };
        let (peer, s) = match string_from_wire(s) {
            Err(e) => return Err(e),
            Ok(p) => p,
        };
        let (http, _rest) = match take_opt_http(s) {
            Err(e) => return Err(e),
            Ok(p) => p,
        };
        Ok(InspectionPrelude { accept_unix_secs, peer, http })
    }
}

} // verus!
