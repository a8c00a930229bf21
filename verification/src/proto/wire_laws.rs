//! What the bytes on the wire are: numbers, texts, frames, headers and codes.

use crate::bytes::{le, le_value};
use crate::codec::hex_value;
use crate::proto::auth::signing_payload_spec;
use crate::proto::consts::supported_alpn_spec;
use crate::proto::error::{code_name_spec, error_code_text, hex4, ErrorCode};
use crate::proto::fields::{list_bytes, opt_bytes, read_opt, texts_bytes};
use crate::proto::frames::{
    ClientFrame, ClientFrameView, InspectionPrelude, InspectionPreludeView, ServerFrame, ServerFrameView, TunnelKind,
    WireValue,
};
use crate::proto::framing::{frame_spec, law_prefix_roundtrip, prefix_spec, FramingError};
use crate::proto::ids::Nonce;
use crate::proto::mux::{client_opened, flag_of, server_opened, MuxFlag, MuxHeader, MuxHeaderError};
use crate::proto::stream::{kind_of, DataHeader, StreamKind, StreamKindError};
use crate::proto::wire::{
    flag_byte, leb_read, lemma_read_num, read_bool, read_num, read_tag, read_text, read_u16, read_u32, read_u64,
    text_bytes, varint, Read, WireError,
};
use crate::text::upper_hex;
use vstd::prelude::*;
use vstd::utf8::{encode_utf8, valid_utf8};

verus! {

/// The weight of the group of seven bits at `i`.
pub open spec fn group_weight(i: nat) -> nat
    decreases i,
{
    if i == 0 {
        1
    } else {
        128 * group_weight((i - 1) as nat)
    }
}

/// The number that the groups of seven bits in the first `k` bytes make, the
/// low ones first.
pub open spec fn groups_value(s: Seq<u8>, k: nat) -> nat
    decreases k,
{
    if k == 0 {
        0
    } else {
        groups_value(s, (k - 1) as nat) + group_weight((k - 1) as nat) * (s[k - 1] as nat % 128)
    }
}

proof fn lemma_one_group(s: Seq<u8>)
    requires
        s.len() > 0,
    ensures
        groups_value(s, 1) == s[0] as nat % 128,
{
    let w = group_weight(0);
    let g = s[0] as nat % 128;
    assert(w == 1);
    assert(groups_value(s, 0) == 0);
    assert(w * g == g) by (nonlinear_arith)
        requires
            w == 1,
    ;
}

proof fn lemma_groups_shift(s: Seq<u8>, k: nat)
    requires
        0 < k <= s.len(),
    ensures
        groups_value(s, k) == s[0] as nat % 128 + 128 * groups_value(s.skip(1), (k - 1) as nat),
    decreases k,
{
    if k == 1 {
        lemma_one_group(s);
        assert(groups_value(s.skip(1), 0) == 0);
    } else {
        lemma_groups_shift(s, (k - 1) as nat);
        let w = group_weight((k - 2) as nat);
        let g = s[k - 1] as nat % 128;
        assert(s.skip(1)[k - 2] == s[k - 1]);
        assert(group_weight((k - 1) as nat) == 128 * w);
        assert((128 * w) * g == 128 * (w * g)) by (nonlinear_arith);
    }
}

/// A number is written in groups of seven bits, the low ones first, with the
/// high bit set on every byte but the last, and in as few bytes as it takes.
pub proof fn law_number_is_written_in_groups(n: nat)
    ensures
        varint(n).len() > 0,
        varint(n).last() < 128,
        varint(n).len() > 1 ==> varint(n).last() > 0,
        forall|i: int| 0 <= i < varint(n).len() - 1 ==> #[trigger] varint(n)[i] >= 128,
        groups_value(varint(n), varint(n).len()) == n,
    decreases n,
{
    let s = varint(n);
    if n < 128 {
        lemma_one_group(s);
    } else {
        let t = varint(n / 128);
        law_number_is_written_in_groups(n / 128);
        assert(s.skip(1) =~= t);
        lemma_groups_shift(s, s.len());
        assert(s.last() == t.last());
        assert forall|i: int| 0 <= i < s.len() - 1 implies #[trigger] s[i] >= 128 by {
            if i > 0 {
                assert(s[i] == t[i - 1]);
            }
        }
    }
}

/// A number ends at the first byte without the high bit, and is refused when
/// there is none within the limit or within the input.
pub proof fn law_number_ends_at_low_byte(s: Seq<u8>, k: int, limit: nat)
    requires
        0 <= k,
        forall|i: int| 0 <= i < k && i < s.len() ==> #[trigger] s[i] >= 128,
    ensures
        k < s.len() && k < limit && s[k] < 128 ==> leb_read(s, limit) == Ok::<(nat, Seq<u8>), WireError>(
            (groups_value(s, (k + 1) as nat), s.skip(k + 1)),
        ),
        k == s.len() && k < limit ==> leb_read(s, limit) == Err::<(nat, Seq<u8>), WireError>(
            WireError::UnexpectedEnd,
        ),
        k == limit && k <= s.len() ==> leb_read(s, limit) == Err::<(nat, Seq<u8>), WireError>(
            WireError::BadVarint,
        ),
    decreases k,
{
    if k == 0 && s.len() > 0 {
        lemma_one_group(s);
    }
    if k > 0 && s.len() > 0 && limit > 0 {
        let t = s.skip(1);
        assert(s[0] >= 128);
        assert forall|i: int| 0 <= i < k - 1 && i < t.len() implies #[trigger] t[i] >= 128 by {
            assert(t[i] == s[i + 1]);
        }
        law_number_ends_at_low_byte(t, k - 1, (limit - 1) as nat);
        if k < s.len() {
            assert(t[k - 1] == s[k]);
            lemma_groups_shift(s, (k + 1) as nat);
            assert(t.skip(k) =~= s.skip(k + 1));
        }
    }
}

/// A number that is too large for its type is refused: the types take at most
/// three, five and ten bytes.
pub proof fn law_too_large_a_number_refused(n: nat, rest: Seq<u8>)
    ensures
        read_u16(varint(n) + rest) is Ok <==> n < 0x1_0000,
        read_u32(varint(n) + rest) is Ok <==> n < 0x1_0000_0000,
        read_u64(varint(n) + rest) is Ok <==> n < 0x1_0000_0000_0000_0000,
        n >= 0x1_0000 ==> read_u16(varint(n) + rest) == Err::<(u16, Seq<u8>), WireError>(
            WireError::BadVarint,
        ),
        n >= 0x1_0000_0000 ==> read_u32(varint(n) + rest) == Err::<(u32, Seq<u8>), WireError>(
            WireError::BadVarint,
        ),
        n >= 0x1_0000_0000_0000_0000 ==> read_u64(varint(n) + rest) == Err::<
            (u64, Seq<u8>),
            WireError,
        >(WireError::BadVarint),
{
    lemma_read_num(n, rest);
    if n > u16::MAX {
        lemma_too_large(n, 3, u16::MAX as nat, rest);
    }
    if n > u32::MAX {
        lemma_too_large(n, 5, u32::MAX as nat, rest);
    }
    if n > u64::MAX {
        lemma_too_large(n, 10, u64::MAX as nat, rest);
    }
}

proof fn lemma_too_large(n: nat, limit: nat, max: nat, rest: Seq<u8>)
    requires
        n > max,
    ensures
        read_num(varint(n) + rest, limit, max) == Err::<(nat, Seq<u8>), WireError>(
            WireError::BadVarint,
        ),
{
    law_number_is_written_in_groups(n);
    let v = varint(n);
    let s = v + rest;
    let k = v.len() - 1;
    assert forall|i: int| 0 <= i < k && i < s.len() implies #[trigger] s[i] >= 128 by {
        assert(s[i] == v[i]);
    }
    if k < limit {
        law_number_ends_at_low_byte(s, k, limit);
        assert(s[k] == v.last());
        lemma_groups_front(v, rest, v.len());
    } else {
        law_number_ends_at_low_byte(s, limit as int, limit);
    }
}

proof fn lemma_groups_front(v: Seq<u8>, rest: Seq<u8>, k: nat)
    requires
        k <= v.len(),
    ensures
        groups_value(v + rest, k) == groups_value(v, k),
    decreases k,
{
    if k > 0 {
        lemma_groups_front(v, rest, (k - 1) as nat);
        assert((v + rest)[k - 1] == v[k - 1]);
    }
}

/// A flag and the tag of an optional value are one byte, 0 or 1; any other
/// byte is refused, and so is the end of the input.
pub proof fn law_flags_are_zero_or_one(b: u8, rest: Seq<u8>)
    ensures
        flag_byte(false) == seq![0u8],
        flag_byte(true) == seq![1u8],
        read_bool(seq![b] + rest) == (if b == 0 {
            Ok::<(bool, Seq<u8>), WireError>((false, rest))
        } else if b == 1 {
            Ok((true, rest))
        } else {
            Err(WireError::BadBool)
        }),
        read_tag(seq![b] + rest) == (if b == 0 {
            Ok::<(bool, Seq<u8>), WireError>((false, rest))
        } else if b == 1 {
            Ok((true, rest))
        } else {
            Err(WireError::BadOption)
        }),
        read_bool(Seq::empty()) == Err::<(bool, Seq<u8>), WireError>(WireError::UnexpectedEnd),
        read_tag(Seq::empty()) == Err::<(bool, Seq<u8>), WireError>(WireError::UnexpectedEnd),
{
    assert((seq![b] + rest).skip(1) =~= rest);
    assert(flag_byte(false) =~= seq![0u8]);
    assert(flag_byte(true) =~= seq![1u8]);
}

/// A missing value is one byte, and a present one follows its tag.
pub proof fn law_optional_value<V>(v: V, w: spec_fn(V) -> Seq<u8>, r: spec_fn(Seq<u8>) -> Read<V>, s: Seq<u8>)
    ensures
        opt_bytes(None, w) == seq![0u8],
        opt_bytes(Some(v), w) == seq![1u8] + w(v),
        read_opt(seq![0u8] + s, r) == Ok::<(Option<V>, Seq<u8>), WireError>((None, s)),
        read_opt(seq![1u8] + s, r) is Ok <==> r(s) is Ok,
        r(s) matches Ok((x, rest)) ==> read_opt(seq![1u8] + s, r) == Ok::<
            (Option<V>, Seq<u8>),
            WireError,
        >((Some(x), rest)),
{
    law_flags_are_zero_or_one(0, s);
    law_flags_are_zero_or_one(1, s);
}

/// A text is its length in bytes and its UTF-8 bytes. Bytes that are no UTF-8
/// are refused, and so is a text that is cut short.
pub proof fn law_text_is_length_and_bytes(t: Seq<char>, bytes: Seq<u8>, rest: Seq<u8>, cut: int)
    requires
        bytes.len() <= usize::MAX,
        0 <= cut < bytes.len(),
    ensures
        text_bytes(t) == varint(encode_utf8(t).len()) + encode_utf8(t),
        !valid_utf8(bytes) ==> read_text(varint(bytes.len()) + bytes + rest) == Err::<
            (Seq<char>, Seq<u8>),
            WireError,
        >(WireError::BadUtf8),
        read_text(varint(bytes.len()) + bytes.take(cut)) == Err::<(Seq<char>, Seq<u8>), WireError>(
            WireError::UnexpectedEnd,
        ),
{
    assert(varint(bytes.len()) + bytes + rest =~= varint(bytes.len()) + (bytes + rest));
    lemma_read_num(bytes.len(), bytes + rest);
    assert((bytes + rest).take(bytes.len() as int) =~= bytes);
    lemma_read_num(bytes.len(), bytes.take(cut));
}

/// A list is the number of its texts and the texts in order.
pub proof fn law_list_is_count_and_texts(ts: Seq<Seq<char>>, t: Seq<char>)
    ensures
        list_bytes(ts) == varint(ts.len()) + texts_bytes(ts),
        texts_bytes(Seq::empty()) == Seq::<u8>::empty(),
        texts_bytes(ts.push(t)) == texts_bytes(ts) + text_bytes(t),
    decreases ts.len(),
{
    let more = ts.push(t);
    reveal_with_fuel(texts_bytes, 2);
    if ts.len() == 0 {
        assert(more.skip(1) =~= Seq::empty());
        assert(texts_bytes(more) =~= text_bytes(t));
    } else {
        law_list_is_count_and_texts(ts.skip(1), t);
        assert(more.skip(1) =~= ts.skip(1).push(t));
        assert(texts_bytes(more) =~= texts_bytes(ts) + text_bytes(t));
    }
}

proof fn lemma_small(n: nat)
    requires
        n < 128,
    ensures
        varint(n) == seq![n as u8],
{
}

/// A client's frame starts with the byte of its variant, and its fields follow
/// in order.
pub proof fn law_client_frame_bytes(
    key: Seq<u8>,
    text: Seq<char>,
    n: u64,
    port: u16,
    id: Seq<u8>,
    flag: bool,
    hint: Seq<char>,
)
    ensures
        ClientFrame::wire(ClientFrameView::AuthRequest { pubkey: key }) == seq![0u8] + key,
        ClientFrame::wire(ClientFrameView::AuthResponse { signature: key }) == seq![1u8] + key,
        ClientFrame::wire(
            ClientFrameView::RegisterTunnel {
                label: text,
                kind: TunnelKind::Http,
                resume_session_id: None,
                inspect: flag,
            },
        ) == seq![2u8] + text_bytes(text) + seq![0u8, 0u8] + flag_byte(flag),
        ClientFrame::wire(
            ClientFrameView::RegisterTunnel {
                label: text,
                kind: TunnelKind::Tcp { remote_port: None },
                resume_session_id: Some(id),
                inspect: flag,
            },
        ) == seq![2u8] + text_bytes(text) + seq![1u8, 0u8, 1u8] + id + flag_byte(flag),
        ClientFrame::wire(
            ClientFrameView::RegisterTunnel {
                label: text,
                kind: TunnelKind::Tcp { remote_port: Some(port) },
                resume_session_id: None,
                inspect: flag,
            },
        ) == seq![2u8] + text_bytes(text) + seq![1u8, 1u8] + varint(port as nat) + seq![0u8] + flag_byte(
            flag,
        ),
        ClientFrame::wire(ClientFrameView::UnregisterTunnel { tunnel_id: n }) == seq![3u8] + varint(
            n as nat,
        ),
        ClientFrame::wire(ClientFrameView::Ping { nonce: n }) == seq![4u8] + varint(n as nat),
        ClientFrame::wire(ClientFrameView::Bye) == seq![5u8],
        ClientFrame::wire(
            ClientFrameView::Enroll { admin_token: text, pubkey: key, label_hint: Some(hint) },
        ) == seq![6u8] + text_bytes(text) + key + seq![1u8] + text_bytes(hint),
        ClientFrame::wire(
            ClientFrameView::Enroll { admin_token: text, pubkey: key, label_hint: None },
        ) == seq![6u8] + text_bytes(text) + key + seq![0u8],
        ClientFrame::wire(ClientFrameView::ListPeers) == seq![7u8],
{
    lemma_small(0);
    lemma_small(1);
    lemma_small(2);
    lemma_small(3);
    lemma_small(4);
    lemma_small(5);
    lemma_small(6);
    lemma_small(7);
}

/// A client's frame of a later revision is refused.
pub proof fn law_unknown_client_frame_refused(n: nat, rest: Seq<u8>)
    requires
        8 <= n < 0x1_0000_0000,
    ensures
        ClientFrame::parse(varint(n) + rest) == Err::<(ClientFrameView, Seq<u8>), WireError>(
            WireError::UnknownVariant,
        ),
{
    lemma_read_num(n, rest);
}

/// A server's frame starts with the byte of its variant, and its fields follow
/// in order.
pub proof fn law_server_frame_bytes(
    raw: Seq<u8>,
    text: Seq<char>,
    n: u64,
    code: u16,
    port: u16,
    ms: u32,
    names: Seq<Seq<char>>,
)
    ensures
        ServerFrame::wire(ServerFrameView::AuthChallenge { nonce: raw }) == seq![0u8] + raw,
        ServerFrame::wire(ServerFrameView::AuthOk { session_id: raw }) == seq![1u8] + raw,
        ServerFrame::wire(ServerFrameView::AuthReject { code }) == seq![2u8] + varint(code as nat),
        ServerFrame::wire(
            ServerFrameView::TunnelRegistered {
                tunnel_id: n,
                public_url: text,
                public_port: Some(port),
            },
        ) == seq![3u8] + varint(n as nat) + text_bytes(text) + seq![1u8] + varint(port as nat),
        ServerFrame::wire(
            ServerFrameView::TunnelRegistered { tunnel_id: n, public_url: text, public_port: None },
        ) == seq![3u8] + varint(n as nat) + text_bytes(text) + seq![0u8],
        ServerFrame::wire(ServerFrameView::TunnelRejected { code, detail: text }) == seq![4u8]
            + varint(code as nat) + text_bytes(text),
        ServerFrame::wire(ServerFrameView::Pong { nonce: n }) == seq![5u8] + varint(n as nat),
        ServerFrame::wire(
            ServerFrameView::RateLimit { tunnel_id: Some(n), retry_after_ms: ms },
        ) == seq![6u8, 1u8] + varint(n as nat) + varint(ms as nat),
        ServerFrame::wire(
            ServerFrameView::RateLimit { tunnel_id: None, retry_after_ms: ms },
        ) == seq![6u8, 0u8] + varint(ms as nat),
        ServerFrame::wire(ServerFrameView::ServerBye { code }) == seq![7u8] + varint(code as nat),
        ServerFrame::wire(ServerFrameView::EnrollOk { authorized_line: text }) == seq![8u8]
            + text_bytes(text),
        ServerFrame::wire(ServerFrameView::EnrollRejected { code }) == seq![9u8] + varint(
            code as nat,
        ),
        ServerFrame::wire(ServerFrameView::Peers { relays: names }) == seq![10u8] + list_bytes(
            names,
        ),
{
    lemma_small(0);
    lemma_small(1);
    lemma_small(2);
    lemma_small(3);
    lemma_small(4);
    lemma_small(5);
    lemma_small(6);
    lemma_small(7);
    lemma_small(8);
    lemma_small(9);
    lemma_small(10);
}

/// A server's frame of a later revision is refused.
pub proof fn law_unknown_server_frame_refused(n: nat, rest: Seq<u8>)
    requires
        11 <= n < 0x1_0000_0000,
    ensures
        ServerFrame::parse(varint(n) + rest) == Err::<(ServerFrameView, Seq<u8>), WireError>(
            WireError::UnknownVariant,
        ),
{
    lemma_read_num(n, rest);
}

/// A prelude is the time, the peer and the metadata, in this order.
pub proof fn law_prelude_bytes(p: InspectionPreludeView)
    ensures
        p.http is None ==> InspectionPrelude::wire(p) == varint(p.accept_unix_secs as nat) + text_bytes(
            p.peer,
        ) + seq![0u8],
        p.http matches Some(h) ==> h.sni is None ==> InspectionPrelude::wire(p) == varint(
            p.accept_unix_secs as nat,
        ) + text_bytes(p.peer) + seq![1u8] + text_bytes(h.host) + seq![0u8],
        p.http matches Some(h) ==> h.sni is Some ==> InspectionPrelude::wire(p) == varint(
            p.accept_unix_secs as nat,
        ) + text_bytes(p.peer) + seq![1u8] + text_bytes(h.host) + seq![1u8] + text_bytes(h.sni->0),
{
}

/// A frame whose prefix announces more than 65536 bytes is refused, and one
/// that announces at most that many is waited for.
pub proof fn law_frame_size_is_capped(n: u32, rest: Seq<u8>)
    requires
        rest.len() < n,
    ensures
        n > 65536 ==> frame_spec::<ClientFrame>(varint(n as nat) + rest) == Err::<
            (ClientFrameView, nat),
            FramingError,
        >(FramingError::FrameTooLarge { size: n as usize, max: 65536 }),
        n <= 65536 ==> frame_spec::<ClientFrame>(varint(n as nat) + rest) == Err::<
            (ClientFrameView, nat),
            FramingError,
        >(
            FramingError::Truncated {
                needed: (varint(n as nat).len() + n) as usize,
                had: (varint(n as nat).len() + rest.len()) as usize,
            },
        ),
{
    law_prefix_roundtrip(n, rest);
    assert(prefix_spec(varint(n as nat) + rest) is Ok);
}

/// A number in `k` little-endian bytes has its low byte first.
pub proof fn law_low_byte_first(n: nat, k: nat)
    requires
        k > 0,
    ensures
        le(n, k).len() == k,
        le(n, k)[0] as nat == n % 256,
        le(n, k).skip(1) == le(n / 256, (k - 1) as nat),
        le_value(le(n, k)) == le(n, k)[0] as nat + 256 * le_value(le(n / 256, (k - 1) as nat)),
    decreases k,
{
    if k > 1 {
        law_low_byte_first(n / 256, (k - 1) as nat);
    } else {
        assert(le(n / 256, 0).len() == 0);
    }
    assert(le(n, k).skip(1) =~= le(n / 256, (k - 1) as nat));
}

/// The bytes of the stream kinds and of the mux flags, and that no other byte
/// stands for one.
pub proof fn law_kind_and_flag_bytes(b: u8, rest: Seq<u8>)
    ensures
        kind_of(b) is Ok <==> 1 <= b <= 3,
        kind_of(1) == Ok::<StreamKind, StreamKindError>(StreamKind::Control),
        kind_of(2) == Ok::<StreamKind, StreamKindError>(StreamKind::DataHttp),
        kind_of(3) == Ok::<StreamKind, StreamKindError>(StreamKind::DataTcp),
        forall|k: StreamKind| kind_of(#[trigger] k.byte()) == Ok::<StreamKind, StreamKindError>(k),
        flag_of(b) is Ok <==> 1 <= b <= 3,
        flag_of(1) == Ok::<MuxFlag, MuxHeaderError>(MuxFlag::Open),
        flag_of(2) == Ok::<MuxFlag, MuxHeaderError>(MuxFlag::Data),
        flag_of(3) == Ok::<MuxFlag, MuxHeaderError>(MuxFlag::Fin),
        forall|f: MuxFlag| flag_of(#[trigger] f.byte()) == Ok::<MuxFlag, MuxHeaderError>(f),
        !(1 <= b <= 3) && rest.len() >= 8 ==> MuxHeader::parse(seq![b] + rest) == Err::<
            MuxHeader,
            MuxHeaderError,
        >(MuxHeaderError::UnknownFlag(b)),
        rest.len() < 8 ==> MuxHeader::parse(seq![b] + rest) == Err::<MuxHeader, MuxHeaderError>(
            MuxHeaderError::TooShort,
        ),
{
    assert((seq![b] + rest)[0] == b);
}

/// A mux header is the flag, the stream and the length of the payload; a Data
/// header the kind and the tunnel.
pub proof fn law_header_layout(m: MuxHeader, d: DataHeader)
    ensures
        m.wire() == seq![m.flag.byte()] + le(m.stream_id as nat, 4) + le(m.payload_len as nat, 4),
        m.well_formed() <==> match m.flag {
            MuxFlag::Open => m.payload_len == 9,
            MuxFlag::Data => true,
            MuxFlag::Fin => m.payload_len == 0,
        },
        d.wire() == seq![d.kind.byte()] + le(d.tunnel_id.0 as nat, 8),
{
}

/// The control stream is 0; the client opens even streams and the server odd
/// ones, so that the next stream of either is two further.
pub proof fn law_stream_ids_alternate(id: u32)
    ensures
        !client_opened(0) && !server_opened(0),
        server_opened(1) && client_opened(2),
        0 < id < u32::MAX - 1 ==> client_opened((id + 2) as u32) == client_opened(id)
            && server_opened((id + 2) as u32) == server_opened(id),
        0 < id < u32::MAX ==> client_opened((id + 1) as u32) == server_opened(id),
{
}

/// What is signed for a challenge is `krot-auth-v1`, a zero byte and the nonce.
pub proof fn law_signed_message(nonce: Nonce)
    ensures
        signing_payload_spec(nonce) == seq![
            0x6bu8,
            0x72,
            0x6f,
            0x74,
            0x2d,
            0x61,
            0x75,
            0x74,
            0x68,
            0x2d,
            0x76,
            0x31,
            0x00,
        ] + nonce.0@,
{
    assert(signing_payload_spec(nonce).take(13) =~= seq![
        0x6bu8,
        0x72,
        0x6f,
        0x74,
        0x2d,
        0x61,
        0x75,
        0x74,
        0x68,
        0x2d,
        0x76,
        0x31,
        0x00,
    ]);
    assert(signing_payload_spec(nonce) =~= signing_payload_spec(nonce).take(13) + nonce.0@);
}

/// The transports are offered in order: `krot/1`, then `krot-tcp/1`.
pub proof fn law_offered_transports()
    ensures
        supported_alpn_spec().len() == 2,
        supported_alpn_spec()[0] == seq![0x6bu8, 0x72, 0x6f, 0x74, 0x2f, 0x31],
        supported_alpn_spec()[1] == seq![0x6bu8, 0x72, 0x6f, 0x74, 0x2d, 0x74, 0x63, 0x70, 0x2f, 0x31],
{
    assert(supported_alpn_spec()[0] =~= seq![0x6bu8, 0x72, 0x6f, 0x74, 0x2f, 0x31]);
    assert(supported_alpn_spec()[1] =~= seq![0x6bu8, 0x72, 0x6f, 0x74, 0x2d, 0x74, 0x63, 0x70, 0x2f, 0x31]);
}

/// Which codes have a name: five generic ones, five of authentication, six of
/// registration, two of quotas, two of resuming and two of the server's life.
pub proof fn law_named_codes(c: u16)
    ensures
        code_name_spec(c) is Some <==> c <= 0x04 || 0x10 <= c <= 0x14 || 0x20 <= c <= 0x25 || 0x30 <= c
            <= 0x31 || 0x40 <= c <= 0x41 || 0xF0 <= c <= 0xF1,
{
}

/// The names of the codes, and the numbers that stand for them on the wire.
pub proof fn law_code_names()
    ensures
        error_code_text(0x00) == "NoError"@,
        error_code_text(0x01) == "ProtocolViolation"@ && ErrorCode::PROTOCOL_VIOLATION == 0x01,
        error_code_text(0x02) == "FrameTooLarge"@ && ErrorCode::FRAME_TOO_LARGE == 0x02,
        error_code_text(0x03) == "UnknownStreamKind"@ && ErrorCode::UNKNOWN_STREAM_KIND == 0x03,
        error_code_text(0x04) == "UnexpectedStream"@ && ErrorCode::UNEXPECTED_STREAM == 0x04,
        error_code_text(0x10) == "AuthenticationFailed"@ && ErrorCode::AUTHENTICATION_FAILED == 0x10,
        error_code_text(0x11) == "UnknownIdentity"@ && ErrorCode::UNKNOWN_IDENTITY == 0x11,
        error_code_text(0x12) == "KeyRevoked"@ && ErrorCode::KEY_REVOKED == 0x12,
        error_code_text(0x13) == "TokenExpired"@ && ErrorCode::TOKEN_EXPIRED == 0x13,
        error_code_text(0x14) == "EnrollDisabled"@ && ErrorCode::ENROLL_DISABLED == 0x14,
        error_code_text(0x20) == "LabelUnavailable"@ && ErrorCode::LABEL_UNAVAILABLE == 0x20,
        error_code_text(0x21) == "LabelForbidden"@ && ErrorCode::LABEL_FORBIDDEN == 0x21,
        error_code_text(0x22) == "LabelInvalid"@ && ErrorCode::LABEL_INVALID == 0x22,
        error_code_text(0x23) == "TunnelLimitExceeded"@ && ErrorCode::TUNNEL_LIMIT_EXCEEDED == 0x23,
        error_code_text(0x24) == "HttpNotAvailable"@ && ErrorCode::HTTP_NOT_AVAILABLE == 0x24,
        error_code_text(0x25) == "PortPoolExhausted"@ && ErrorCode::PORT_POOL_EXHAUSTED == 0x25,
        error_code_text(0x30) == "RateLimited"@ && ErrorCode::RATE_LIMITED == 0x30,
        error_code_text(0x31) == "QuotaExceeded"@ && ErrorCode::QUOTA_EXCEEDED == 0x31,
        error_code_text(0x40) == "ResumeUnknown"@ && ErrorCode::RESUME_UNKNOWN == 0x40,
        error_code_text(0x41) == "ResumeIdentityMismatch"@ && ErrorCode::RESUME_IDENTITY_MISMATCH == 0x41,
        error_code_text(0xF0) == "ServerShutdown"@ && ErrorCode::SERVER_SHUTDOWN == 0xF0,
        error_code_text(0xF1) == "InternalError"@ && ErrorCode::INTERNAL_ERROR == 0xF1,
{
}

/// A hexadecimal digit has the value that it was made from.
proof fn lemma_upper_hex(n: int)
    requires
        0 <= n < 16,
    ensures
        hex_value(upper_hex(n)) == Some(n as u8),
        !('a' <= upper_hex(n) <= 'f'),
{
}

/// A code without a name is shown by its number, in four upper-case digits.
pub proof fn law_unnamed_code_shows_its_number(c: u16)
    ensures
        hex4(c).len() == 4,
        4096 * hex_value(hex4(c)[0])->0 + 256 * hex_value(hex4(c)[1])->0 + 16 * hex_value(hex4(c)[2])->0
            + hex_value(hex4(c)[3])->0 == c,
        forall|i: int| 0 <= i < 4 ==> hex_value(#[trigger] hex4(c)[i]) is Some && !('a' <= hex4(c)[i] <= 'f'),
        code_name_spec(c) is None ==> error_code_text(c) == "ErrorCode(0x"@ + hex4(c) + ")"@,
{
    lemma_upper_hex(c as int / 4096);
    lemma_upper_hex(c as int / 256 % 16);
    lemma_upper_hex(c as int / 16 % 16);
    lemma_upper_hex(c as int % 16);
    let d0 = c as int / 4096;
    let d1 = c as int / 256 % 16;
    let d2 = c as int / 16 % 16;
    let d3 = c as int % 16;
    assert(4096 * d0 + 256 * d1 + 16 * d2 + d3 == c);
}

} // verus!
