//! The wire protocol: headers, frames, framing and the challenge.

use ed25519_dalek::{Signer, Verifier};
use krot::proto::auth::{sign_challenge, verify_challenge, SigningKey};
use krot::proto::consts::{supported_alpn, DATA_HEADER_SIZE, MAX_FRAME_SIZE};
use krot::proto::error::ErrorCode;
use krot::proto::frames::{
    ClientFrame, HttpMetadata, InspectionPrelude, ServerFrame, TunnelKind, WireValue,
};
use krot::proto::framing::{
    decode_frame, encode_frame, read_varint_u32, write_varint_u32, FramingError,
};
use krot::proto::ids::{Nonce, PubKey, SessionId, Signature, TunnelId};
use krot::proto::mux::{
    is_client_opened, is_server_opened, MuxFlag, MuxHeader, MuxHeaderError, MUX_HEADER_SIZE,
};
use krot::proto::stream::{DataHeader, StreamKind, StreamKindError};
use krot::proto::wire::WireError;

#[test]
fn sign_then_verify_ok() {
    let sk = SigningKey::generate();
    let pk = sk.verifying_key();
    let nonce = Nonce([7u8; 32]);
    let sig = sign_challenge(&sk, &nonce);
    assert!(verify_challenge(&pk, &nonce, &sig));
}

#[test]
fn tampered_nonce_rejected() {
    let sk = SigningKey::generate();
    let pk = sk.verifying_key();
    let sig = sign_challenge(&sk, &Nonce([1u8; 32]));
    assert!(!verify_challenge(&pk, &Nonce([2u8; 32]), &sig));
}

#[test]
fn wrong_pubkey_rejected() {
    let sk_a = SigningKey::generate();
    let sk_b = SigningKey::generate();
    let nonce = Nonce([0xABu8; 32]);
    let sig = sign_challenge(&sk_a, &nonce);
    let pk_b = sk_b.verifying_key();
    assert!(!verify_challenge(&pk_b, &nonce, &sig));
}

#[test]
fn challenge_matches_the_curve_library() {
    let key = SigningKey::from_bytes(&[9u8; 32]);
    let outside = ed25519_dalek::SigningKey::from_bytes(&[9u8; 32]);
    assert_eq!(key.to_bytes(), [9u8; 32]);
    assert_eq!(key.verifying_key().0, outside.verifying_key().to_bytes());
    let nonce = Nonce([0x5au8; 32]);
    let mut payload = b"krot-auth-v1\0".to_vec();
    payload.extend_from_slice(&nonce.0);
    let sig = sign_challenge(&key, &nonce);
    assert_eq!(sig.0, outside.sign(&payload).to_bytes());
    let parsed = ed25519_dalek::Signature::from_bytes(&sig.0);
    assert!(outside.verifying_key().verify(&payload, &parsed).is_ok());
    // The nonce alone is not what is signed.
    assert!(outside.verifying_key().verify(&nonce.0, &parsed).is_err());
}

#[test]
fn bytes_that_are_no_key_are_refused() {
    // 2 is not the ordinate of a point on the curve.
    let mut bad = [0u8; 32];
    bad[0] = 2;
    assert!(ed25519_dalek::VerifyingKey::from_bytes(&bad).is_err());
    let sig = sign_challenge(&SigningKey::from_bytes(&[1u8; 32]), &Nonce([0u8; 32]));
    assert!(!verify_challenge(&PubKey(bad), &Nonce([0u8; 32]), &sig));
}

#[test]
fn varint_roundtrip_powers_of_two() {
    for shift in 0..32 {
        let v = 1u32 << shift;
        let mut buf = Vec::new();
        write_varint_u32(v, &mut buf);
        let (decoded, used) = read_varint_u32(&buf).unwrap();
        assert_eq!(decoded, v);
        assert_eq!(used, buf.len());
    }
}

#[test]
fn varint_max() {
    let mut buf = Vec::new();
    write_varint_u32(u32::MAX, &mut buf);
    assert_eq!(buf.len(), 5);
    let (decoded, used) = read_varint_u32(&buf).unwrap();
    assert_eq!(decoded, u32::MAX);
    assert_eq!(used, 5);
}

#[test]
fn varint_truncated_rejected() {
    // Continuation bit set on every byte — never terminates.
    let buf = [0xFF, 0xFF, 0xFF, 0xFF, 0xFF];
    assert!(read_varint_u32(&buf).is_err());
}

#[test]
fn varint_bytes_and_errors() {
    let mut buf = Vec::new();
    write_varint_u32(300, &mut buf);
    assert_eq!(buf, vec![0xAC, 0x02]);
    assert_eq!(read_varint_u32(&[]), Err(FramingError::BadVarint));
    assert_eq!(read_varint_u32(&[0x80]), Err(FramingError::BadVarint));
    // 2^32 does not fit.
    assert_eq!(
        read_varint_u32(&[0x80, 0x80, 0x80, 0x80, 0x10]),
        Err(FramingError::BadVarint)
    );
    assert_eq!(read_varint_u32(&[0x05, 0xFF]), Ok((5, 1)));
}

#[test]
fn roundtrip_open() {
    let h = MuxHeader {
        flag: MuxFlag::Open,
        stream_id: 2,
        payload_len: 9,
    };
    let bytes = h.to_bytes();
    assert_eq!(bytes.len(), MUX_HEADER_SIZE);
    assert_eq!(bytes[0], 0x01);
    assert_eq!(MuxHeader::decode(&bytes).unwrap(), h);
}

#[test]
fn roundtrip_data() {
    let h = MuxHeader {
        flag: MuxFlag::Data,
        stream_id: 5,
        payload_len: 4096,
    };
    assert_eq!(MuxHeader::decode(&h.to_bytes()).unwrap(), h);
}

#[test]
fn roundtrip_fin() {
    let h = MuxHeader {
        flag: MuxFlag::Fin,
        stream_id: 7,
        payload_len: 0,
    };
    assert_eq!(MuxHeader::decode(&h.to_bytes()).unwrap(), h);
}

#[test]
fn rejects_unknown_flag() {
    let mut bytes = [0u8; MUX_HEADER_SIZE];
    bytes[0] = 0x9F;
    assert_eq!(
        MuxHeader::decode(&bytes),
        Err(MuxHeaderError::UnknownFlag(0x9F))
    );
}

#[test]
fn rejects_short_buffer() {
    let short = [0u8; MUX_HEADER_SIZE - 1];
    assert_eq!(MuxHeader::decode(&short), Err(MuxHeaderError::TooShort));
}

#[test]
fn rejects_fin_with_payload() {
    let bytes = MuxHeader {
        flag: MuxFlag::Fin,
        stream_id: 3,
        payload_len: 1,
    }
    .to_bytes();
    assert_eq!(
        MuxHeader::decode(&bytes),
        Err(MuxHeaderError::FinWithPayload(1))
    );
}

#[test]
fn rejects_open_with_wrong_payload_len() {
    let bytes = MuxHeader {
        flag: MuxFlag::Open,
        stream_id: 4,
        payload_len: 10,
    }
    .to_bytes();
    assert_eq!(
        MuxHeader::decode(&bytes),
        Err(MuxHeaderError::OpenBadPayload(10))
    );
}

#[test]
fn little_endian_encoding() {
    let h = MuxHeader {
        flag: MuxFlag::Data,
        stream_id: 0x0000_0101,
        payload_len: 0x0000_0203,
    };
    let bytes = h.to_bytes();
    assert_eq!(&bytes[1..5], &[0x01, 0x01, 0x00, 0x00]);
    assert_eq!(&bytes[5..9], &[0x03, 0x02, 0x00, 0x00]);
}

#[test]
fn stream_id_parity() {
    assert!(!is_client_opened(0));
    assert!(!is_server_opened(0));
    assert!(is_client_opened(2));
    assert!(is_server_opened(1));
    assert!(is_client_opened(1024));
    assert!(is_server_opened(1023));
}

#[test]
fn mux_errors_are_shown() {
    assert_eq!(
        MuxHeader::decode(&[]).unwrap_err().to_text().is_empty(),
        false
    );
    // Bytes behind the header are not read.
    let h = MuxHeader {
        flag: MuxFlag::Data,
        stream_id: 1,
        payload_len: 3,
    };
    let mut bytes = h.to_bytes().to_vec();
    bytes.extend_from_slice(&[1, 2, 3]);
    assert_eq!(MuxHeader::decode(&bytes), Ok(h));
}

fn roundtrip_client(frame: &ClientFrame) {
    let mut buf = Vec::new();
    encode_frame(frame, &mut buf).unwrap();
    let (decoded, used): (ClientFrame, usize) = decode_frame(&buf).unwrap();
    assert_eq!(&decoded, frame);
    assert_eq!(used, buf.len());
}

fn roundtrip_server(frame: &ServerFrame) {
    let mut buf = Vec::new();
    encode_frame(frame, &mut buf).unwrap();
    let (decoded, used): (ServerFrame, usize) = decode_frame(&buf).unwrap();
    assert_eq!(&decoded, frame);
    assert_eq!(used, buf.len());
}

#[test]
fn client_frames_roundtrip() {
    roundtrip_client(&ClientFrame::AuthRequest {
        pubkey: PubKey([0x11; 32]),
    });
    roundtrip_client(&ClientFrame::AuthResponse {
        signature: Signature([0x22; 64]),
    });
    roundtrip_client(&ClientFrame::RegisterTunnel {
        label: "alice".into(),
        kind: TunnelKind::Http,
        resume_session_id: None,
        inspect: false,
    });
    roundtrip_client(&ClientFrame::RegisterTunnel {
        label: "db".into(),
        kind: TunnelKind::Tcp {
            remote_port: Some(5432),
        },
        resume_session_id: Some(SessionId([9u8; 16])),
        inspect: true,
    });
    roundtrip_client(&ClientFrame::UnregisterTunnel {
        tunnel_id: TunnelId(42),
    });
    roundtrip_client(&ClientFrame::Ping { nonce: 0xDEAD_BEEF });
    roundtrip_client(&ClientFrame::Bye);
    roundtrip_client(&ClientFrame::Enroll {
        admin_token: "KROT-TEST-TOKEN".into(),
        pubkey: PubKey([0x33; 32]),
        label_hint: Some("my-laptop".into()),
    });
    roundtrip_client(&ClientFrame::ListPeers);
}

#[test]
fn server_frames_roundtrip() {
    roundtrip_server(&ServerFrame::AuthChallenge {
        nonce: Nonce([0x55; 32]),
    });
    roundtrip_server(&ServerFrame::AuthOk {
        session_id: SessionId([0xAA; 16]),
    });
    roundtrip_server(&ServerFrame::AuthReject {
        code: ErrorCode(ErrorCode::UNKNOWN_IDENTITY),
    });
    roundtrip_server(&ServerFrame::TunnelRegistered {
        tunnel_id: TunnelId(1),
        public_url: "https://alice.krot.example".into(),
        public_port: None,
    });
    roundtrip_server(&ServerFrame::TunnelRegistered {
        tunnel_id: TunnelId(2),
        public_url: "tcp://203.0.113.10:24601".into(),
        public_port: Some(24_601),
    });
    roundtrip_server(&ServerFrame::TunnelRejected {
        code: ErrorCode(ErrorCode::LABEL_UNAVAILABLE),
        detail: "alice is taken".into(),
    });
    roundtrip_server(&ServerFrame::Pong { nonce: 42 });
    roundtrip_server(&ServerFrame::RateLimit {
        tunnel_id: Some(TunnelId(7)),
        retry_after_ms: 1500,
    });
    roundtrip_server(&ServerFrame::ServerBye {
        code: ErrorCode(ErrorCode::SERVER_SHUTDOWN),
    });
    roundtrip_server(&ServerFrame::EnrollOk {
        authorized_line: "ed25519 AAAA... subdomain=*".into(),
    });
    roundtrip_server(&ServerFrame::EnrollRejected {
        code: ErrorCode(ErrorCode::TOKEN_EXPIRED),
    });
    roundtrip_server(&ServerFrame::Peers { relays: vec![] });
    roundtrip_server(&ServerFrame::Peers {
        relays: vec![
            "krot.us-east.example".into(),
            "krot.eu-west.example:7854".into(),
        ],
    });
}

#[test]
fn data_header_roundtrip() {
    for kind in [StreamKind::DataHttp, StreamKind::DataTcp] {
        let header = DataHeader {
            kind,
            tunnel_id: TunnelId(0x0123_4567_89AB_CDEF),
        };
        let bytes = header.to_bytes();
        assert_eq!(bytes.len(), DATA_HEADER_SIZE);
        // Explicit little-endian check on the tunnel_id encoding.
        assert_eq!(&bytes[1..9], &0x0123_4567_89AB_CDEFu64.to_le_bytes());
        let decoded = DataHeader::decode(&bytes).unwrap();
        assert_eq!(decoded, header);
    }
}

#[test]
fn data_header_rejects_control_kind() {
    let bad = {
        let mut b = [0u8; DATA_HEADER_SIZE];
        b[0] = StreamKind::Control.as_byte();
        b
    };
    assert!(DataHeader::decode(&bad).is_err());
}

#[test]
fn data_header_rejects_unknown_kind() {
    let bad = [0xFFu8; DATA_HEADER_SIZE];
    assert!(DataHeader::decode(&bad).is_err());
    assert_eq!(DataHeader::decode(&bad), Err(StreamKindError(0xFF)));
}

#[test]
fn multiple_frames_back_to_back() {
    let a = ClientFrame::Ping { nonce: 1 };
    let b = ClientFrame::Ping { nonce: 2 };
    let mut buf = Vec::new();
    encode_frame(&a, &mut buf).unwrap();
    encode_frame(&b, &mut buf).unwrap();

    let (first, used1): (ClientFrame, usize) = decode_frame(&buf).unwrap();
    let (second, used2): (ClientFrame, usize) = decode_frame(&buf[used1..]).unwrap();
    assert_eq!(first, a);
    assert_eq!(second, b);
    assert_eq!(used1 + used2, buf.len());
}

#[test]
fn payloads_are_what_postcard_writes() {
    // An enum is its variant's index, then its fields in order.
    let ping = ClientFrame::Ping { nonce: 0xDEAD_BEEF };
    assert_eq!(
        ping.encode_wire(),
        postcard::to_stdvec(&(4u32, 0xDEAD_BEEFu64)).unwrap()
    );
    let register = ClientFrame::RegisterTunnel {
        label: "db".into(),
        kind: TunnelKind::Tcp {
            remote_port: Some(5432),
        },
        resume_session_id: Some(SessionId([9u8; 16])),
        inspect: true,
    };
    assert_eq!(
        register.encode_wire(),
        postcard::to_stdvec(&(
            2u32,
            "db",
            (1u32, Some(5432u16)),
            Some([9u8; 16]),
            true
        ))
        .unwrap()
    );
    let enroll = ClientFrame::Enroll {
        admin_token: "T".into(),
        pubkey: PubKey([0x33; 32]),
        label_hint: None,
    };
    assert_eq!(
        enroll.encode_wire(),
        postcard::to_stdvec(&(6u32, "T", [0x33u8; 32], None::<&str>)).unwrap()
    );
    let limit = ServerFrame::RateLimit {
        tunnel_id: Some(TunnelId(7)),
        retry_after_ms: 1500,
    };
    assert_eq!(
        limit.encode_wire(),
        postcard::to_stdvec(&(6u32, Some(7u64), 1500u32)).unwrap()
    );
    let peers = ServerFrame::Peers {
        relays: vec!["a.example".into(), "b".into()],
    };
    assert_eq!(
        peers.encode_wire(),
        postcard::to_stdvec(&(10u32, vec!["a.example", "b"])).unwrap()
    );
    let prelude = InspectionPrelude {
        accept_unix_secs: 1_700_000_000,
        peer: "192.0.2.1:80".into(),
        http: Some(HttpMetadata {
            host: "h".into(),
            sni: Some("s".into()),
        }),
    };
    assert_eq!(
        prelude.encode_wire(),
        postcard::to_stdvec(&(
            1_700_000_000u64,
            "192.0.2.1:80",
            Some(("h", Some("s")))
        ))
        .unwrap()
    );
}

#[test]
fn frames_that_cannot_be_read() {
    // A length prefix with no payload behind it.
    assert_eq!(
        decode_frame::<ClientFrame>(&[5]).unwrap_err(),
        FramingError::Truncated { needed: 6, had: 1 }
    );
    assert_eq!(
        decode_frame::<ClientFrame>(&[]).unwrap_err(),
        FramingError::BadVarint
    );
    // Longer than any frame may be.
    let mut long = Vec::new();
    write_varint_u32(MAX_FRAME_SIZE as u32 + 1, &mut long);
    assert_eq!(
        decode_frame::<ServerFrame>(&long).unwrap_err(),
        FramingError::FrameTooLarge {
            size: MAX_FRAME_SIZE + 1,
            max: MAX_FRAME_SIZE
        }
    );
    // No such variant.
    assert_eq!(
        decode_frame::<ClientFrame>(&[1, 200]).unwrap_err(),
        FramingError::Postcard(WireError::UnexpectedEnd)
    );
    assert_eq!(
        decode_frame::<ClientFrame>(&[1, 100]).unwrap_err(),
        FramingError::Postcard(WireError::UnknownVariant)
    );
    // A text that is not UTF-8.
    assert!(matches!(
        decode_frame::<ServerFrame>(&[3, 8, 1, 0xFF]).unwrap_err(),
        FramingError::Postcard(_)
    ));
    assert!(FramingError::BadVarint.to_text().contains("varint"));
}

#[test]
fn a_frame_may_not_be_too_large() {
    let frame = ServerFrame::EnrollOk {
        authorized_line: "x".repeat(MAX_FRAME_SIZE),
    };
    let mut out = vec![1, 2, 3];
    let err = encode_frame(&frame, &mut out).unwrap_err();
    assert!(matches!(err, FramingError::FrameTooLarge { .. }));
    assert_eq!(out, vec![1, 2, 3]);
}

#[test]
fn error_codes_and_alpn() {
    assert_eq!(ErrorCode(ErrorCode::UNKNOWN_IDENTITY).raw(), ErrorCode::UNKNOWN_IDENTITY);
    assert!(!ErrorCode(0xFFFF).to_text().is_empty());
    assert_eq!(supported_alpn()[0], b"krot/1".to_vec());
    assert_eq!(TunnelId::from(7).get(), 7);
}
