//! Tunnels on the client: the inspector, the stream machine, sessions with a
//! relay, enrollment and the pin.

use krot::client::bi_stream::{BiAction, BiStream, Phase, Tick, TunnelState};
use krot::client::config::{parse_pin, ClientConfig, Identity, ServerPin};
use krot::client::enroll::{
    enroll, enroll_identity, enroll_pin, enroll_request, enroll_server, on_enroll_reply,
    EnrollOptions,
};
use krot::client::error::ClientError;
use krot::client::inspector::{
    ui_reads_on, ui_response, ui_route, Inspector, UiRoute, HISTORY_CAP,
};
use krot::client::local_auth::{AuthConfig, AuthPolicy, Moment};
use krot::client::login_page::SessionStore;
use krot::client::proxy::{
    bad_request_response, check_header, parse_status_line, peek_request, peek_response,
    peek_until_headers, plan_auth, read_exact_into, AuthPlan, HeadPeek,
};
use krot::client::session::{
    after_quic_failure, auth_request, connection_pin, is_transport_failure, on_challenge, on_peers,
    on_verdict, port_for, read_reject, server_target, unresolved, AfterFailure, ChallengeStep,
    SessionTransport,
};
use krot::client::tls::{check_spki, learn_server_cert, verify_server_cert};
use krot::client::tunnel::{
    on_registered, publish_http, publish_http_resume, publish_tcp, publish_tcp_resume,
};
use krot::clock::{millis_of, secs_of, unix_millis, unix_secs};
use krot::http_parse::{headers_end, Header, ParseStatus, ParsedRequest};
use krot::proto::auth::{verify_challenge, SigningKey};
use krot::proto::error::ErrorCode;
use krot::proto::frames::{ClientFrame, HttpMetadata, InspectionPrelude, ServerFrame, TunnelKind};
use krot::proto::ids::{Nonce, PubKey, SessionId, TunnelId};
use krot::proto::stream::{DataHeader, StreamKind};

#[test]
fn records_request_then_response() {
    let mut insp = Inspector::new();
    let id = insp.record_request(Some("GET".into()), Some("/hello".into()));
    insp.record_response(id, 200);
    let snap = insp.snapshot();
    assert_eq!(snap.len(), 1);
    assert_eq!(snap[0].method.as_deref(), Some("GET"));
    assert_eq!(snap[0].path.as_deref(), Some("/hello"));
    assert_eq!(snap[0].status, Some(200));
    assert!(snap[0].duration_ms.is_some());
}

#[test]
fn snapshot_returns_newest_first() {
    let mut insp = Inspector::new();
    insp.record_request(Some("GET".into()), Some("/a".into()));
    insp.record_request(Some("GET".into()), Some("/b".into()));
    let snap = insp.snapshot();
    assert_eq!(snap.len(), 2);
    assert_eq!(snap[0].path.as_deref(), Some("/b"));
    assert_eq!(snap[1].path.as_deref(), Some("/a"));
}

#[test]
fn ring_evicts_oldest() {
    let mut insp = Inspector::new();
    for i in 0..(HISTORY_CAP + 5) {
        insp.record_request(Some("GET".into()), Some(format!("/{i}")));
    }
    let snap = insp.snapshot();
    assert_eq!(snap.len(), HISTORY_CAP);
    // Newest first — path should be the last-inserted index.
    assert_eq!(
        snap[0].path.as_deref(),
        Some(format!("/{}", HISTORY_CAP + 4)).as_deref()
    );
    assert_eq!(snap[HISTORY_CAP - 1].path.as_deref(), Some("/5"));
}

#[test]
fn a_response_belongs_to_its_request() {
    let ms: u128 = 1_000_000;
    let mut insp = Inspector::default();
    let a = insp.record_request_at(None, Some("/a".into()), 10, 0);
    let b = insp.record_request_at(None, Some("/b".into()), 11, 5 * ms);
    assert_eq!((a, b), (1, 2));
    insp.record_response_at(a, 404, 7 * ms + 999_999);
    insp.record_response_at(b, 200, 5 * ms);
    // A second response has no start to count from.
    insp.record_response_at(b, 500, 9 * ms);
    insp.record_response_at(77, 200, 9 * ms);
    let snap = insp.snapshot();
    assert_eq!((snap[1].status, snap[1].duration_ms), (Some(404), Some(7)));
    assert_eq!((snap[0].status, snap[0].duration_ms), (Some(500), None));
    assert_eq!(snap[1].time_ms, 10);
}

#[test]
fn readings_of_the_wall_clock() {
    assert_eq!(secs_of(Some((7, 999_999_999))), 7);
    assert_eq!(millis_of(Some((7, 999_999_999))), 7_999);
    assert_eq!(millis_of(Some((u64::MAX, 0))), u64::MAX as u128 * 1000);
    assert_eq!((secs_of(None), millis_of(None)), (0, 0));
    // Both read the same clock, long after the epoch.
    let (before, between, after) = (unix_secs(), unix_millis(), unix_secs());
    assert!(before > 1_500_000_000);
    assert!(before as u128 * 1000 <= between && between < (after as u128 + 1) * 1000);
    let state = TunnelState {
        inspector: None,
        auth: None,
    };
    let tick = state.tick();
    assert_eq!((tick.moment.t1, tick.moment.t2, tick.now), (0, 0, 0));
    assert!(tick.now_ms >= between);
}

#[test]
fn accepted_streams_are_shown() {
    let mut insp = Inspector::new();
    let mut prelude = InspectionPrelude {
        accept_unix_secs: 1,
        peer: "192.0.2.7:1".into(),
        http: Some(HttpMetadata {
            host: "h.example".into(),
            sni: None,
        }),
    };
    insp.record_accept_at(&prelude, 1);
    assert!(insp.snapshot().is_empty());
    insp.record_request_at(Some("GET".into()), None, 2, 0);
    insp.record_request_at(Some("PUT".into()), None, 3, 0);
    let snap = insp.snapshot();
    assert_eq!(snap[1].peer.as_deref(), Some("192.0.2.7:1"));
    assert_eq!(snap[1].host.as_deref(), Some("h.example"));
    assert_eq!(snap[0].peer, None);

    // Passthrough is an entry of its own; the SNI stands in for the host.
    prelude.http = Some(HttpMetadata {
        host: String::new(),
        sni: Some("s.example".into()),
    });
    insp.record_accept(&prelude);
    let snap = insp.snapshot();
    assert_eq!(snap.len(), 3);
    assert_eq!(snap[0].host.as_deref(), Some("s.example"));
    assert_eq!(snap[0].method, None);
    assert!(snap[0].time_ms > 1_500_000_000_000);
}

#[test]
fn ui_routes() {
    assert_eq!(ui_route(&b"GET /api/entries HTTP/1.1\r\n\r\n".to_vec()), UiRoute::Entries);
    assert_eq!(ui_route(&b"GET /api/entries?x HTTP/1.1\r\n\r\n".to_vec()), UiRoute::Page);
    assert_eq!(ui_route(&b"nonsense".to_vec()), UiRoute::Page);
    assert!(ui_reads_on(&b"GET / HTTP/1.1\r\n".to_vec(), false));
    assert!(!ui_reads_on(&b"GET / HTTP/1.1\r\n".to_vec(), true));
    assert!(!ui_reads_on(&b"GET / HTTP/1.1\r\n\r\n".to_vec(), false));
    assert!(ui_reads_on(&vec![b'x'; 8192], false));
    assert!(!ui_reads_on(&vec![b'x'; 8193], false));
    assert_eq!(
        ui_response("application/json", b"[]"),
        b"HTTP/1.1 200 OK\r\nContent-Type: application/json\r\nContent-Length: 2\r\nConnection: close\r\n\r\n[]"
            .to_vec()
    );
}

#[test]
fn heads_and_status_lines() {
    assert_eq!(headers_end(b"GET / HTTP/1.1\r\n\r\nbody"), Some(18));
    assert_eq!(headers_end(b"\r\n\r\n\r\n\r\n"), Some(4));
    assert_eq!(headers_end(b"\r\n\r"), None);
    let buf = b"GET /x HTTP/1.1\r\nHost: a\r\n\r\n".to_vec();
    assert_eq!(peek_until_headers(&buf, 4, false), HeadPeek::End(buf.len()));
    assert_eq!(peek_until_headers(&buf[..9].to_vec(), 9, false), HeadPeek::Malformed);
    assert_eq!(peek_until_headers(&buf[..9].to_vec(), 10, false), HeadPeek::More);
    assert_eq!(peek_until_headers(&buf[..9].to_vec(), 10, true), HeadPeek::Malformed);
    assert_eq!(
        peek_request(&buf),
        (Some("GET".to_string()), Some("/x".to_string()))
    );
    assert_eq!(peek_request(&b"G\0T / HTTP/1.1\r\n\r\n".to_vec()), (None, None));
    assert_eq!(peek_response(&b"HTTP/1.1 204 No Content\r\n\r\n".to_vec()), Some(204));
    assert_eq!(peek_response(&b"SMTP ready\r\n\r\n".to_vec()), None);
    assert_eq!(parse_status_line(b"HTTP/1.1 302 Found\r\n"), Some(302));
    assert_eq!(parse_status_line(b"HTTP/1.1 20"), None);
    assert_eq!(parse_status_line(b"HTTP/1.1 2000 x"), None);
    assert_eq!(parse_status_line(b"GET 200 x"), None);
    assert_eq!(parse_status_line(b"nospace"), None);
    assert_eq!(parse_status_line(b"HTTP/1.1 abc"), None);
    assert_eq!(parse_status_line(&[0xff, b' ', b'2']), None);
    assert_eq!(parse_status_line(&bad_request_response()), Some(400));
    assert!(bad_request_response().ends_with(b"Content-Length: 11\r\nConnection: close\r\n\r\nBad Request"));
}

#[test]
fn a_body_is_read_up_to_its_end() {
    let mut buf = b"abc".to_vec();
    assert!(!read_exact_into(&mut buf, 8, b"de"));
    assert!(read_exact_into(&mut buf, 8, b"fghijk"));
    assert_eq!(buf, b"abcdefgh".to_vec());
    assert!(read_exact_into(&mut buf, 8, b"zz"));
    assert_eq!(buf, b"abcdefgh".to_vec());
    let mut buf = Vec::new();
    assert!(read_exact_into(&mut buf, 8, b""));
}

#[test]
fn header_of_another_tunnel_is_refused() {
    let h = DataHeader {
        kind: StreamKind::DataTcp,
        tunnel_id: TunnelId(5),
    };
    assert_eq!(check_header(&h.to_bytes(), TunnelId(5)), Ok(h));
    assert_eq!(
        check_header(&h.to_bytes(), TunnelId(6)),
        Err(ClientError::Protocol("wrong tunnel id on data stream"))
    );
    assert_eq!(
        check_header(&[0xff; 9], TunnelId(5)),
        Err(ClientError::Protocol("bad DataHeader from server"))
    );
}

fn http_stream(inspect: bool) -> (BiStream, [u8; 9]) {
    let h = DataHeader {
        kind: StreamKind::DataHttp,
        tunnel_id: TunnelId(1),
    };
    (BiStream::new(TunnelId(1), inspect), h.to_bytes())
}

fn key_state(inspector: Option<Inspector>) -> TunnelState {
    TunnelState {
        inspector,
        auth: Some(AuthConfig {
            policy: AuthPolicy::ApiKey { key: "k".into() },
            realm: String::new(),
        }),
    }
}

fn login_state() -> TunnelState {
    TunnelState {
        inspector: Some(Inspector::new()),
        auth: Some(AuthConfig {
            policy: AuthPolicy::Session {
                user: "u".into(),
                pass: "p".into(),
                store: SessionStore::new(),
            },
            realm: String::new(),
        }),
    }
}

#[test]
fn a_request_with_the_key_goes_through_byte_for_byte() {
    let mut state = key_state(None);
    let (mut s, header) = http_stream(false);
    assert!(matches!(s.on_header(&state, &header), BiAction::ReadStream));
    assert!(matches!(s.on_chunk(&mut state, b"GET / HTTP/1.1\r\nX-Api-"), BiAction::ReadStream));
    let BiAction::Dial(bytes) = s.on_chunk(&mut state, b"Key: k\r\n\r\nbody") else {
        panic!("expected Dial");
    };
    assert_eq!(bytes, b"GET / HTTP/1.1\r\nX-Api-Key: k\r\n\r\nbody".to_vec());
    let BiAction::Relay(none) = s.on_dialed(&mut state) else {
        panic!("expected Relay");
    };
    assert!(none.is_empty());
    assert_eq!(s.phase, Phase::Relaying);
}

#[test]
fn a_request_without_the_key_is_answered_here() {
    let mut state = key_state(Some(Inspector::new()));
    let (mut s, header) = http_stream(false);
    s.on_header(&state, &header);
    let BiAction::Respond(bytes) = s.on_chunk(&mut state, b"GET /p HTTP/1.1\r\n\r\n") else {
        panic!("expected Respond");
    };
    assert!(bytes.starts_with(b"HTTP/1.1 403 Forbidden\r\n"));
    let snap = state.inspector.as_ref().unwrap().snapshot();
    assert_eq!(snap[0].path.as_deref(), Some("/p"));
    assert_eq!(snap[0].status, Some(403));
    assert_eq!(s.phase, Phase::Closed);
}

#[test]
fn garbage_is_never_forwarded() {
    // Malformed.
    let mut state = key_state(Some(Inspector::new()));
    let (mut s, header) = http_stream(false);
    s.on_header(&state, &header);
    let BiAction::Respond(bytes) = s.on_chunk(&mut state, b"G\0T / HTTP/1.1\r\nX-Api-Key: k\r\n\r\n")
    else {
        panic!("expected Respond");
    };
    assert!(bytes.starts_with(b"HTTP/1.1 400 Bad Request\r\n"));
    assert!(state.inspector.as_ref().unwrap().snapshot().is_empty());
    // Cut off.
    let (mut s, header) = http_stream(false);
    s.on_header(&state, &header);
    assert!(matches!(s.on_chunk(&mut state, b""), BiAction::ReadStream));
    assert!(matches!(s.on_chunk(&mut state, b""), BiAction::Respond(_)));
    // Endless.
    let (mut s, header) = http_stream(false);
    s.on_header(&state, &header);
    assert!(matches!(s.on_chunk(&mut state, &vec![b'a'; 8191]), BiAction::ReadStream));
    assert!(matches!(s.on_chunk(&mut state, b"a"), BiAction::Respond(_)));
}

#[test]
fn tls_passes_without_authentication() {
    let mut state = key_state(Some(Inspector::new()));
    let (mut s, header) = http_stream(false);
    s.on_header(&state, &header);
    let BiAction::Dial(bytes) = s.on_chunk(&mut state, &[0x16, 3, 1]) else {
        panic!("expected Dial");
    };
    assert_eq!(bytes, vec![0x16, 3, 1]);
    assert!(matches!(s.on_dialed(&mut state), BiAction::Relay(_)));
}

#[test]
fn a_login_is_read_to_its_end_and_answered() {
    let mut state = login_state();
    let (mut s, header) = http_stream(false);
    s.on_header(&state, &header);
    let head = b"POST /__krot/login HTTP/1.1\r\nContent-Length: 18\r\n\r\n";
    let mut first = head.to_vec();
    first.extend_from_slice(b"user=u&p");
    assert!(matches!(s.on_chunk(&mut state, &first), BiAction::ReadStream));
    assert_eq!(
        s.phase,
        Phase::Body {
            complete_at: head.len(),
            target: head.len() + 18
        }
    );
    let tick = Tick {
        moment: Moment {
            raw: [0x11u8; 32],
            t1: 0,
            t2: 0,
        },
        now_ms: 5,
        now: 0,
    };
    let BiAction::Respond(bytes) = s.on_chunk_at(&mut state, b"ass=p&next=/more", &tick) else {
        panic!("expected Respond");
    };
    // The form is cut at the announced length.
    let text = String::from_utf8(bytes).unwrap();
    assert!(text.starts_with("HTTP/1.1 302 Found\r\nLocation: /\r\n"), "{text}");
    assert!(text.contains(&"11".repeat(32)));
    let snap = state.inspector.as_ref().unwrap().snapshot();
    assert_eq!(snap[0].status, Some(302));

    // The cookie lets the next request through.
    let (mut s, header) = http_stream(false);
    s.on_header(&state, &header);
    let request = format!(
        "GET / HTTP/1.1\r\nCookie: __krot_session={}\r\n\r\n",
        "11".repeat(32)
    );
    assert!(matches!(s.on_chunk_at(&mut state, request.as_bytes(), &tick), BiAction::Dial(_)));
    assert!(matches!(s.on_dialed(&mut state), BiAction::ReadLocal));
    assert!(matches!(s.on_local(&mut state, b"HTTP/1.1 201 C"), BiAction::ReadLocal));
    let BiAction::Relay(bytes) = s.on_local(&mut state, b"reated\r\n\r\nx") else {
        panic!("expected Relay");
    };
    assert_eq!(bytes, b"HTTP/1.1 201 Created\r\n\r\nx".to_vec());
    let snap = state.inspector.as_ref().unwrap().snapshot();
    assert_eq!(snap[0].status, Some(201));
}

#[test]
fn a_visitor_without_a_session_is_sent_to_the_login_page() {
    let mut state = login_state();
    let (mut s, header) = http_stream(false);
    s.on_header(&state, &header);
    let BiAction::Respond(bytes) = s.on_chunk(&mut state, b"GET /a HTTP/1.1\r\n\r\n") else {
        panic!("expected Respond");
    };
    let text = String::from_utf8(bytes).unwrap();
    assert!(text.starts_with("HTTP/1.1 302 Found\r\nLocation: /__krot/login?next=/a\r\n"));
}

#[test]
fn an_inspected_stream_without_a_policy() {
    let mut state = TunnelState {
        inspector: Some(Inspector::new()),
        auth: None,
    };
    let (mut s, header) = http_stream(true);
    assert!(matches!(s.on_header(&state, &header), BiAction::ReadPrelude));
    let prelude = InspectionPrelude {
        accept_unix_secs: 1,
        peer: "192.0.2.1:9".into(),
        http: Some(HttpMetadata {
            host: "h".into(),
            sni: None,
        }),
    };
    let BiAction::Dial(none) = s.on_prelude(&state, prelude) else {
        panic!("expected Dial");
    };
    assert!(none.is_empty());
    assert!(matches!(s.on_dialed(&mut state), BiAction::ReadStream));
    assert!(matches!(s.on_chunk(&mut state, b"GET /z HTTP/1.1\r\n"), BiAction::ReadStream));
    let BiAction::SendLocal(bytes) = s.on_chunk(&mut state, b"\r\n") else {
        panic!("expected SendLocal");
    };
    assert_eq!(bytes, b"GET /z HTTP/1.1\r\n\r\n".to_vec());
    assert!(matches!(s.on_local(&mut state, b""), BiAction::Relay(_)));
    let snap = state.inspector.as_ref().unwrap().snapshot();
    assert_eq!(snap[0].path.as_deref(), Some("/z"));
    assert_eq!(snap[0].peer.as_deref(), Some("192.0.2.1:9"));
    assert_eq!(snap[0].status, None);
}

#[test]
fn a_tcp_stream_is_relayed_as_it_is() {
    let mut state = key_state(Some(Inspector::new()));
    let mut s = BiStream::new(TunnelId(3), false);
    let h = DataHeader {
        kind: StreamKind::DataTcp,
        tunnel_id: TunnelId(3),
    };
    assert!(matches!(s.on_header(&state, &h.to_bytes()), BiAction::Dial(_)));
    assert!(matches!(s.on_dialed(&mut state), BiAction::Relay(_)));
    let mut s = BiStream::new(TunnelId(4), false);
    assert!(matches!(s.on_header(&state, &h.to_bytes()), BiAction::Fail(_)));
}

#[test]
fn a_plan_for_each_policy() {
    let p = ParsedRequest {
        status: ParseStatus::Complete(40),
        method: Some("post".into()),
        path: Some("/__krot/login?next=/x".into()),
        headers: vec![Header {
            name: "content-LENGTH".into(),
            value: b" 5000 ".to_vec(),
        }],
    };
    let state = login_state();
    let policy = &state.auth.as_ref().unwrap().policy;
    // The form may not be longer than 4096 bytes.
    assert!(matches!(plan_auth(policy, &p, 40), AuthPlan::Session { target: 4136 }));
    let mut q = p.clone();
    q.headers[0].value = b"many".to_vec();
    assert!(matches!(plan_auth(policy, &q, 40), AuthPlan::Session { target: 40 }));
    let state = key_state(None);
    let policy = &state.auth.as_ref().unwrap().policy;
    assert!(matches!(plan_auth(policy, &p, 40), AuthPlan::Respond(_)));
    let mut q = p.clone();
    q.headers = vec![Header {
        name: "X-API-Key".into(),
        value: b"k".to_vec(),
    }];
    assert!(matches!(plan_auth(policy, &q, 40), AuthPlan::Forward));
    q.status = ParseStatus::Invalid("bad".into());
    assert!(matches!(plan_auth(policy, &q, 40), AuthPlan::Respond(b) if b == bad_request_response()));
}

#[test]
fn an_identity_reads_back() {
    let key = SigningKey::from_bytes(&[3u8; 32]);
    let id = Identity::of_key(&key);
    assert_eq!(id.private_key, "03".repeat(32));
    assert_eq!(id.signing_key().unwrap().to_bytes(), [3u8; 32]);
    assert_eq!(id.pubkey().unwrap(), key.verifying_key());
    let fresh = Identity::generate();
    assert_eq!(
        fresh.signing_key().unwrap().verifying_key(),
        fresh.pubkey().unwrap()
    );
    let bad = Identity {
        private_key: "0g".into(),
        public_key: "00".into(),
    };
    assert_eq!(
        bad.signing_key().err().unwrap().to_text(),
        "config: bad private_key hex: Invalid character 'g' at position 1"
    );
    assert_eq!(
        bad.pubkey().err().unwrap().to_text(),
        "config: public_key not 32 bytes"
    );
}

fn pin(fingerprint: Option<&str>) -> ServerPin {
    ServerPin {
        host: "192.0.2.10".into(),
        quic_port: 7853,
        tcp_port: None,
        sni: None,
        fingerprint: fingerprint.map(|s| s.to_string()),
    }
}

#[test]
fn pins() {
    let fp = format!("sha256:{}", "aB".repeat(32));
    let mut p = pin(Some(&fp));
    assert_eq!(p.fingerprint_bytes().unwrap(), Some([0xab; 32]));
    assert_eq!(connection_pin(&p).unwrap(), [0xab; 32]);
    assert_eq!(p.effective_sni(), "192.0.2.10");
    assert_eq!(p.effective_tcp_port(), 7853);
    p.sni = Some("relay.example".into());
    p.tcp_port = Some(443);
    assert_eq!(p.effective_sni(), "relay.example");
    assert_eq!(port_for(&p, SessionTransport::Quic), 7853);
    assert_eq!(port_for(&p, SessionTransport::TcpFallback), 443);
    assert_eq!(server_target(&p, 443), "192.0.2.10:443");
    for bad in ["", "sha256:", "sha256:00", "md5:00", "sha256:zz"] {
        assert_eq!(
            pin(Some(bad)).fingerprint_bytes(),
            Err(ClientError::BadFingerprint)
        );
        assert_eq!(parse_pin(bad), None);
    }
    assert_eq!(pin(None).fingerprint_bytes(), Ok(None));
    assert_eq!(
        connection_pin(&pin(None)).err().unwrap().to_text(),
        "config: server pin has no fingerprint (only IpMode is supported today)"
    );
    assert_eq!(
        unresolved("h:1", Some("nope")).to_text(),
        "bad server address `h:1: nope`"
    );
    assert_eq!(unresolved("h:1", None), ClientError::BadServerAddr("h:1".into()));
}

#[test]
fn a_learned_certificate_is_accepted_again() {
    let one = rcgen::generate_simple_self_signed(vec!["a.example".to_string()]).unwrap();
    let two = rcgen::generate_simple_self_signed(vec!["a.example".to_string()]).unwrap();
    let der = one.cert.der().to_vec();
    let fp = learn_server_cert(&der).unwrap();
    assert!(fp.starts_with("sha256:"));
    let pinned = parse_pin(&fp).unwrap();
    assert_eq!(verify_server_cert(&der, &pinned), Ok(()));
    assert_eq!(
        verify_server_cert(two.cert.der(), &pinned),
        Err("server SPKI fingerprint does not match pin".to_string())
    );
    assert!(verify_server_cert(b"junk", &pinned).unwrap_err().starts_with("cert parse: "));
    assert!(learn_server_cert(b"junk").is_err());
    // SHA-256 of the empty text.
    let empty = parse_pin("sha256:e3b0c44298fc1c149afbf4c8996fb92427ae41e4649b934ca495991b7852b855");
    assert_eq!(check_spki(&Ok(vec![]), &empty.unwrap()), Ok(()));
}

#[test]
fn a_session_is_opened_by_a_signature() {
    let id = Identity::of_key(&SigningKey::from_bytes(&[8u8; 32]));
    let ClientFrame::AuthRequest { pubkey } = auth_request(&id).unwrap() else {
        panic!("expected AuthRequest");
    };
    let nonce = Nonce([4u8; 32]);
    let ChallengeStep::Respond(ClientFrame::AuthResponse { signature }) =
        on_challenge(&id, &ServerFrame::AuthChallenge { nonce })
    else {
        panic!("expected AuthResponse");
    };
    assert!(verify_challenge(&pubkey, &nonce, &signature));
    assert!(matches!(
        on_challenge(&id, &ServerFrame::Pong { nonce: 1 }),
        ChallengeStep::ReadReject
    ));
    let broken = Identity {
        private_key: "x".into(),
        public_key: "x".into(),
    };
    assert!(auth_request(&broken).is_err());
    assert!(matches!(
        on_challenge(&broken, &ServerFrame::AuthChallenge { nonce }),
        ChallengeStep::Fail(ClientError::Config(_))
    ));

    let code = ErrorCode(ErrorCode::UNKNOWN_IDENTITY);
    assert_eq!(
        read_reject(Some(&ServerFrame::AuthReject { code })),
        ClientError::AuthRejected(code)
    );
    assert_eq!(
        read_reject(Some(&ServerFrame::ServerBye { code })),
        ClientError::AuthRejected(code)
    );
    assert_eq!(read_reject(None), ClientError::Protocol("expected AuthChallenge"));
    let session_id = SessionId([1u8; 16]);
    assert_eq!(on_verdict(&ServerFrame::AuthOk { session_id }), Ok(session_id));
    assert_eq!(
        on_verdict(&ServerFrame::AuthReject { code }),
        Err(ClientError::AuthRejected(code))
    );
    assert_eq!(
        on_verdict(&ServerFrame::Pong { nonce: 1 }),
        Err(ClientError::Protocol("expected AuthOk"))
    );
    assert_eq!(
        on_peers(ServerFrame::Peers {
            relays: vec!["r".into()]
        }),
        Ok(vec!["r".to_string()])
    );
    assert_eq!(
        on_peers(ServerFrame::Pong { nonce: 1 }),
        Err(ClientError::Protocol("expected Peers response"))
    );
}

#[test]
fn only_transport_failures_fall_back() {
    assert!(is_transport_failure(&ClientError::Transport("t".into())));
    assert!(is_transport_failure(&ClientError::BadServerAddr("a".into())));
    assert!(!is_transport_failure(&ClientError::BadFingerprint));
    assert!(matches!(
        after_quic_failure(ClientError::Transport("t".into())),
        AfterFailure::FallBack
    ));
    assert!(matches!(
        after_quic_failure(ClientError::Io("x".into())),
        AfterFailure::GiveUp(ClientError::Io(_))
    ));
}

#[test]
fn registrations() {
    let id = SessionId([2u8; 16]);
    assert_eq!(
        publish_tcp("tcp"),
        ClientFrame::RegisterTunnel {
            label: "tcp".into(),
            kind: TunnelKind::Tcp { remote_port: None },
            resume_session_id: None,
            inspect: false,
        }
    );
    assert_eq!(
        publish_http_resume("web", true, id),
        ClientFrame::RegisterTunnel {
            label: "web".into(),
            kind: TunnelKind::Http,
            resume_session_id: Some(id),
            inspect: true,
        }
    );
    assert!(matches!(
        publish_tcp_resume("t", id),
        ClientFrame::RegisterTunnel { resume_session_id: Some(x), inspect: false, .. } if x == id
    ));
    assert!(matches!(
        publish_http("w", false),
        ClientFrame::RegisterTunnel { kind: TunnelKind::Http, inspect: false, .. }
    ));
    let t = on_registered(Some(ServerFrame::TunnelRegistered {
        tunnel_id: TunnelId(9),
        public_url: "tcp://x:1".into(),
        public_port: Some(1),
    }))
    .unwrap();
    assert_eq!((t.tunnel_id, t.public_port), (TunnelId(9), Some(1)));
    assert_eq!(t.public_url, "tcp://x:1");
    let code = ErrorCode(ErrorCode::LABEL_UNAVAILABLE);
    let err = on_registered(Some(ServerFrame::TunnelRejected {
        code,
        detail: "taken".into(),
    }))
    .unwrap_err();
    assert_eq!(err, ClientError::TunnelRejected(code, "taken".into()));
    assert!(err.to_text().ends_with(" — taken"));
    assert_eq!(on_registered(None).unwrap_err(), ClientError::RegistrationTimeout);
    assert_eq!(
        on_registered(Some(ServerFrame::Pong { nonce: 0 })).unwrap_err(),
        ClientError::Protocol("expected TunnelRegistered")
    );
}

fn options(pinned: Option<&str>) -> EnrollOptions {
    EnrollOptions {
        server_host: "relay.example".into(),
        server_quic_port: 7853,
        sni: Some("sni.example".into()),
        admin_token: "TOKEN".into(),
        label_hint: Some("laptop".into()),
        pinned_fingerprint: pinned.map(|s| s.to_string()),
    }
}

#[test]
fn enrollment() {
    let fp = format!("sha256:{}", "01".repeat(32));
    assert_eq!(enroll_pin(&options(Some(&fp))), Ok(Some([1u8; 32])));
    assert_eq!(enroll_pin(&options(None)), Ok(None));
    assert_eq!(
        enroll_pin(&options(Some("sha256:01"))),
        Err(ClientError::BadFingerprint)
    );
    let server = enroll_server(&options(Some(&fp)));
    assert_eq!(server.effective_sni(), "sni.example");
    assert_eq!(server.fingerprint.as_deref(), Some(fp.as_str()));

    let id = Identity::of_key(&SigningKey::from_bytes(&[6u8; 32]));
    assert_eq!(
        enroll_request(&options(None), &id).unwrap(),
        ClientFrame::Enroll {
            admin_token: "TOKEN".into(),
            pubkey: id.pubkey().unwrap(),
            label_hint: Some("laptop".into()),
        }
    );
    assert_eq!(
        on_enroll_reply(ServerFrame::EnrollOk {
            authorized_line: "line".into()
        }),
        Ok("line".to_string())
    );
    let code = ErrorCode(ErrorCode::TOKEN_EXPIRED);
    assert_eq!(
        on_enroll_reply(ServerFrame::EnrollRejected { code }),
        Err(ClientError::EnrollRejected(code))
    );
    assert_eq!(
        on_enroll_reply(ServerFrame::Pong { nonce: 0 }),
        Err(ClientError::Protocol("expected EnrollOk"))
    );
    let pinned = enroll(&options(Some(&fp)), id.clone(), Some("sha256:seen".into()));
    assert_eq!(pinned.server.fingerprint.as_deref(), Some(fp.as_str()));
    let tofu = enroll(&options(None), id, Some("sha256:seen".into()));
    assert_eq!(tofu.server.fingerprint.as_deref(), Some("sha256:seen"));
    assert_eq!(tofu.server.host, "relay.example");
    // A half-finished enrollment keeps its key.
    let key = tofu.identity.private_key.clone();
    assert_eq!(enroll_identity(Some(tofu)).private_key, key);
    assert_ne!(enroll_identity(None::<ClientConfig>).private_key, key);
    let _: PubKey = enroll_identity(None).pubkey().unwrap();
}
