//! The relay's rates, metrics, admin API and routers.

use krot::proto::frames::{HttpMetadata, InspectionPrelude, ServerFrame};
use krot::proto::framing::{decode_frame, FramingError};
use krot::proto::ids::{PubKey, SessionId, TunnelId};
use krot::proto::stream::{DataHeader, StreamKind};
use krot::server::admin::AdminTokenStore;
use krot::server::admin_api::{AdminAction, AdminApiState, ReadStep, Request, RequestReader};
use krot::server::admin_reply::{
    finish_append, finish_delete, format_rate, handle_list_keys, handle_list_tunnels,
    handle_metrics, handle_session, plan_append, plan_delete, render, response, AdminReply,
    TunnelSnapshot, TunnelSnapshotKind,
};
use krot::server::domain::http::{
    challenge_response, extract_label, http_prelude, judge_head, open_stream, read_request,
    route_request, unknown_host_response, unknown_tunnel_response, HeadStep, HttpRoute,
};
use krot::server::domain::https::{https_prelude, route_hello, HttpsRoute};
use krot::server::domain::replay::ReplayStream;
use krot::server::domain::sni::{
    parse_client_hello_for_fuzz, peek_eof, peek_sni, PeekStep, SniPeek,
};
use krot::server::domain::tls_source::{load_tls_from_pem, pem_bundle};
use krot::server::error::ServerError;
use krot::server::keys::KeyRegistry;
use krot::server::metrics::ServerMetrics;
use krot::server::rate::{parse_rate_per, Charge, Period, RateLimitState, RatePer};
use krot::server::shovel::{Shovel, ShovelAction, ShovelEvent};
use krot::server::tunnel::handle_incoming;

#[test]
fn parses_bw() {
    let r = parse_rate_per("50MB/s").unwrap();
    assert_eq!(r.bytes, 50_000_000);
    assert_eq!(r.period, Period::Second);
    assert_eq!(r.as_bytes_per_second(), 50_000_000);
}

#[test]
fn parses_quota() {
    let r = parse_rate_per("500GB/month").unwrap();
    assert_eq!(r.bytes, 500_000_000_000);
    assert_eq!(r.period, Period::Month);
}

#[test]
fn parses_units() {
    assert_eq!(parse_rate_per("1KiB/s").unwrap().bytes, 1024);
    assert_eq!(parse_rate_per("1MiB/s").unwrap().bytes, 1024 * 1024);
    assert_eq!(parse_rate_per("2GB/day").unwrap().bytes, 2_000_000_000);
}

#[test]
fn rejects_bogus() {
    assert!(parse_rate_per("garbage").is_none());
    assert!(parse_rate_per("50MB").is_none());
    assert!(parse_rate_per("50MB/yr").is_none());
}

#[test]
fn rates_are_written_as_they_are_read() {
    let rate = RatePer {
        bytes: 1_500,
        period: Period::Week,
    };
    assert_eq!(format_rate(rate), "1500B/week");
    assert_eq!(parse_rate_per("1500B/week"), Some(rate));
    assert_eq!(Period::Hour.as_duration(), 3600);
    assert_eq!(
        RatePer {
            bytes: 61,
            period: Period::Minute
        }
        .as_bytes_per_second(),
        2
    );
}

#[test]
fn quota_exhausts_and_reports_retry() {
    let mut state = RateLimitState::from_entry(
        None,
        Some(RatePer {
            bytes: 100,
            period: Period::Second,
        }),
        1,
    );
    assert!(matches!(state.charge(TunnelId(1), 60), Charge::Accepted));
    // 60 + 60 > 100 — should trip.
    let c = state.charge(TunnelId(1), 60);
    assert!(matches!(c, Charge::QuotaExceeded { .. }), "got {c:?}");
}

#[test]
fn no_quota_is_always_ok() {
    let mut state = RateLimitState::from_entry(None, None, 1);
    for _ in 0..1000 {
        assert!(matches!(
            state.charge(TunnelId(1), 1_000_000),
            Charge::Accepted
        ));
    }
}

#[test]
fn bw_partitions_split_evenly() {
    // 4 workers, 400 B/s cap → each worker gets 100 B/s bucket.
    let state = RateLimitState::from_entry(
        Some(RatePer {
            bytes: 400,
            period: Period::Second,
        }),
        None,
        4,
    );
    let Some(buckets) = state.bw.as_ref() else {
        panic!("expected bw buckets");
    };
    assert_eq!(buckets.len(), 4);
    assert_eq!(buckets, &vec![100u32; 4]);
    assert_eq!(state.throttle(6, 10), Some(2));
}

#[test]
fn bw_partitions_zero_treated_as_one() {
    // Defensive: 0 workers should still produce 1 bucket at full
    // rate rather than divide-by-zero panic.
    let state = RateLimitState::from_entry(
        Some(RatePer {
            bytes: 100,
            period: Period::Second,
        }),
        None,
        0,
    );
    let buckets = state.bw.as_ref().unwrap();
    assert_eq!(buckets.len(), 1);
}

#[test]
fn a_breach_is_told_and_counted_until_the_period_ends() {
    let second: u128 = 1_000_000_000;
    let mut state = RateLimitState::from_entry_with_metrics(
        None,
        Some(RatePer {
            bytes: 100,
            period: Period::Minute,
        }),
        1,
        true,
    );
    let mut metrics = ServerMetrics::started_at(0);
    state.attach_ctrl();
    let start = state.quota_reset_at - 60 * second;
    assert_eq!(state.charge_at(TunnelId(4), 100, start, start), Charge::Accepted);
    let c = state.charge_at(TunnelId(4), 1, start, start + 59 * second);
    assert_eq!(
        c,
        Charge::QuotaExceeded {
            retry_after_ms: 1000
        }
    );
    assert_eq!(
        state.take_frames(),
        vec![ServerFrame::RateLimit {
            tunnel_id: Some(TunnelId(4)),
            retry_after_ms: 1000
        }]
    );
    assert!(state.take_frames().is_empty());
    assert_eq!(state.unreported, Some(1));
    state.report_breaches(&mut metrics);
    assert_eq!(metrics.rate_limit_quota_exceeded, 1);
    state.report_breaches(&mut metrics);
    assert_eq!(metrics.rate_limit_quota_exceeded, 1);
    assert_eq!(state.quota_used_snapshot(), 101);
    // The next period starts from nothing.
    let later = start + 60 * second;
    assert_eq!(state.charge_at(TunnelId(4), 7, later, later), Charge::Accepted);
    assert_eq!(state.quota_used_snapshot(), 7);
    assert_eq!(state.retry_after_ms_at(later), 60_000);
    state.detach_ctrl();
    assert!(state.ctrl.is_none());
    assert!(state.take_frames().is_empty());
}

#[test]
fn a_charge_that_overflows_is_a_breach() {
    let mut state = RateLimitState::from_entry(
        None,
        Some(RatePer {
            bytes: 100,
            period: Period::Month,
        }),
        1,
    );
    assert_eq!(state.charge(TunnelId(1), 1), Charge::Accepted);
    let c = state.charge(TunnelId(1), u64::MAX);
    assert!(matches!(c, Charge::QuotaExceeded { .. }));
    assert_eq!(state.quota_used_snapshot(), u64::MAX);
    let c = state.charge(TunnelId(1), 1);
    assert!(matches!(c, Charge::QuotaExceeded { .. }));
}

#[test]
fn one_direction_of_a_relay() {
    let mut seen = false;
    let mut s = Shovel::new();
    assert_eq!(s.start(seen), ShovelAction::ReadWithin);
    assert_eq!(s.step(ShovelEvent::Elapsed, &mut seen), ShovelAction::TimedOut);
    assert_eq!(
        s.step(ShovelEvent::Chunk { n: 5 }, &mut seen),
        ShovelAction::Meter { tokens: 5, bytes: 5 }
    );
    assert!(seen);
    let ok = ShovelEvent::Charged {
        charge: Charge::Accepted,
    };
    assert_eq!(s.step(ok, &mut seen), ShovelAction::Write { n: 5 });
    assert_eq!(s.step(ShovelEvent::Written, &mut seen), ShovelAction::Read);
    let over = ShovelEvent::Charged {
        charge: Charge::QuotaExceeded { retry_after_ms: 1 },
    };
    s.step(ShovelEvent::Chunk { n: 9 }, &mut seen);
    assert_eq!(s.step(over, &mut seen), ShovelAction::QuotaExceeded);
    assert_eq!(
        s.step(ShovelEvent::Chunk { n: 0 }, &mut seen),
        ShovelAction::Finish { total: 5 }
    );
    // The other direction has spoken: there is no deadline any more.
    let mut t = Shovel::new();
    assert_eq!(t.start(seen), ShovelAction::Read);
    assert_eq!(t.step(ShovelEvent::Elapsed, &mut seen), ShovelAction::Read);
}

#[test]
fn every_atomic_counter_is_serialised() {
    // Bump every field so a scrape reflects real activity.
    let mut m = ServerMetrics::new();
    m.handshake_auth_ok += 1;
    m.handshake_unknown_identity += 2;
    m.handshake_signature_invalid += 3;
    m.handshake_timed_out += 4;
    m.handshake_protocol_violation += 5;
    m.enrollment_ok += 6;
    m.enrollment_rejected += 7;
    m.session_bye += 8;
    m.session_dropped += 9;
    m.session_terminal += 10;
    m.resume_reattached += 11;
    m.resume_identity_mismatch += 12;
    m.resume_unknown += 13;
    m.tunnel_registered_http += 14;
    m.tunnel_registered_tcp += 15;
    m.tunnel_rejected_label += 16;
    m.tunnel_rejected_conns += 17;
    m.tunnel_rejected_ports += 18;
    m.tunnel_rejected_pool += 19;
    m.tunnel_rejected_peer_collision += 20;
    m.rate_limit_quota_exceeded += 21;
    m.transport_quic_accepted += 22;
    m.transport_tcp_fallback_accepted += 23;
    m.admin_api_session_minted += 24;
    m.admin_api_session_rejected += 25;
    m.admin_api_key_appended += 26;
    m.admin_api_key_removed += 27;
    m.admin_api_key_remove_not_found += 28;
    m.admin_api_auth_failed += 29;

    let text = m.to_prometheus_text(3, 1, &[("AAAA==".into(), 999)]);

    // Every value we set should show up on its own line. Grep by
    // suffix so a rename catches this test at the same time as
    // the metric name changes.
    for (name, val) in [
        ("krot_handshake_auth_ok_total", 1),
        ("krot_handshake_unknown_identity_total", 2),
        ("krot_handshake_signature_invalid_total", 3),
        ("krot_handshake_timed_out_total", 4),
        ("krot_handshake_protocol_violation_total", 5),
        ("krot_enrollment_ok_total", 6),
        ("krot_enrollment_rejected_total", 7),
        ("krot_session_bye_total", 8),
        ("krot_session_dropped_total", 9),
        ("krot_session_terminal_total", 10),
        ("krot_resume_reattached_total", 11),
        ("krot_resume_identity_mismatch_total", 12),
        ("krot_resume_unknown_total", 13),
        ("krot_tunnel_registered_http_total", 14),
        ("krot_tunnel_registered_tcp_total", 15),
        ("krot_tunnel_rejected_label_total", 16),
        ("krot_tunnel_rejected_conns_total", 17),
        ("krot_tunnel_rejected_ports_total", 18),
        ("krot_tunnel_rejected_pool_total", 19),
        ("krot_tunnel_rejected_peer_collision_total", 20),
        ("krot_rate_limit_quota_exceeded_total", 21),
        ("krot_transport_quic_accepted_total", 22),
        ("krot_transport_tcp_fallback_accepted_total", 23),
        ("krot_admin_api_session_minted_total", 24),
        ("krot_admin_api_session_rejected_total", 25),
        ("krot_admin_api_key_appended_total", 26),
        ("krot_admin_api_key_removed_total", 27),
        ("krot_admin_api_key_remove_not_found_total", 28),
        ("krot_admin_api_auth_failed_total", 29),
    ] {
        let expected = format!("\n{name} {val}\n");
        assert!(
            text.contains(&expected),
            "missing `{expected}` in scrape:\n{text}"
        );
    }

    // Gauges + per-identity map.
    assert!(text.contains("krot_tunnels_total 4"));
    assert!(text.contains("krot_tunnels_dangling_total 1"));
    assert!(text.contains("krot_bytes_period_used{pubkey=\"AAAA==\"} 999"));
    assert!(text.contains("krot_build_info{version="));
}

fn request(method: &str, path: &str, bearer: Option<&str>) -> Request {
    let mut headers = vec![("Host".to_string(), "x".to_string())];
    if let Some(b) = bearer {
        headers.push(("authorization".into(), format!("Bearer {b}")));
    }
    Request {
        method: method.into(),
        path: path.into(),
        headers,
        body: vec![],
    }
}

fn routed(state: &mut AdminApiState, m: &mut ServerMetrics, req: &Request) -> AdminAction {
    let auth = req.auth_bearer();
    state.route(req, auth.as_deref(), m)
}

#[test]
fn admin_endpoints_need_a_session() {
    let mut state = AdminApiState::new(60);
    let mut m = ServerMetrics::started_at(0);
    assert!(matches!(
        routed(&mut state, &mut m, &request("POST", "/admin/v1/session", None)),
        AdminAction::Session
    ));
    for bearer in [None, Some("guess")] {
        assert!(matches!(
            routed(&mut state, &mut m, &request("GET", "/admin/v1/tunnels", bearer)),
            AdminAction::Refuse { code: 401, .. }
        ));
    }
    assert_eq!(m.admin_api_auth_failed, 2);
    let (token, expires) = state.mint_session_at(&[1u8; 32], 0, 1_000);
    assert_eq!(expires, 1_060);
    assert!(state.check_session_at(&token, 59_000_000_000));
    assert!(!state.check_session_at("other", 0));
    let (token, _) = state.mint_session();
    assert!(state.check_session(&token));
    assert!(matches!(
        routed(&mut state, &mut m, &request("GET", "/admin/v1/tunnels", Some(&token))),
        AdminAction::ListTunnels
    ));
    assert!(matches!(
        routed(&mut state, &mut m, &request("DELETE", "/admin/v1/keys/abc", Some(&token))),
        AdminAction::DeleteKey { pubkey_b64 } if pubkey_b64 == "abc"
    ));
    assert!(matches!(
        routed(&mut state, &mut m, &request("GET", "/nowhere", Some(&token))),
        AdminAction::Refuse { code: 404, .. }
    ));
    // A session ends.
    let (token, _) = state.mint_session_at(&[2u8; 32], 0, 0);
    assert!(!state.check_session_at(&token, 60_000_000_000));
}

#[test]
fn requests_are_read_chunk_by_chunk() {
    let mut r = RequestReader::new();
    assert!(matches!(r.feed(b"POST /p HTTP/1.1\r\nContent-Le"), ReadStep::More));
    assert!(matches!(r.feed(b"ngth: 5\r\n\r\nab"), ReadStep::More));
    let ReadStep::Done(req) = r.feed(b"cdefgh") else {
        panic!("expected Done");
    };
    assert_eq!((req.method.as_str(), req.path.as_str()), ("POST", "/p"));
    assert_eq!(req.body, b"abcde".to_vec());
    let mut r = RequestReader::new();
    assert!(matches!(r.feed(b""), ReadStep::UnexpectedEof("eof reading headers")));
    let mut r = RequestReader::new();
    assert!(matches!(r.feed(b"\0\0\0 /\r\n\r\n"), ReadStep::InvalidData(_)));
    let mut r = RequestReader::new();
    let mut head = b"GET / HTTP/1.1\r\nX: ".to_vec();
    head.extend_from_slice(&vec![b'a'; 9000]);
    assert!(matches!(r.feed(&head), ReadStep::InvalidData(_)));
}

#[test]
fn an_enrollment_token_buys_one_session() {
    let mut state = AdminApiState::new(60);
    let mut tokens = AdminTokenStore::new();
    let mut m = ServerMetrics::started_at(0);
    let token = tokens.issue();
    assert!(matches!(
        handle_session(&mut state, None, &mut tokens, &mut m),
        AdminReply::Error { code: 400, .. }
    ));
    assert!(matches!(
        handle_session(&mut state, Some("no"), &mut tokens, &mut m),
        AdminReply::Error { code: 401, .. }
    ));
    let AdminReply::Session { session_token, .. } =
        handle_session(&mut state, Some(&token), &mut tokens, &mut m)
    else {
        panic!("expected Session");
    };
    assert!(state.check_session(&session_token));
    assert_eq!((m.admin_api_session_minted, m.admin_api_session_rejected), (1, 1));
    assert!(matches!(
        handle_session(&mut state, Some(&token), &mut tokens, &mut m),
        AdminReply::Error { code: 401, .. }
    ));
}

#[test]
fn replies_of_the_admin_api() {
    let mut keys = KeyRegistry::open("").unwrap();
    let mut m = ServerMetrics::started_at(0);
    let line = "ed25519 AAAAAAAAAAAAAAAAAAAAAAAAAAAAAAAAAAAAAAAAAAA= subdomain=a,b bw=5B/s # me";
    let pending = plan_append(&keys, Some(line), "").ok().unwrap();
    assert_eq!(pending.contents, format!("{line}\n"));
    let reply = finish_append(&mut keys, pending, Ok(()), &mut m);
    let (status, body) = render(&reply).unwrap();
    assert_eq!(status, "200 OK");
    let value: serde_json::Value = serde_json::from_slice(&body).unwrap();
    assert_eq!(value["appended"], line);
    assert_eq!(m.admin_api_key_appended, 1);
    let listed = handle_list_keys(&keys);
    assert_eq!(listed.len(), 1);
    assert_eq!(listed[0].pubkey_b64, "AAAAAAAAAAAAAAAAAAAAAAAAAAAAAAAAAAAAAAAAAAA=");
    assert_eq!(listed[0].allowed_subdomains, vec!["a", "b"]);
    assert_eq!(listed[0].bw.as_deref(), Some("5B/s"));

    let err = plan_append(&keys, Some("x"), "").err().unwrap();
    let (status, body) = render(&err).unwrap();
    assert_eq!(status, "400 Bad Request");
    assert!(String::from_utf8(body.clone()).unwrap().starts_with("{\"error\":\""));
    assert!(response(status, &body).starts_with(b"HTTP/1.1 400 Bad Request\r\nContent-Type: application/json\r\n"));
    assert!(plan_append(&keys, None, "").is_err());

    assert_eq!(
        plan_delete("AAAAAAAAAAAAAAAAAAAAAAAAAAAAAAAAAAAAAAAAAAA=").ok(),
        Some(PubKey([0u8; 32]))
    );
    assert!(matches!(
        plan_delete("AAAA"),
        Err(AdminReply::Error { code: 400, message }) if message == "pubkey must be 32 bytes"
    ));
    assert!(matches!(
        plan_delete("?"),
        Err(AdminReply::Error { code: 400, message }) if message == "pubkey is not standard base64"
    ));
    assert!(matches!(finish_delete(Ok(true), &mut m), AdminReply::NoContent));
    assert!(matches!(
        finish_delete(Ok(false), &mut m),
        AdminReply::Error { code: 404, .. }
    ));
    assert!(matches!(
        finish_delete(Err(ServerError::Io("disk".into())), &mut m),
        AdminReply::Error { code: 500, .. }
    ));
    let tunnels = vec![
        TunnelSnapshot {
            tunnel_id: TunnelId(1),
            owner: PubKey([0u8; 32]),
            session_id: SessionId([0u8; 16]),
            live: true,
            inspect: false,
            kind: TunnelSnapshotKind::Http { label: "a".into() },
        },
        TunnelSnapshot {
            tunnel_id: TunnelId(2),
            owner: PubKey([0u8; 32]),
            session_id: SessionId([0u8; 16]),
            live: false,
            inspect: true,
            kind: TunnelSnapshotKind::Tcp { public_port: 99 },
        },
    ];
    let dtos = handle_list_tunnels(&tunnels);
    assert_eq!((dtos[0].kind, dtos[0].state), ("http", "live"));
    assert_eq!((dtos[1].kind, dtos[1].state, dtos[1].public_port), ("tcp", "dangling", Some(99)));
    assert_eq!(dtos[0].session_id_b64, "AAAAAAAAAAAAAAAAAAAAAA==");
    let AdminReply::Text { text } = handle_metrics(&tunnels, &vec![(PubKey([0u8; 32]), 5)], &m) else {
        panic!("expected Text");
    };
    assert!(text.contains("krot_tunnels_total 2"));
    assert!(text.contains("} 5"));
}

#[test]
fn extracts_labels() {
    assert_eq!(
        extract_label("alice.krot.example", "krot.example"),
        Some("alice".into())
    );
    assert_eq!(
        extract_label("Alice.KROT.Example:8080", "krot.example"),
        Some("alice".into())
    );
    assert_eq!(extract_label("krot.example", "krot.example"), None);
    assert_eq!(extract_label("other.com", "krot.example"), None);
    assert_eq!(
        extract_label("a.b.krot.example", "krot.example"),
        Some("a.b".into())
    );
}

#[test]
fn serves_acme_challenge() {
    let buf = b"GET /.well-known/acme-challenge/tokABC HTTP/1.1\r\nHost: anything\r\n\r\n".to_vec();
    let HeadStep::Done { host, path } = read_request(&buf) else {
        panic!("expected Done");
    };
    let HttpRoute::Challenge { token } = route_request(&host, &path, "krot.test") else {
        panic!("expected Challenge");
    };
    assert_eq!(token, "tokABC");
    let reply = challenge_response(Some("tokABC.thumbprint"));
    let body = std::str::from_utf8(&reply).unwrap();
    assert!(body.starts_with("HTTP/1.1 200 OK"));
    assert!(body.ends_with("tokABC.thumbprint"), "got: {body:?}");
    let missing = challenge_response(None);
    assert!(missing.starts_with(b"HTTP/1.1 404 Not Found"));
}

#[test]
fn http_requests_are_routed_by_host() {
    assert!(matches!(read_request(&b"GET / HT".to_vec()), HeadStep::More));
    assert!(matches!(read_request(&b"GE\0 /\r\n\r\n".to_vec()), HeadStep::InvalidData(_)));
    let mut long = b"GET / HTTP/1.1\r\nX: ".to_vec();
    long.extend_from_slice(&vec![b'a'; 9000]);
    assert!(matches!(read_request(&long), HeadStep::InvalidData(m) if m == "headers exceed cap"));
    let p = krot::http_parse::ParsedRequest {
        status: krot::http_parse::ParseStatus::Complete(1),
        method: None,
        path: None,
        headers: vec![],
    };
    assert!(matches!(judge_head(&p, 1), HeadStep::Done { host, path } if host.is_empty() && path == "/"));
    assert!(matches!(
        route_request("A.krot.test:80", "/x", "krot.test"),
        HttpRoute::Tunnel { label } if label == "a"
    ));
    assert!(matches!(route_request("krot.test", "/x", "krot.test"), HttpRoute::UnknownHost));
    assert!(unknown_host_response().ends_with(b"unknown host"));
    assert!(unknown_tunnel_response().ends_with(b"unknown tunnel"));
}

#[test]
fn what_is_sent_on_a_data_stream() {
    let prelude = http_prelude(7, "192.0.2.1:5".into(), "a.krot.test".into());
    let bytes = open_stream(StreamKind::DataHttp, TunnelId(3), Some(&prelude), b"GET /").unwrap();
    let mut head = [0u8; 9];
    head.copy_from_slice(&bytes[..9]);
    assert_eq!(
        DataHeader::decode(&head).unwrap(),
        DataHeader {
            kind: StreamKind::DataHttp,
            tunnel_id: TunnelId(3)
        }
    );
    let (back, used): (InspectionPrelude, usize) = decode_frame(&bytes[9..]).unwrap();
    assert_eq!(back, prelude);
    assert_eq!(&bytes[9 + used..], b"GET /");
    let plain = handle_incoming(TunnelId(3), false, 7, "p".into()).unwrap();
    assert_eq!(plain.len(), 9);
    let told = handle_incoming(TunnelId(3), true, 7, "p".into()).unwrap();
    let (back, _): (InspectionPrelude, usize) = decode_frame(&told[9..]).unwrap();
    assert_eq!(back.http, None);
    let huge = handle_incoming(TunnelId(3), true, 7, "p".repeat(70_000));
    assert!(matches!(huge, Err(FramingError::FrameTooLarge { .. })));
    let tls = https_prelude(7, "p".into(), &"s.krot.test".to_string());
    assert_eq!(
        tls.http,
        Some(HttpMetadata {
            host: "s.krot.test".into(),
            sni: Some("s.krot.test".into())
        })
    );
}

#[test]
fn read_drains_replay_then_delegates() {
    let mut wrapped = ReplayStream::new(b"prefix-".to_vec(), b"suffix".to_vec());
    let mut got = Vec::new();
    while let Some(chunk) = wrapped.next_chunk(3) {
        got.extend_from_slice(&chunk);
    }
    got.extend_from_slice(&wrapped.inner);
    assert_eq!(got, b"prefix-suffix");
}

// A hand-crafted minimal ClientHello with SNI = "alice.krot.test".
// Constructed by concatenating the record + handshake headers around a
// valid ClientHello body.
fn build_hello(sni: &str) -> Vec<u8> {
    build_hello_from(sni_extension(sni))
}

fn sni_extension(sni: &str) -> Vec<u8> {
    let sni_bytes = sni.as_bytes();
    // SNI extension body: list_len(u16) name_type(u8) name_len(u16) name
    let mut sni_ext = Vec::new();
    let list_len = (1 + 2 + sni_bytes.len()) as u16;
    sni_ext.extend_from_slice(&list_len.to_be_bytes());
    sni_ext.push(0); // host_name
    sni_ext.extend_from_slice(&(sni_bytes.len() as u16).to_be_bytes());
    sni_ext.extend_from_slice(sni_bytes);
    // Extension: type(u16=0) length(u16) data
    let mut exts = Vec::new();
    exts.extend_from_slice(&0u16.to_be_bytes());
    exts.extend_from_slice(&(sni_ext.len() as u16).to_be_bytes());
    exts.extend_from_slice(&sni_ext);
    exts
}

fn build_hello_from(exts: Vec<u8>) -> Vec<u8> {
    let mut body = Vec::new();
    body.extend_from_slice(&[0x03, 0x03]); // legacy_version
    body.extend_from_slice(&[0u8; 32]); // random
    body.push(0); // sid_len
    body.extend_from_slice(&[0u8, 2, 0x13, 0x01]); // 2 bytes cipher suite
    body.push(1); // cm_len
    body.push(0);
    body.extend_from_slice(&(exts.len() as u16).to_be_bytes());
    body.extend_from_slice(&exts);

    let mut handshake = Vec::new();
    handshake.push(0x01); // client_hello
    let body_len = body.len();
    handshake.push(((body_len >> 16) & 0xff) as u8);
    handshake.push(((body_len >> 8) & 0xff) as u8);
    handshake.push((body_len & 0xff) as u8);
    handshake.extend_from_slice(&body);

    let mut record = Vec::new();
    record.push(0x16); // handshake
    record.extend_from_slice(&[0x03, 0x03]); // version
    record.extend_from_slice(&(handshake.len() as u16).to_be_bytes());
    record.extend_from_slice(&handshake);
    record
}

/// Same as `build_hello` but with an ALPN extension carrying the
/// given identifiers.
fn build_hello_with_alpn(sni: &str, alpns: &[&[u8]]) -> Vec<u8> {
    let mut exts = sni_extension(sni);
    // ALPN extension: type 0x0010, then u16 length, then
    // ProtocolNameList {u16 list_len, N x {u8 name_len, name}}.
    let mut names_body = Vec::new();
    for name in alpns {
        names_body.push(name.len() as u8);
        names_body.extend_from_slice(name);
    }
    let mut alpn_ext = Vec::new();
    alpn_ext.extend_from_slice(&(names_body.len() as u16).to_be_bytes());
    alpn_ext.extend_from_slice(&names_body);
    exts.extend_from_slice(&0x0010u16.to_be_bytes());
    exts.extend_from_slice(&(alpn_ext.len() as u16).to_be_bytes());
    exts.extend_from_slice(&alpn_ext);
    build_hello_from(exts)
}

#[test]
fn parses_hand_crafted_hello() {
    let hello = build_hello("alice.krot.test");
    // The parser sees the record body (skip 5-byte header).
    let (sni, alpn) = parse_client_hello_for_fuzz(&hello[5..]).unwrap();
    assert_eq!(sni, "alice.krot.test");
    assert!(alpn.is_empty(), "hand-crafted hello has no ALPN extension");
}

#[test]
fn parses_alpn_extension() {
    let hello = build_hello_with_alpn("alice.krot.test", &[b"krot-tcp/1", b"h2", b"http/1.1"]);
    let (sni, alpn) = parse_client_hello_for_fuzz(&hello[5..]).unwrap();
    assert_eq!(sni, "alice.krot.test");
    assert_eq!(
        alpn,
        vec![b"krot-tcp/1".to_vec(), b"h2".to_vec(), b"http/1.1".to_vec(),]
    );
}

#[test]
fn alpn_absent_yields_empty_list() {
    let hello = build_hello("alice.krot.test");
    let (_, alpn) = parse_client_hello_for_fuzz(&hello[5..]).unwrap();
    assert!(alpn.is_empty());
}

#[test]
fn hellos_are_peeked_and_routed() {
    let hello = build_hello("Alice.krot.test");
    assert!(matches!(peek_sni(&hello[..3].to_vec()), PeekStep::Need(5)));
    assert!(matches!(peek_sni(&hello[..9].to_vec()), PeekStep::Need(n) if n == hello.len()));
    // Bytes behind the record do not matter.
    let mut more = hello.clone();
    more.extend_from_slice(b"garbage");
    let PeekStep::Done(peek) = peek_sni(&more) else {
        panic!("expected Done");
    };
    assert_eq!(peek.buffered, more);
    assert!(matches!(
        route_hello(&peek, "krot.test"),
        HttpsRoute::Tunnel { label } if label == "alice"
    ));
    assert!(matches!(route_hello(&peek, "other.test"), HttpsRoute::Drop));
    let control = SniPeek {
        server_name: "krot.test".into(),
        alpn: vec![b"h2".to_vec(), b"krot-tcp/1".to_vec()],
        buffered: vec![],
    };
    assert!(matches!(route_hello(&control, "krot.test"), HttpsRoute::ControlMux));
    assert!(matches!(peek_sni(&b"GET / HTTP".to_vec()), PeekStep::Fail(_)));
    assert!(matches!(peek_sni(&vec![0x16, 3, 3, 0xff, 0xff]), PeekStep::Fail(_)));
    assert!(matches!(peek_sni(&vec![0x16, 3, 3, 0, 0]), PeekStep::Fail(_)));
    assert_eq!(peek_eof(), ServerError::Protocol("eof while reading ClientHello"));
    for n in 0..hello.len() - 5 {
        assert!(parse_client_hello_for_fuzz(&hello[5..5 + n]).is_err());
    }
}

#[test]
fn pem_bundles() {
    let block = |tag: &str, b64: &str| format!("-----BEGIN {tag}-----\n{b64}\n-----END {tag}-----\n");
    let certs = format!("{}{}{}", block("CERTIFICATE", "AQ=="), block("X", "AA=="), block("CERTIFICATE", "AgM="));
    assert_eq!(pem_bundle(&certs, "CERTIFICATE").unwrap(), vec![vec![1u8], vec![2, 3]]);
    let key = block("PRIVATE KEY", "BA==");
    assert_eq!(
        load_tls_from_pem(&certs, &key, "c", "k").unwrap(),
        (vec![vec![1u8], vec![2, 3]], vec![4u8])
    );
    assert_eq!(
        load_tls_from_pem("", &key, "c", "k").unwrap_err().to_text(),
        "authorized_keys: no CERTIFICATE blocks in c"
    );
    assert_eq!(
        load_tls_from_pem(&certs, "", "c", "k").unwrap_err().to_text(),
        "authorized_keys: no PRIVATE KEY block in k"
    );
    assert!(pem_bundle(&block("CERTIFICATE", "*"), "CERTIFICATE").is_err());
}
