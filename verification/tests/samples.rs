//! Parsers and codecs on many made-up inputs, and laws on concrete values.

use krot::client::inspector::{Inspector, HISTORY_CAP};
use krot::client::local_auth::{session_from_userpass, AuthConfigError, AuthPolicy};
use krot::client::login_page::{
    extract_session_cookie, form_decode, html_escape, parse_login_form, render_login_page,
    safe_next, session_set_cookie, SessionStore,
};
use krot::http_parse::Header;
use krot::proto::frames::{ClientFrame, ServerFrame, TunnelKind};
use krot::proto::framing::{decode_frame, encode_frame, read_step, FrameStep, FramingError};
use krot::proto::ids::PubKey;
use krot::proto::mux::{MuxFlag, MuxHeader, MUX_HEADER_SIZE};
use krot::proto::stream::{DataHeader, StreamKind};
use krot::server::admin::AdminTokenStore;
use krot::server::domain::sni::parse_client_hello_for_fuzz;
use krot::server::keys::{parse_line, parse_ports, KeyRegistry};
use krot::server::metrics::ServerMetrics;

/// A linear congruential generator: the same numbers on every run.
struct Numbers(u64);

impl Numbers {
    fn next(&mut self) -> u64 {
        self.0 = self
            .0
            .wrapping_mul(6364136223846793005)
            .wrapping_add(1442695040888963407);
        self.0 >> 33
    }

    fn below(&mut self, n: u64) -> usize {
        (self.next() % n) as usize
    }

    fn bytes(&mut self, max: u64) -> Vec<u8> {
        let n = self.below(max + 1);
        (0..n).map(|_| self.next() as u8).collect()
    }

    /// Characters that mean something to the parsers, and a few that do not.
    fn text(&mut self, max: u64) -> String {
        let alphabet: Vec<char> =
            "ab0129 =&;%+,-#:/*.\"'<>\t\r\n\u{e9}\u{130}\u{1f600}\u{0}AZfxed25519subdomainports"
                .chars()
                .collect();
        let n = self.below(max + 1);
        (0..n)
            .map(|_| alphabet[self.below(alphabet.len() as u64)])
            .collect()
    }
}

#[test]
fn mux_header_decode_never_panics() {
    let mut r = Numbers(1);
    for _ in 0..2000 {
        let _ = MuxHeader::decode(&r.bytes(63));
    }
}

#[test]
fn mux_header_roundtrip_for_open() {
    let mut r = Numbers(2);
    let mut ids = vec![1, 2, 255, 256, 65_535, 65_536, u32::MAX - 1, u32::MAX];
    ids.extend((0..500).map(|_| r.next() as u32 | 1));
    for stream_id in ids {
        let h = MuxHeader {
            flag: MuxFlag::Open,
            stream_id,
            payload_len: 9,
        };
        let bytes = h.to_bytes();
        assert_eq!(bytes.len(), MUX_HEADER_SIZE);
        assert_eq!(MuxHeader::decode(&bytes).unwrap(), h);
    }
}

#[test]
fn mux_header_roundtrip_for_data() {
    let mut r = Numbers(3);
    for i in 0..500u32 {
        let h = MuxHeader {
            flag: MuxFlag::Data,
            stream_id: if i == 0 { u32::MAX } else { r.next() as u32 },
            payload_len: if i < 2 { i * 1_000_000 } else { r.below(1_000_001) as u32 },
        };
        assert_eq!(MuxHeader::decode(&h.to_bytes()).unwrap(), h);
    }
}

#[test]
fn data_header_decode_never_panics() {
    let mut r = Numbers(4);
    for _ in 0..2000 {
        let mut bytes = [0u8; 9];
        for b in bytes.iter_mut() {
            *b = r.next() as u8;
        }
        let _ = DataHeader::decode(&bytes);
    }
}

#[test]
fn client_frame_decode_never_panics() {
    let mut r = Numbers(5);
    for i in 0..2000 {
        let _ = decode_frame::<ClientFrame>(&r.bytes(if i < 20 { 8192 } else { 80 }));
    }
}

#[test]
fn server_frame_decode_never_panics() {
    let mut r = Numbers(6);
    for i in 0..2000 {
        let _ = decode_frame::<ServerFrame>(&r.bytes(if i < 20 { 8192 } else { 80 }));
    }
}

#[test]
fn client_frame_auth_request_roundtrips() {
    let mut r = Numbers(7);
    for _ in 0..300 {
        let mut key = [0u8; 32];
        for b in key.iter_mut() {
            *b = r.next() as u8;
        }
        let orig = ClientFrame::AuthRequest { pubkey: PubKey(key) };
        let mut buf = Vec::new();
        encode_frame(&orig, &mut buf).unwrap();
        let (back, used) = decode_frame::<ClientFrame>(&buf).unwrap();
        assert_eq!(back, orig);
        assert_eq!(used, buf.len());
    }
}

#[test]
fn client_frame_register_tunnel_roundtrips() {
    let mut r = Numbers(8);
    let alphabet: Vec<char> = "abcdefghijklmnopqrstuvwxyz0123456789-".chars().collect();
    for i in 0..300 {
        let n = if i < 64 { i } else { r.below(64) };
        let label: String = (0..n)
            .map(|_| alphabet[r.below(alphabet.len() as u64)])
            .collect();
        let orig = ClientFrame::RegisterTunnel {
            label,
            kind: TunnelKind::Tcp {
                remote_port: if i % 3 == 0 { None } else { Some(r.next() as u16) },
            },
            resume_session_id: None,
            inspect: i % 2 == 0,
        };
        let mut buf = Vec::new();
        encode_frame(&orig, &mut buf).unwrap();
        let (back, used) = decode_frame::<ClientFrame>(&buf).unwrap();
        assert_eq!(back, orig);
        assert_eq!(used, buf.len());
    }
}

#[test]
fn corrupted_frame_never_panics() {
    for offset in 0..64 {
        for xor_byte in 1u8..=255 {
            let mut buf = Vec::new();
            encode_frame(&ClientFrame::Bye, &mut buf).unwrap();
            buf.resize(64, 0);
            buf[offset] ^= xor_byte;
            let _ = decode_frame::<ClientFrame>(&buf);
        }
    }
}

#[test]
fn stream_kind_try_from_never_panics() {
    for byte in 0u8..=255 {
        assert_eq!(StreamKind::try_from(byte).is_ok(), (1..=3).contains(&byte));
    }
}

#[test]
fn reading_a_frame_asks_for_no_byte_behind_it() {
    let orig = ClientFrame::RegisterTunnel {
        label: "a".repeat(200),
        kind: TunnelKind::Tcp { remote_port: Some(7) },
        resume_session_id: None,
        inspect: true,
    };
    let mut frame = Vec::new();
    encode_frame(&orig, &mut frame).unwrap();
    for k in 0..frame.len() {
        match read_step::<ClientFrame>(&frame[..k]) {
            FrameStep::Need(n) => assert!(k < n && n <= frame.len()),
            FrameStep::Done(_) => panic!("done early"),
            FrameStep::Fail(_) => panic!("failed"),
        }
    }
    assert!(matches!(read_step::<ClientFrame>(&frame), FrameStep::Done(f) if f == orig));
    assert!(matches!(read_step::<ClientFrame>(&[]), FrameStep::Need(1)));
    assert!(matches!(read_step::<ClientFrame>(&[0x80, 0x80]), FrameStep::Need(3)));
    assert!(matches!(read_step::<ClientFrame>(&[3]), FrameStep::Need(4)));
    assert!(matches!(
        read_step::<ClientFrame>(&[0x80; 5]),
        FrameStep::Fail(FramingError::BadVarint)
    ));
    assert!(matches!(
        read_step::<ClientFrame>(&[0xff, 0xff, 0xff, 0x7f]),
        FrameStep::Fail(FramingError::FrameTooLarge { .. })
    ));
}

#[test]
fn parse_line_never_panics() {
    let mut r = Numbers(9);
    for _ in 0..300 {
        let _ = parse_line(&r.text(200));
        let tail = r.text(100);
        let _ = parse_line(&format!(
            "ed25519 AAAAAAAAAAAAAAAAAAAAAAAAAAAAAAAAAAAAAAAAAAA= {tail}"
        ));
    }
}

#[test]
fn parse_ports_never_panics() {
    let mut r = Numbers(10);
    for _ in 0..300 {
        let _ = parse_ports(&r.text(100));
    }
    let _ = parse_ports("0-65535");
    let _ = parse_ports("65535-0");
    let _ = parse_ports("99999999999999999999");
}

#[test]
fn key_registry_open_never_panics() {
    let mut r = Numbers(11);
    for _ in 0..100 {
        let _ = KeyRegistry::open(&r.text(400));
        if let Ok(text) = String::from_utf8(r.bytes(400)) {
            let _ = KeyRegistry::open(&text);
        }
    }
}

#[test]
fn unknown_options_change_nothing() {
    let key = "ed25519 AAAAAAAAAAAAAAAAAAAAAAAAAAAAAAAAAAAAAAAAAAA=";
    let (_, e) = parse_line(&format!("{key} subdomain=* color=red")).unwrap();
    assert!(e.allow_any_subdomain);
    assert!(e.allowed_subdomains.is_empty());
    let (_, e) = parse_line(&format!("{key} subdomain=a,b color=red,blue conns=3")).unwrap();
    assert!(!e.allow_any_subdomain);
    assert_eq!(e.allowed_subdomains, vec!["a".to_string(), "b".to_string()]);
    assert_eq!(e.max_conns, Some(3));
}

#[test]
fn an_appended_line_may_end_in_a_newline() {
    let registry = KeyRegistry::open("").unwrap();
    let line = "ed25519 AAAAAAAAAAAAAAAAAAAAAAAAAAAAAAAAAAAAAAAAAAA= conns=2 # box";
    let plain = registry.append_line("# keys", line).unwrap();
    let ended = registry.append_line("# keys", &format!("{line}\n")).unwrap();
    assert_eq!(plain.contents, format!("# keys\n{line}\n"));
    assert_eq!(ended.contents, plain.contents);
    assert_eq!(ended.entry.comment.as_deref(), Some("box"));
    let again = KeyRegistry::open(&ended.contents).unwrap();
    let found = again.append_line(&ended.contents, line).unwrap();
    assert_eq!(found.pubkey, plain.pubkey);
}

fn hello(exts: &[u8]) -> Vec<u8> {
    let mut body = vec![0x03, 0x03];
    body.extend_from_slice(&[0u8; 32]);
    body.push(0);
    body.extend_from_slice(&[0, 2, 0x13, 0x01]);
    body.extend_from_slice(&[1, 0]);
    body.extend_from_slice(&(exts.len() as u16).to_be_bytes());
    body.extend_from_slice(exts);
    let mut out = vec![0x01];
    out.extend_from_slice(&(body.len() as u32).to_be_bytes()[1..]);
    out.extend_from_slice(&body);
    out
}

fn extension(kind: u16, data: &[u8]) -> Vec<u8> {
    let mut out = kind.to_be_bytes().to_vec();
    out.extend_from_slice(&(data.len() as u16).to_be_bytes());
    out.extend_from_slice(data);
    out
}

fn named_hello(name: &str) -> Vec<u8> {
    let mut data = ((name.len() + 3) as u16).to_be_bytes().to_vec();
    data.push(0);
    data.extend_from_slice(&(name.len() as u16).to_be_bytes());
    data.extend_from_slice(name.as_bytes());
    hello(&extension(0, &data))
}

#[test]
fn parse_client_hello_never_panics() {
    let mut r = Numbers(12);
    for i in 0..1000 {
        let mut bytes = r.bytes(if i < 20 { 4096 } else { 200 });
        let _ = parse_client_hello_for_fuzz(&bytes);
        bytes.insert(0, 0x01);
        let _ = parse_client_hello_for_fuzz(&bytes);
        let _ = parse_client_hello_for_fuzz(&hello(&bytes));
    }
}

#[test]
fn parse_alpn_extension_never_panics() {
    let mut r = Numbers(13);
    for _ in 0..1000 {
        let _ = parse_client_hello_for_fuzz(&hello(&extension(0x0010, &r.bytes(100))));
    }
}

#[test]
fn parse_sni_extension_never_panics() {
    let mut r = Numbers(14);
    for _ in 0..1000 {
        let _ = parse_client_hello_for_fuzz(&hello(&extension(0, &r.bytes(100))));
    }
}

#[test]
fn valid_hello_survives_trailing_garbage() {
    let mut r = Numbers(15);
    let whole = named_hello("alice.krot.test");
    for _ in 0..200 {
        let mut full = whole.clone();
        full.extend_from_slice(&r.bytes(1023));
        let (sni, alpn) = parse_client_hello_for_fuzz(&full).unwrap();
        assert_eq!(sni, "alice.krot.test");
        assert!(alpn.is_empty());
    }
}

#[test]
fn a_cut_hello_is_refused_and_names_are_lowered() {
    let whole = named_hello("Alice.KROT.test");
    for n in 0..whole.len() {
        assert!(parse_client_hello_for_fuzz(&whole[..n]).is_err());
    }
    assert_eq!(parse_client_hello_for_fuzz(&whole).unwrap().0, "alice.krot.test");
}

#[test]
fn form_decode_never_panics() {
    let mut r = Numbers(16);
    for _ in 0..500 {
        let _ = form_decode(&r.text(100));
    }
    let _ = form_decode("%");
    let _ = form_decode("%4");
    let _ = form_decode("%ff%fe");
}

#[test]
fn parse_form_never_panics() {
    let mut r = Numbers(17);
    for _ in 0..500 {
        let _ = parse_login_form(&r.text(200));
    }
}

#[test]
fn extract_cookie_never_panics() {
    let mut r = Numbers(18);
    for _ in 0..500 {
        let _ = extract_session_cookie(&r.text(100));
    }
}

#[test]
fn safe_next_never_panics() {
    let mut r = Numbers(19);
    for _ in 0..500 {
        let next = safe_next(&r.text(100));
        assert!(next.starts_with('/') && !next.starts_with("//"));
    }
}

#[test]
fn api_key_check_never_panics() {
    let mut r = Numbers(20);
    let policy = AuthPolicy::ApiKey { key: "sk".into() };
    for _ in 0..500 {
        let hs = vec![Header {
            name: r.text(30),
            value: r.bytes(100),
        }];
        let _ = policy.check_api_key(&hs);
    }
}

#[test]
fn decide_session_never_panics() {
    let mut r = Numbers(21);
    let methods = ["GET", "POST", "", "HEAD"];
    let paths = ["/__krot/login", "/__krot/logout", "/"];
    for i in 0..500 {
        let mut policy = AuthPolicy::Session {
            user: "u".into(),
            pass: "p".into(),
            store: SessionStore::new(),
        };
        let path = if i % 2 == 0 { paths[i % 3].to_string() } else { r.text(60) };
        let hs = vec![Header {
            name: "Cookie".into(),
            value: r.text(60).into_bytes(),
        }];
        let _ = policy.decide_session(methods[i % 4], &path, &hs, &r.bytes(200));
    }
}

#[test]
fn session_from_userpass_never_panics() {
    let mut r = Numbers(22);
    for _ in 0..200 {
        let _ = session_from_userpass(&r.text(60), SessionStore::new());
    }
    assert!(matches!(
        session_from_userpass("nocolon", SessionStore::new()),
        Err(AuthConfigError::MissingColon)
    ));
}

#[test]
fn escaped_texts_are_inert_and_can_be_undone() {
    let mut r = Numbers(23);
    for _ in 0..200 {
        let a = r.text(40);
        let b = r.text(40);
        let e = html_escape(&a);
        assert!(!e.contains(['<', '>', '"', '\'']));
        let back = e
            .replace("&lt;", "<")
            .replace("&gt;", ">")
            .replace("&quot;", "\"")
            .replace("&#39;", "'")
            .replace("&amp;", "&");
        assert_eq!(back, a);
        assert_eq!(html_escape(&format!("{a}{b}")), e + &html_escape(&b));
    }
    assert_eq!(html_escape("&lt;"), "&amp;lt;");
}

#[test]
fn what_a_page_shows_stays_text() {
    let evil = "\"><script>alert(1)</script> name=\"next\" value=\"";
    let plain = render_login_page("/", None);
    let page = render_login_page(evil, None);
    let field = format!("name=\"next\" value=\"{}\"", html_escape(evil));
    assert_eq!(page.matches(&field).count(), 1);
    assert_eq!(page.matches("name=\"next\" value=\"").count(), 1);
    assert!(!page.contains("<script"));
    assert!(!page.contains("<p class=\"err\">"));
    assert_eq!(page.matches('<').count(), plain.matches('<').count());
    assert_eq!(page.matches('"').count(), plain.matches('"').count());
    let told = render_login_page("/", Some("no"));
    let worse = render_login_page(evil, Some(evil));
    assert!(told.contains("<p class=\"err\">no</p>"));
    assert!(worse.contains(&format!("<p class=\"err\">{}</p>", html_escape(evil))));
    assert!(!worse.contains("<script"));
    assert_eq!(worse.matches('<').count(), told.matches('<').count());
    assert_eq!(worse.matches('"').count(), told.matches('"').count());
}

#[test]
fn the_first_field_of_a_name_counts() {
    let f = parse_login_form("user=a&pass=b&user=c&pass");
    assert_eq!(f.user.as_deref(), Some("a"));
    assert_eq!(f.pass.as_deref(), Some("b"));
    assert_eq!(f.next, None);
    let f = parse_login_form("username=a&pass");
    assert_eq!(f.user, None);
    assert_eq!(f.pass, None);
}

#[test]
fn a_session_cookie_is_found_among_others() {
    let set = session_set_cookie("tok");
    let own = set.split(';').next().unwrap();
    for header in [
        own.to_string(),
        format!("a=b; {own}"),
        format!("{own}; c=d"),
        format!("a=b;\t{own}; __krot_session=later"),
    ] {
        assert_eq!(extract_session_cookie(&header).as_deref(), Some("tok"));
    }
    assert_eq!(extract_session_cookie("x__krot_session=t"), None);
}

#[test]
fn sessions_end_one_by_one() {
    let mut store = SessionStore::new();
    let a = store.create();
    let b = store.create();
    assert_eq!(a.len(), 64);
    assert!(a.chars().all(|c| c.is_ascii_digit() || ('a'..='f').contains(&c)));
    assert_eq!(store.len(), 2);
    store.invalidate(&a);
    assert_eq!(store.len(), 1);
    assert!(!store.validate_and_refresh(&a));
    assert!(store.validate_and_refresh(&b));
    store.invalidate(&a);
    store.invalidate("unknown");
    assert_eq!(store.len(), 1);
    assert!(store.validate_and_refresh(&b));
}

#[test]
fn creating_a_session_drops_the_ended_ones() {
    let hour: u128 = 3600 * 1_000_000_000;
    let mut store = SessionStore::new();
    let a = store.create_at(&[1; 32], 0, 0);
    let b = store.create_at(&[2; 32], 0, hour);
    assert_eq!(a, "01".repeat(32));
    let c = store.create_at(&[3; 32], 8 * hour, 8 * hour);
    assert_eq!(store.len(), 2);
    assert!(!store.validate_at(&a, 8 * hour, 8 * hour));
    assert!(store.validate_at(&b, 8 * hour, 8 * hour));
    assert!(store.validate_at(&c, 8 * hour, 8 * hour));
}

#[test]
fn an_admin_token_lives_until_it_is_used() {
    let mut store = AdminTokenStore::new();
    assert!(!store.is_active());
    let token = store.issue();
    assert!(store.is_active());
    assert!(store.consume("wrong").is_err());
    assert!(store.is_active());
    assert!(store.consume(&token).is_ok());
    assert!(!store.is_active());
    assert!(store.consume(&token).is_err());
    assert!(!store.is_active());
}

#[test]
fn the_inspector_counts_its_requests() {
    let mut insp = Inspector::new();
    let n = HISTORY_CAP + 50;
    for i in 1..=n {
        assert_eq!(insp.record_request(None, Some(format!("/{i}"))), i as u64);
    }
    let snap = insp.snapshot();
    assert_eq!(snap.len(), HISTORY_CAP);
    for (j, e) in snap.iter().enumerate() {
        assert_eq!(e.id, (n - j) as u64);
        assert_eq!(e.path, Some(format!("/{}", n - j)));
        assert_eq!(e.status, None);
    }
}

#[test]
fn a_scrape_shows_each_counter_once() {
    let mut m = ServerMetrics::started_at(5);
    m.handshake_auth_ok = 7;
    m.admin_api_auth_failed = u64::MAX;
    let used = vec![("k2".to_string(), 10), ("k1".to_string(), 0)];
    let text = m.to_prometheus_text_at(65, 2, 1, &used);
    let lines: Vec<&str> = text.split('\n').collect();
    let mut counters = 0;
    for (i, line) in lines.iter().enumerate() {
        if let Some(rest) = line.strip_prefix("# TYPE ") {
            let Some(name) = rest.strip_suffix(" counter") else { continue };
            if name == "krot_bytes_period_used" {
                continue;
            }
            counters += 1;
            assert!(lines[i - 1].starts_with(&format!("# HELP {name} ")));
            let start = format!("{name} ");
            assert!(lines[i + 1].starts_with(&start));
            assert_eq!(lines.iter().filter(|l| l.starts_with(&start)).count(), 1);
        }
    }
    assert_eq!(counters, 29);
    assert!(lines.contains(&"krot_handshake_auth_ok_total 7"));
    assert!(lines.contains(&"krot_admin_api_auth_failed_total 18446744073709551615"));
    assert!(lines.contains(&"krot_session_bye_total 0"));
    assert!(lines.contains(&"krot_uptime_seconds 60"));
    let shown: Vec<&&str> = lines
        .iter()
        .filter(|l| l.starts_with("krot_bytes_period_used{"))
        .collect();
    assert_eq!(
        shown,
        vec![
            &"krot_bytes_period_used{pubkey=\"k2\"} 10",
            &"krot_bytes_period_used{pubkey=\"k1\"} 0",
        ]
    );
}

#[test]
fn a_token_is_its_bytes_in_crockford_base32() {
    let mut raw = [0u8; 32];
    for (i, b) in raw.iter_mut().enumerate() {
        *b = i as u8;
    }
    let token = AdminTokenStore::token_from(&raw).token;
    assert_eq!(token, "000G40R40M30E209185GR38E1W8124GK2GAHC5RR34D1P70X3RFG");
    let token = AdminTokenStore::token_from(&[0xff; 32]).token;
    assert_eq!(token, "ZZZZZZZZZZZZZZZZZZZZZZZZZZZZZZZZZZZZZZZZZZZZZZZZZZZG");
}

#[test]
fn a_reload_reports_a_key_that_an_appended_line_changed() {
    let key = "ed25519 AAAAAAAAAAAAAAAAAAAAAAAAAAAAAAAAAAAAAAAAAAA=";
    let mut reg = KeyRegistry::open("").unwrap();
    let first = reg.append_line("", &format!("{key} subdomain=*")).unwrap();
    let contents = first.contents.clone();
    reg.insert(first);
    assert!(reg.reload(&contents).unwrap().is_empty());
    let second = reg.append_line(&contents, &format!("{key} subdomain=alice")).unwrap();
    let contents = second.contents.clone();
    reg.insert(second);
    assert_eq!(reg.reload(&contents).unwrap(), vec![PubKey([0; 32])]);
    // It is told once.
    assert!(reg.reload(&contents).unwrap().is_empty());
    // The same authorization with another comment is no change.
    let third = reg.append_line(&contents, &format!("{key} subdomain=alice # box")).unwrap();
    let contents = third.contents.clone();
    reg.insert(third);
    assert!(reg.reload(&contents).unwrap().is_empty());
    // Two changes before a reload are one report, and a bad file reports nothing yet.
    for option in ["conns=1", "conns=2"] {
        let pending = reg.append_line(&contents, &format!("{key} {option}")).unwrap();
        reg.insert(pending);
    }
    assert!(reg.reload("ed25519 nonsense").is_err());
    assert_eq!(reg.reload(&contents).unwrap(), vec![PubKey([0; 32])]);
}

#[test]
fn names_beyond_ascii_are_lowered_too() {
    let whole = named_hello("\u{c9}A.test");
    assert_eq!(parse_client_hello_for_fuzz(&whole).unwrap().0, "\u{e9}a.test");
}
