//! The relay's lists: authorized keys, admin tokens, peers, and the handshake.

use krot::client::config::Identity;
use krot::client::session::{on_challenge, on_verdict, ChallengeStep};
use krot::proto::auth::{sign_challenge, SigningKey};
use krot::proto::error::ErrorCode;
use krot::proto::frames::{ClientFrame, ServerFrame};
use krot::proto::ids::{Nonce, PubKey, SessionId};
use krot::proto::stream::StreamKind;
use krot::server::admin::{constant_time_eq_public, AdminTokenStore};
use krot::server::error::ServerError;
use krot::server::handshake::{
    challenge_with, check_first_byte, enroll_line, enroll_with, finish_auth, finish_auth_with, finish_enroll,
    handle_auth, handle_enroll, perform, AuthStep, EnrollStep, FirstStep, HandshakeOutcome,
};
use krot::server::identity::{compute_spki_fingerprint, pem_to_der, ServerIdentity};
use krot::server::keys::{parse_line, parse_ports, KeyRegistry};
use krot::server::peer_lookup::{
    aggregate, check_collision, CollisionCheck, NoOpPeerLookup, PeerLabelLookup, PeerLookupOutcome,
};
use krot::server::peers::PeerRegistry;
use std::collections::HashMap;

const ZERO_KEY: &str = "ed25519 AAAAAAAAAAAAAAAAAAAAAAAAAAAAAAAAAAAAAAAAAAA=";

#[test]
fn parses_pubkey_only() {
    let (pk, entry) =
        parse_line("ed25519 AAAAAAAAAAAAAAAAAAAAAAAAAAAAAAAAAAAAAAAAAAA=").unwrap();
    assert_eq!(pk.0.len(), 32);
    assert!(!entry.allow_any_subdomain);
}

#[test]
fn parses_options() {
    let (_, entry) =
        parse_line("ed25519 AAAAAAAAAAAAAAAAAAAAAAAAAAAAAAAAAAAAAAAAAAA= subdomain=* conns=5")
            .unwrap();
    assert!(entry.allow_any_subdomain);
    assert_eq!(entry.max_conns, Some(5));
}

#[test]
fn parses_multivalue_subdomain() {
    let (_, entry) = parse_line(
        "ed25519 AAAAAAAAAAAAAAAAAAAAAAAAAAAAAAAAAAAAAAAAAAA= subdomain=alice,alice-staging",
    )
    .unwrap();
    assert!(!entry.allow_any_subdomain);
    assert_eq!(
        entry.allowed_subdomains,
        vec!["alice".to_string(), "alice-staging".to_string()]
    );
}

#[test]
fn parses_ports_list_and_range() {
    assert_eq!(parse_ports("8080"), Some(vec![8080]));
    assert_eq!(parse_ports("8080,8443"), Some(vec![8080, 8443]));
    assert_eq!(parse_ports("10000-10002"), Some(vec![10000, 10001, 10002]));
    assert_eq!(parse_ports("80,10000-10001"), Some(vec![80, 10000, 10001]));
    assert!(parse_ports("bogus").is_none());
    assert!(parse_ports("").is_none());
    assert!(parse_ports("100-50").is_none());
}

#[test]
fn parses_ports_in_authorized_line() {
    let (_, entry) = parse_line(
        "ed25519 AAAAAAAAAAAAAAAAAAAAAAAAAAAAAAAAAAAAAAAAAAA= subdomain=* ports=8080,8443",
    )
    .unwrap();
    assert!(entry.allow_any_subdomain);
    assert_eq!(entry.allowed_ports, Some(vec![8080, 8443]));
}

#[test]
fn parses_federation_list() {
    let (_, entry) = parse_line(
        "ed25519 AAAAAAAAAAAAAAAAAAAAAAAAAAAAAAAAAAAAAAAAAAA= subdomain=* federation=krot.us-east.example,krot.eu-west.example",
    )
    .unwrap();
    assert_eq!(
        entry.federation,
        vec![
            "krot.us-east.example".to_string(),
            "krot.eu-west.example".to_string(),
        ]
    );
}

#[test]
fn parses_federation_single_apex() {
    let (_, entry) = parse_line(
        "ed25519 AAAAAAAAAAAAAAAAAAAAAAAAAAAAAAAAAAAAAAAAAAA= federation=peer.example",
    )
    .unwrap();
    assert_eq!(entry.federation, vec!["peer.example".to_string()]);
}

#[test]
fn federation_defaults_empty() {
    let (_, entry) =
        parse_line("ed25519 AAAAAAAAAAAAAAAAAAAAAAAAAAAAAAAAAAAAAAAAAAA= subdomain=*").unwrap();
    assert!(entry.federation.is_empty());
}

#[test]
fn federation_change_triggers_revocation() {
    // A change of the peer list must end live sessions.
    let base = "ed25519 AAAAAAAAAAAAAAAAAAAAAAAAAAAAAAAAAAAAAAAAAAA=";
    let (_, a) = parse_line(&format!("{base} subdomain=* federation=x.example")).unwrap();
    let (_, b) = parse_line(&format!(
        "{base} subdomain=* federation=x.example,y.example"
    ))
    .unwrap();
    assert!(!a.authorization_equal(&b));
}

#[test]
fn lines_that_are_no_entry() {
    assert!(parse_line("rsa AAAA").is_none());
    assert!(parse_line("ed25519").is_none());
    assert!(parse_line("ed25519 AAAA").is_none());
    assert!(parse_line("ed25519 ????").is_none());
    // An option that cannot be read is as good as none.
    let (_, entry) = parse_line(&format!("{ZERO_KEY} ports=x conns=many bw=fast")).unwrap();
    assert_eq!((entry.allowed_ports, entry.max_conns, entry.bw), (None, None, None));
    let err = KeyRegistry::open(&format!("# head\n\n{ZERO_KEY}\nnonsense here\n"))
        .err()
        .unwrap();
    assert_eq!(err.to_text(), "authorized_keys: line 4: nonsense here");
}

fn append(reg: &mut KeyRegistry, contents: &str, line: &str) -> String {
    let pending = reg.append_line(contents, line).unwrap();
    let new_contents = pending.contents.clone();
    reg.insert(pending);
    new_contents
}

#[test]
fn appends_and_reads_back() {
    let mut reg = KeyRegistry::open("").unwrap();
    assert!(reg.is_empty());
    let contents = append(
        &mut reg,
        "",
        "ed25519 AAAAAAAAAAAAAAAAAAAAAAAAAAAAAAAAAAAAAAAAAAA= subdomain=*",
    );
    assert_eq!(reg.len(), 1);
    let again = KeyRegistry::open(&contents).unwrap();
    assert_eq!(again.len(), 1);
    let zero = PubKey([0u8; 32]);
    assert!(again.contains(&zero));
    assert!(again.get(&zero).unwrap().allow_any_subdomain);
    assert_eq!(again.snapshot().len(), 1);
    assert_eq!(
        reg.append_line("", "nope").err().unwrap(),
        ServerError::Keys("cannot parse: nope".into())
    );
}

#[test]
fn reload_removes_and_broadcasts() {
    let mut reg = KeyRegistry::open("").unwrap();
    append(
        &mut reg,
        "",
        "ed25519 AAAAAAAAAAAAAAAAAAAAAAAAAAAAAAAAAAAAAAAAAAA= subdomain=*",
    );
    // Empty out the file — one entry should be revoked.
    let revoked = reg.reload("").unwrap();
    assert_eq!(reg.len(), 0);
    assert_eq!(revoked, vec![PubKey([0u8; 32])]);
}

#[test]
fn reload_broadcasts_material_changes() {
    let mut reg = KeyRegistry::open("").unwrap();
    append(
        &mut reg,
        "",
        "ed25519 AAAAAAAAAAAAAAAAAAAAAAAAAAAAAAAAAAAAAAAAAAA= subdomain=*",
    );
    // Restrict subdomain — should broadcast.
    let revoked = reg
        .reload("ed25519 AAAAAAAAAAAAAAAAAAAAAAAAAAAAAAAAAAAAAAAAAAA= subdomain=alice\n")
        .unwrap();
    assert_eq!(revoked.len(), 1);
    // A change of the comment alone is no change.
    let revoked = reg
        .reload("ed25519 AAAAAAAAAAAAAAAAAAAAAAAAAAAAAAAAAAAAAAAAAAA= subdomain=alice # laptop\n")
        .unwrap();
    assert!(revoked.is_empty());
    // A file that does not parse changes nothing.
    assert!(reg.reload("broken").is_err());
    assert_eq!(reg.len(), 1);
}

#[test]
fn a_removed_key_is_gone_from_the_file() {
    let one = SigningKey::from_bytes(&[1u8; 32]).verifying_key();
    let line = enroll_line(&one, "now", "hint");
    let contents = format!("# keys\n{ZERO_KEY}\n{line}\n");
    let reg = KeyRegistry::open(&contents).unwrap();
    assert_eq!(reg.len(), 2);
    let left = reg.remove_pubkey(&contents, &one).unwrap();
    assert_eq!(left, format!("# keys\n{ZERO_KEY}\n"));
    assert!(!KeyRegistry::open(&left).unwrap().contains(&one));
    assert!(reg.remove_pubkey(&left, &one).is_none());
}

#[test]
fn issue_and_consume_roundtrip() {
    let mut store = AdminTokenStore::new();
    let token = store.issue();
    assert!(store.is_active());
    store.consume(&token).unwrap();
    assert!(!store.is_active());
}

#[test]
fn double_consume_rejected() {
    let mut store = AdminTokenStore::new();
    let token = store.issue();
    store.consume(&token).unwrap();
    assert!(store.consume(&token).is_err());
}

#[test]
fn wrong_token_rejected() {
    let mut store = AdminTokenStore::new();
    let _real = store.issue();
    assert!(store.consume("WRONG").is_err());
    assert!(store.is_active()); // still active until real token or expiry
}

#[test]
fn an_admin_token_expires() {
    let mut store = AdminTokenStore::new();
    let issued = AdminTokenStore::token_from(&[0u8; 32]);
    assert_eq!(issued.token, "0".repeat(52));
    assert_eq!(issued.hash, *blake3::hash("0".repeat(52).as_bytes()).as_bytes());
    store.install(&issued, 0);
    let ttl: u128 = krot::proto::consts::ADMIN_TOKEN_TTL_SECS as u128 * 1_000_000_000;
    assert_eq!(
        store.consume_at("x", ttl - 1),
        Err(ServerError::AdminToken("admin token mismatch"))
    );
    assert_eq!(
        store.consume_at(&issued.token, ttl),
        Err(ServerError::AdminToken("admin token expired"))
    );
    assert_eq!(
        store.consume_at(&issued.token, 0),
        Err(ServerError::AdminToken("no admin token issued"))
    );
    assert_ne!(AdminTokenStore::mint().token, AdminTokenStore::mint().token);
    assert!(constant_time_eq_public(b"a", b"a"));
    assert!(!constant_time_eq_public(b"a", b"b"));
}

#[test]
fn first_bytes_and_first_frames() {
    assert_eq!(check_first_byte(StreamKind::Control.as_byte()), None);
    assert_eq!(
        check_first_byte(0xff),
        Some(ErrorCode(ErrorCode::UNKNOWN_STREAM_KIND))
    );
    assert_eq!(
        check_first_byte(StreamKind::DataTcp.as_byte()),
        Some(ErrorCode(ErrorCode::UNEXPECTED_STREAM))
    );
    assert!(matches!(
        perform(ClientFrame::AuthRequest {
            pubkey: PubKey([1; 32])
        }),
        FirstStep::Auth { .. }
    ));
    assert!(matches!(
        perform(ClientFrame::Enroll {
            admin_token: "t".into(),
            pubkey: PubKey([1; 32]),
            label_hint: None
        }),
        FirstStep::Enroll { .. }
    ));
    assert!(matches!(
        perform(ClientFrame::Bye),
        FirstStep::Reject { reply: ServerFrame::AuthReject { code }, .. }
            if code == ErrorCode(ErrorCode::PROTOCOL_VIOLATION)
    ));
}

#[test]
fn a_known_key_authenticates_by_its_signature() {
    let key = SigningKey::from_bytes(&[5u8; 32]);
    let pk = key.verifying_key();
    let reg = KeyRegistry::open(&enroll_line(&pk, "2024-01-01T00:00:00Z", "x")).unwrap();
    let nonce = Nonce([3u8; 32]);

    let AuthStep::Challenge { pending, reply } = challenge_with(pk, &reg, nonce) else {
        panic!("expected Challenge");
    };
    assert_eq!(reply, ServerFrame::AuthChallenge { nonce });
    let signature = sign_challenge(&key, &nonce);
    let id = SessionId([4u8; 16]);
    let (frame, outcome) = finish_auth_with(pending, ClientFrame::AuthResponse { signature }, id);
    assert_eq!(frame, ServerFrame::AuthOk { session_id: id });
    let HandshakeOutcome::Auth(ok) = outcome else {
        panic!("expected Auth");
    };
    assert_eq!((ok.pubkey, ok.session_id), (pk, id));
    assert!(ok.entry.allow_any_subdomain);

    // The signature of another challenge is of no use.
    let AuthStep::Challenge { pending, .. } = handle_auth(pk, &reg) else {
        panic!("expected Challenge");
    };
    let (frame, outcome) = finish_auth(pending, ClientFrame::AuthResponse { signature });
    assert!(matches!(frame, ServerFrame::AuthReject { .. }));
    assert!(matches!(outcome, HandshakeOutcome::Failed(_)));
    // Nor is any other frame.
    let AuthStep::Challenge { pending, .. } = handle_auth(pk, &reg) else {
        panic!("expected Challenge");
    };
    let (frame, _) = finish_auth(pending, ClientFrame::Bye);
    assert!(matches!(frame, ServerFrame::AuthReject { .. }));
    // An unknown key is not even challenged.
    assert!(matches!(
        handle_auth(PubKey([9u8; 32]), &reg),
        AuthStep::Reject { .. }
    ));
}

#[test]
fn client_and_relay_agree() {
    let id = Identity::of_key(&SigningKey::from_bytes(&[0x42u8; 32]));
    let pk = id.pubkey().unwrap();
    let reg = KeyRegistry::open(&enroll_line(&pk, "now", "")).unwrap();
    let AuthStep::Challenge { pending, reply } = handle_auth(pk, &reg) else {
        panic!("expected Challenge");
    };
    let ChallengeStep::Respond(answer) = on_challenge(&id, &reply) else {
        panic!("expected Respond");
    };
    let session_id = SessionId([1u8; 16]);
    let (verdict, _) = finish_auth_with(pending, answer, session_id);
    assert_eq!(on_verdict(&verdict), Ok(session_id));
}

#[test]
fn an_enrolled_key_is_authorized() {
    let pk = SigningKey::from_bytes(&[7u8; 32]).verifying_key();
    let mut admin = AdminTokenStore::new();
    let mut keys = KeyRegistry::open("").unwrap();
    assert!(matches!(
        handle_enroll("early", pk, None, &mut admin),
        EnrollStep::Reject { .. }
    ));
    let token = admin.issue();
    let EnrollStep::Append { line } = handle_enroll(&token, pk, Some("my laptop".into()), &mut admin)
    else {
        panic!("expected Append");
    };
    assert!(line.starts_with("ed25519 "));
    assert!(line.ends_with(" my laptop"));
    // The time is an ISO 8601 one.
    let stamp = line.split("enrolled ").nth(1).unwrap();
    assert_eq!(&stamp[4..5], "-");
    let pending = keys.append_line("", &line).unwrap();
    let (frame, outcome) = finish_enroll(&mut keys, pending);
    assert_eq!(
        frame,
        ServerFrame::EnrollOk {
            authorized_line: line
        }
    );
    assert!(matches!(
        outcome,
        HandshakeOutcome::EnrollmentDone { success: true }
    ));
    assert!(keys.contains(&pk));
    let EnrollStep::Append { line } = enroll_with(Ok(()), PubKey([0u8; 32]), "T", None) else {
        panic!("expected Append");
    };
    assert_eq!(line, format!("{ZERO_KEY} subdomain=* # enrolled T "));
    let expired = Err(ServerError::AdminToken("admin token expired"));
    assert!(matches!(
        enroll_with(expired, pk, "T", None),
        EnrollStep::Reject { reply: ServerFrame::EnrollRejected { code } }
            if code == ErrorCode(ErrorCode::TOKEN_EXPIRED)
    ));
    assert!(matches!(
        handle_enroll(&token, pk, None, &mut admin),
        EnrollStep::Reject { .. }
    ));
}

#[test]
fn identities_from_pem() {
    let made = rcgen::generate_simple_self_signed(vec!["krot".to_string()]).unwrap();
    let cert_pem = made.cert.pem();
    let key_pem = made.key_pair.serialize_pem();
    let id = ServerIdentity::from_pem(&cert_pem, &key_pem).unwrap();
    assert_eq!(id.cert_der, made.cert.der().to_vec());
    assert_eq!(id.key_der, made.key_pair.serialize_der());
    assert_eq!(id.spki_sha256.len(), 64);
    assert_eq!(
        compute_spki_fingerprint(made.cert.der()).unwrap(),
        id.spki_sha256
    );
    let err = pem_to_der("-----BEGIN X-----\n!!\n-----END X-----\n").unwrap_err();
    assert!(err.to_text().starts_with("authorized_keys: bad PEM base64: "));
    assert_eq!(
        pem_to_der("noise\n-----BEGIN X-----\naGVs\nbG8=\n-----END X-----\nrest").unwrap(),
        b"hello".to_vec()
    );
    assert!(ServerIdentity::from_der(vec![1], vec![2])
        .unwrap_err()
        .to_text()
        .starts_with("authorized_keys: cert parse: "));
}

#[test]
fn open_missing_returns_empty() {
    let reg = PeerRegistry::open(None);
    assert!(reg.is_empty());
}

#[test]
fn parses_apex_list() {
    let reg = PeerRegistry::open(Some(
        "# federated relays\n\
         krot.us-east.example\n\
         \n\
         krot.eu-west.example:7854\n",
    ));
    assert_eq!(
        reg.snapshot(),
        vec![
            "krot.us-east.example".to_string(),
            "krot.eu-west.example:7854".to_string(),
        ]
    );
}

#[test]
fn de_duplicates_lines() {
    let reg = PeerRegistry::open(Some("a.example\na.example\nb.example\n"));
    assert_eq!(
        reg.snapshot(),
        vec!["a.example".to_string(), "b.example".to_string()]
    );
}

#[test]
fn reload_reflects_edit() {
    let mut reg = PeerRegistry::open(Some("a.example\n"));
    assert_eq!(reg.snapshot(), vec!["a.example".to_string()]);
    assert!(reg.reload(Some("a.example\nb.example\n")));
    assert_eq!(
        reg.snapshot(),
        vec!["a.example".to_string(), "b.example".to_string()]
    );
    assert!(!reg.reload(Some("# same\na.example\nb.example")));
}

#[test]
fn reload_missing_file_empties_list() {
    let mut reg = PeerRegistry::open(Some("a.example\n"));
    assert_eq!(reg.len(), 1);
    reg.reload(None);
    assert!(reg.is_empty());
}

/// Test fixture: mock lookup driven by a fixed table.
#[derive(Default)]
struct MockLookup {
    by_peer_label: HashMap<(String, String), PeerLookupOutcome>,
}

impl MockLookup {
    fn insert(&mut self, peer: &str, label: &str, outcome: PeerLookupOutcome) {
        self.by_peer_label
            .insert((peer.into(), label.into()), outcome);
    }
}

impl PeerLabelLookup for MockLookup {
    fn find_owner(&self, peer: &str, label: &str) -> PeerLookupOutcome {
        self.by_peer_label
            .get(&(peer.to_string(), label.to_string()))
            .copied()
            .unwrap_or(PeerLookupOutcome::NotFound)
    }
}

#[test]
fn no_op_always_clear() {
    let peers = vec!["a".into(), "b".into()];
    let out = check_collision(&NoOpPeerLookup, &peers, "svc", &PubKey([1; 32]));
    assert_eq!(
        out,
        CollisionCheck::Clear {
            matched_peers: vec![]
        }
    );
}

#[test]
fn conflict_on_different_owner() {
    let mut mock = MockLookup::default();
    mock.insert(
        "a.example",
        "svc",
        PeerLookupOutcome::Found(PubKey([9; 32])),
    );
    let peers = vec!["a.example".into()];
    let out = check_collision(&mock, &peers, "svc", &PubKey([1; 32]));
    assert_eq!(
        out,
        CollisionCheck::Conflict {
            first_conflict: "a.example".into()
        }
    );
}

#[test]
fn same_owner_is_additional_destination() {
    let self_pk = PubKey([1; 32]);
    let mut mock = MockLookup::default();
    mock.insert("a.example", "svc", PeerLookupOutcome::Found(self_pk));
    mock.insert("b.example", "svc", PeerLookupOutcome::Found(self_pk));
    let peers = vec!["a.example".into(), "b.example".into()];
    let out = check_collision(&mock, &peers, "svc", &self_pk);
    assert_eq!(
        out,
        CollisionCheck::Clear {
            matched_peers: vec!["a.example".into(), "b.example".into()]
        }
    );
}

#[test]
fn unavailable_is_fail_open() {
    let mut mock = MockLookup::default();
    mock.insert("a.example", "svc", PeerLookupOutcome::Unavailable);
    let peers = vec!["a.example".into()];
    let out = check_collision(&mock, &peers, "svc", &PubKey([1; 32]));
    assert_eq!(
        out,
        CollisionCheck::Clear {
            matched_peers: vec![]
        }
    );
}

#[test]
fn any_conflict_short_circuits() {
    let self_pk = PubKey([1; 32]);
    let other = PubKey([9; 32]);
    let mut mock = MockLookup::default();
    mock.insert("a.example", "svc", PeerLookupOutcome::Found(self_pk));
    mock.insert("b.example", "svc", PeerLookupOutcome::Found(other));
    // A peer we'd never even reach — `check_collision` must
    // short-circuit on b's conflict.
    mock.insert("c.example", "svc", PeerLookupOutcome::Found(other));
    let peers = vec!["a.example".into(), "b.example".into(), "c.example".into()];
    let out = check_collision(&mock, &peers, "svc", &self_pk);
    assert_eq!(
        out,
        CollisionCheck::Conflict {
            first_conflict: "b.example".into()
        }
    );
    let outcomes = vec![
        PeerLookupOutcome::Found(self_pk),
        PeerLookupOutcome::Found(other),
        PeerLookupOutcome::Found(other),
    ];
    assert_eq!(aggregate(&peers, &outcomes, &self_pk), out);
}
