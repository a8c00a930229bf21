//! Authentication on the client: policies, sessions, the login page and the
//! command-line flags.

use krot::bytes::constant_time_eq;
use krot::client::cli::{build_auth_config, default_label, numbered_label, split_host_port};
use krot::client::cli::{AuthFlags, EnvSecret, FileSecret};
use krot::client::local_auth::{
    api_key_from_str, api_key_reject_response, looks_like_tls, percent_encode_path, read_env,
    read_file, session_from_userpass, AuthConfigError, AuthPolicy, Moment, Outcome, SessionAction,
    DEFAULT_REALM,
};
use krot::client::login_page::{
    extract_session_cookie, form_decode, html_escape, http_html_response, http_redirect,
    parse_login_form, render_login_page, safe_next, session_clear_cookie, session_set_cookie,
    SessionStore,
};
use krot::http_parse::Header;

fn header(name: &str, value: &[u8]) -> Header {
    Header {
        name: name.to_string(),
        value: value.to_vec(),
    }
}

fn session_policy() -> AuthPolicy {
    AuthPolicy::Session {
        user: "alice".into(),
        pass: "s3cret".into(),
        store: SessionStore::new(),
    }
}

#[test]
fn session_from_userpass_parses() {
    let store = SessionStore::new();
    let AuthPolicy::Session { user, pass, .. } =
        session_from_userpass("alice:s3cret", store).unwrap_or_else(|_| panic!("refused"))
    else {
        panic!("expected Session");
    };
    assert_eq!(user, "alice");
    assert_eq!(pass, "s3cret");
}

#[test]
fn session_from_userpass_requires_colon() {
    assert!(matches!(
        session_from_userpass("noColonHere", SessionStore::new()),
        Err(AuthConfigError::MissingColon),
    ));
}

#[test]
fn session_from_userpass_rejects_empty_user() {
    assert!(matches!(
        session_from_userpass(":passonly", SessionStore::new()),
        Err(AuthConfigError::EmptyUser),
    ));
}

#[test]
fn session_missing_cookie_redirects_to_login() {
    let mut policy = session_policy();
    let action = policy.decide_session("GET", "/dashboard", &vec![], b"");
    let SessionAction::Redirect {
        location,
        set_cookie,
    } = action
    else {
        panic!("expected Redirect, got {action:?}");
    };
    assert_eq!(set_cookie, None);
    assert!(location.starts_with("/__krot/login?next="));
    assert!(location.contains("%2Fdashboard") || location.contains("/dashboard"));
}

#[test]
fn session_valid_cookie_forwards() {
    let mut policy = session_policy();
    let AuthPolicy::Session { ref mut store, .. } = policy else {
        unreachable!()
    };
    let token = store.create();
    let cookie = format!("__krot_session={token}");
    let hs = vec![header("Cookie", cookie.as_bytes())];
    let action = policy.decide_session("GET", "/dashboard", &hs, b"");
    assert!(matches!(action, SessionAction::Forward), "{action:?}");
}

#[test]
fn session_login_get_serves_page() {
    let mut policy = session_policy();
    let action = policy.decide_session("GET", "/__krot/login", &vec![], b"");
    let SessionAction::ServeLoginPage { next, error } = action else {
        panic!("expected ServeLoginPage");
    };
    assert_eq!(next, "/");
    assert!(error.is_none());
}

#[test]
fn session_login_get_honours_next_query() {
    let mut policy = session_policy();
    let action = policy.decide_session("GET", "/__krot/login?next=%2Fdash", &vec![], b"");
    let SessionAction::ServeLoginPage { next, .. } = action else {
        panic!("expected ServeLoginPage");
    };
    assert_eq!(next, "/dash");
}

#[test]
fn session_login_post_correct_creds_sets_cookie() {
    let mut policy = session_policy();
    let body = b"user=alice&pass=s3cret&next=%2Fhome";
    let action = policy.decide_session("POST", "/__krot/login", &vec![], body);
    let SessionAction::Redirect {
        location,
        set_cookie,
    } = action
    else {
        panic!("expected Redirect");
    };
    assert_eq!(location, "/home");
    let sc = set_cookie.expect("cookie");
    assert!(sc.contains("__krot_session="));
    assert!(sc.contains("HttpOnly"));
}

#[test]
fn session_login_post_wrong_creds_shows_error() {
    let mut policy = session_policy();
    let body = b"user=alice&pass=wrong&next=%2F";
    let action = policy.decide_session("POST", "/__krot/login", &vec![], body);
    let SessionAction::ServeLoginPage { error, .. } = action else {
        panic!("expected ServeLoginPage");
    };
    assert!(error.is_some());
}

#[test]
fn session_logout_clears_cookie() {
    let mut policy = session_policy();
    let AuthPolicy::Session { ref mut store, .. } = policy else {
        unreachable!()
    };
    let token = store.create();
    let cookie = format!("__krot_session={token}");
    let hs = vec![header("Cookie", cookie.as_bytes())];
    let action = policy.decide_session("GET", "/__krot/logout", &hs, b"");
    let SessionAction::Redirect {
        location,
        set_cookie,
    } = action
    else {
        panic!("expected Redirect");
    };
    assert_eq!(location, "/");
    let sc = set_cookie.expect("clear cookie");
    assert!(sc.contains("Max-Age=0"));
    let AuthPolicy::Session { ref mut store, .. } = policy else {
        unreachable!()
    };
    assert!(!store.validate_and_refresh(&token));
}

#[test]
fn session_expired_cookie_redirects() {
    let mut policy = session_policy();
    let hs = vec![header("Cookie", b"__krot_session=nope")];
    let action = policy.decide_session("GET", "/x", &hs, b"");
    assert!(matches!(action, SessionAction::Redirect { .. }));
}

#[test]
fn a_session_ends_eight_hours_after_its_last_use() {
    let hour: u128 = 3600 * 1_000_000_000;
    let mut policy = session_policy();
    let AuthPolicy::Session { ref mut store, .. } = policy else {
        unreachable!()
    };
    let token = store.create_at(&[0xabu8; 32], 0, 0);
    assert_eq!(token, "ab".repeat(32));
    let hs = vec![header("cookie", format!("a=b; __krot_session={token}").as_bytes())];
    let mut decide = |t: u128| {
        let m = Moment {
            raw: [0u8; 32],
            t1: t,
            t2: t,
        };
        policy.decide_session_at("GET", "/", &hs, b"", &m)
    };
    assert!(matches!(decide(7 * hour), SessionAction::Forward));
    assert!(matches!(decide(14 * hour), SessionAction::Forward));
    assert!(matches!(decide(23 * hour), SessionAction::Redirect { .. }));
    // An expired session stays gone.
    assert!(matches!(decide(15 * hour), SessionAction::Redirect { .. }));
}

#[test]
fn only_the_right_password_makes_a_session() {
    let mut policy = session_policy();
    for body in [
        "user=alice",
        "user=bob&pass=s3cret",
        "pass=s3cret",
        "user=alice&pass=",
        "",
    ] {
        let action = policy.decide_session("post", "/__krot/login", &vec![], body.as_bytes());
        assert!(
            matches!(
                action,
                SessionAction::ServeLoginPage {
                    error: Some("Invalid username or password."),
                    ..
                }
            ),
            "{body}"
        );
    }
    // A form that is not UTF-8 is as good as an empty one.
    let action = policy.decide_session("POST", "/__krot/login", &vec![], &[0xff, 0xfe]);
    assert!(matches!(action, SessionAction::ServeLoginPage { .. }));
    let AuthPolicy::Session { ref store, .. } = policy else {
        unreachable!()
    };
    assert_eq!(store.len(), 0);
}

#[test]
fn the_way_to_the_login_page_and_back() {
    assert_eq!(percent_encode_path("/a b?x=1&y=é"), "/a%20b%3Fx=1%26y=%C3%A9");
    let mut policy = session_policy();
    let action = policy.decide_session("GET", "/a b?x=1&y=é", &vec![], b"");
    let SessionAction::Redirect { location, .. } = action else {
        panic!("expected Redirect");
    };
    assert_eq!(location, "/__krot/login?next=/a%20b%3Fx=1%26y=%C3%A9");
    let action = policy.decide_session("GET", &location, &vec![], b"");
    let SessionAction::ServeLoginPage { next, .. } = action else {
        panic!("expected ServeLoginPage");
    };
    assert_eq!(next, "/a b?x=1&y=é");
}

#[test]
fn api_key_accepts_x_api_key() {
    let p = AuthPolicy::ApiKey {
        key: "sk_live_42".into(),
    };
    let hs = vec![header("X-API-Key", b"sk_live_42")];
    assert_eq!(p.check_api_key(&hs), Outcome::Accepted);
}

#[test]
fn api_key_accepts_bearer() {
    let p = AuthPolicy::ApiKey {
        key: "sk_live_42".into(),
    };
    let hs = vec![header("Authorization", b"Bearer sk_live_42")];
    assert_eq!(p.check_api_key(&hs), Outcome::Accepted);
}

#[test]
fn api_key_rejects_wrong() {
    let p = AuthPolicy::ApiKey {
        key: "sk_live_42".into(),
    };
    let hs = vec![header("X-API-Key", b"nope")];
    assert_eq!(p.check_api_key(&hs), Outcome::BadCreds);
}

#[test]
fn api_key_missing_returns_missing() {
    let p = AuthPolicy::ApiKey {
        key: "sk_live_42".into(),
    };
    let hs = vec![header("Host", b"example")];
    assert_eq!(p.check_api_key(&hs), Outcome::Missing);
}

#[test]
fn api_key_edges() {
    let p = api_key_from_str("  sk_live_42\n");
    let mut hs = vec![
        header("x-api-key", b"first"),
        header("AUTHORIZATION", b"  bEaReR\t sk_live_42 "),
    ];
    assert_eq!(p.check_api_key(&hs), Outcome::Accepted);
    hs[0].value = vec![0xff];
    assert_eq!(p.check_api_key(&hs), Outcome::BadCreds);
    let hs = vec![header("authorization", b"Basic sk_live_42")];
    assert_eq!(p.check_api_key(&hs), Outcome::BadCreds);
    let hs = vec![header("authorization", "béarer x".as_bytes())];
    assert_eq!(p.check_api_key(&hs), Outcome::BadCreds);
}

#[test]
fn api_key_reject_shape() {
    let bytes = api_key_reject_response();
    let head = std::str::from_utf8(&bytes).unwrap();
    assert!(head.starts_with("HTTP/1.1 403 Forbidden\r\n"));
    assert!(!head.contains("WWW-Authenticate"));
    assert!(head.ends_with("Forbidden"));
}

#[test]
fn tls_heuristic() {
    assert!(looks_like_tls(0x16));
    assert!(!looks_like_tls(b'G'));
    assert!(!looks_like_tls(b'P'));
}

#[test]
fn constant_time_eq_correctness() {
    assert!(constant_time_eq(b"same", b"same"));
    assert!(!constant_time_eq(b"same", b"diff"));
    assert!(!constant_time_eq(b"a", b"ab"));
    assert!(constant_time_eq(b"", b""));
}

#[test]
fn read_file_trims_trailing_newlines() {
    assert_eq!(
        read_file("secret", Ok("hunter2\n\n".to_string())).unwrap(),
        "hunter2"
    );
    assert_eq!(
        read_file("secret", Ok(" hunter2 \r\n".to_string())).unwrap(),
        " hunter2 "
    );
}

#[test]
fn read_file_rejects_empty() {
    assert!(matches!(
        read_file("empty", Ok(String::new())),
        Err(AuthConfigError::FileEmpty(_))
    ));
    assert!(matches!(
        read_file("blank", Ok("\r\n\n".to_string())),
        Err(AuthConfigError::FileEmpty(_))
    ));
    let err = read_file("gone", Err("no such file".to_string())).unwrap_err();
    assert_eq!(err.to_text(), "cannot read `gone`: no such file");
}

#[test]
fn read_env_wants_a_value() {
    assert_eq!(read_env("V", Some("x".to_string())).unwrap(), "x");
    for value in [None, Some(String::new())] {
        let err = read_env("V", value).unwrap_err();
        assert_eq!(err.to_text(), "env var `V` is unset or empty");
    }
}

fn no_flags() -> AuthFlags {
    AuthFlags {
        auth: None,
        auth_env: None,
        auth_file: None,
        api_key: None,
        api_key_env: None,
        api_key_file: None,
        auth_realm: None,
    }
}

#[test]
fn auth_flags_choose_a_policy() {
    assert!(build_auth_config(no_flags()).unwrap().is_none());

    let mut flags = no_flags();
    flags.auth = Some("alice:pw:with:colons".into());
    flags.auth_realm = Some("Realm".into());
    let cfg = build_auth_config(flags).unwrap().unwrap();
    assert_eq!(cfg.realm, "Realm");
    let AuthPolicy::Session { user, pass, store } = cfg.policy else {
        panic!("expected Session");
    };
    assert_eq!((user.as_str(), pass.as_str(), store.len()), ("alice", "pw:with:colons", 0));

    let mut flags = no_flags();
    flags.api_key_file = Some(FileSecret {
        path: "k".into(),
        contents: Ok(" key \n".into()),
    });
    let cfg = build_auth_config(flags).unwrap().unwrap();
    assert_eq!(cfg.realm, DEFAULT_REALM);
    assert!(matches!(cfg.policy, AuthPolicy::ApiKey { key } if key == "key"));

    let mut flags = no_flags();
    flags.auth_env = Some(EnvSecret {
        var: "V".into(),
        value: None,
    });
    let err = build_auth_config(flags).err().unwrap();
    assert_eq!(err.to_text(), "config: auth flag: env var `V` is unset or empty");

    let mut flags = no_flags();
    flags.auth = Some("nocolon".into());
    let err = build_auth_config(flags).err().unwrap();
    assert_eq!(
        err.to_text(),
        "config: auth flag: --auth value missing the `:` separator"
    );

    let mut flags = no_flags();
    flags.auth_file = Some(FileSecret {
        path: "f".into(),
        contents: Ok(":pw".into()),
    });
    let err = build_auth_config(flags).err().unwrap();
    assert_eq!(err.to_text(), "config: auth flag: --auth username is empty");
}

#[test]
fn server_names_and_labels() {
    assert_eq!(split_host_port("relay.example:9000"), ("relay.example".into(), 9000));
    assert_eq!(split_host_port("relay.example"), ("relay.example".into(), 7853));
    assert_eq!(split_host_port("relay:99999"), ("relay:99999".into(), 7853));
    assert_eq!(split_host_port("::1"), (":".into(), 1));
    assert_eq!(numbered_label(0), "krot-00000000");
    assert_eq!(numbered_label(0xdead_beef), "krot-deadbeef");
    let label = default_label();
    assert_eq!(label.len(), 13);
    assert!(label.starts_with("krot-"));
    assert!(u32::from_str_radix(&label[5..], 16).unwrap() < u32::MAX);
}

#[test]
fn create_and_validate_token() {
    let mut store = SessionStore::new();
    let t = store.create();
    assert_eq!(t.len(), 64);
    assert!(store.validate_and_refresh(&t));
}

#[test]
fn validate_rejects_unknown() {
    let mut store = SessionStore::new();
    assert!(!store.validate_and_refresh("deadbeef"));
}

#[test]
fn invalidate_removes() {
    let mut store = SessionStore::new();
    let t = store.create();
    store.invalidate(&t);
    assert!(!store.validate_and_refresh(&t));
    assert_eq!(store.len(), 0);
}

#[test]
fn tokens_are_unique() {
    let mut store = SessionStore::new();
    let a = store.create();
    let b = store.create();
    assert_ne!(a, b);
}

#[test]
fn extract_cookie_picks_ours() {
    assert_eq!(
        extract_session_cookie("foo=bar; __krot_session=abc; baz=qux").as_deref(),
        Some("abc"),
    );
    assert_eq!(extract_session_cookie("foo=bar").as_deref(), None);
    assert_eq!(
        extract_session_cookie("__krot_session=xyz").as_deref(),
        Some("xyz")
    );
}

#[test]
fn form_decode_basics() {
    assert_eq!(form_decode("hello+world"), "hello world");
    assert_eq!(form_decode("a%20b"), "a b");
    assert_eq!(form_decode("%2F"), "/");
    assert_eq!(form_decode("%zz"), "%zz");
}

#[test]
fn form_decode_edges() {
    assert_eq!(form_decode("%C3%A9"), "é");
    assert_eq!(form_decode("%"), "%");
    assert_eq!(form_decode("%4"), "%4");
    assert_eq!(form_decode("%41%"), "A%");
    // What is not UTF-8 is shown as a replacement character.
    assert_eq!(form_decode("%ff"), "\u{fffd}");
}

#[test]
fn parse_form_extracts_fields() {
    let f = parse_login_form("user=alice&pass=s%3Ecret&next=%2Fdash");
    assert_eq!(f.user.as_deref(), Some("alice"));
    assert_eq!(f.pass.as_deref(), Some("s>cret"));
    assert_eq!(f.next.as_deref(), Some("/dash"));
}

#[test]
fn html_escape_covers_specials() {
    assert_eq!(
        html_escape("<a href=\"x\">"),
        "&lt;a href=&quot;x&quot;&gt;"
    );
}

#[test]
fn safe_next_rejects_open_redirect() {
    assert_eq!(safe_next("/dashboard"), "/dashboard");
    assert_eq!(safe_next("//evil.example/x"), "/");
    assert_eq!(safe_next("http://evil"), "/");
    assert_eq!(safe_next("/ok\r\nHeader: bad"), "/");
}

#[test]
fn set_cookie_has_required_attrs() {
    let c = session_set_cookie("tok");
    assert!(c.contains("__krot_session=tok"));
    assert!(c.contains("HttpOnly"));
    assert!(c.contains("SameSite=Lax"));
    assert!(c.contains("Max-Age="));
    // The `Secure` flag is deliberately absent: this cookie is set
    // on the plain-HTTP tunnel branch and a browser would drop it
    // on the next request, breaking the login loop.
    assert!(!c.contains("Secure"));
}

#[test]
fn the_cookie_that_is_set_is_the_cookie_that_is_read() {
    let set = session_set_cookie("tok");
    let pair = set.split(';').next().unwrap();
    assert_eq!(extract_session_cookie(pair).as_deref(), Some("tok"));
    let clear = session_clear_cookie();
    assert!(clear.contains("Max-Age=0"));
}

#[test]
fn login_page_echoes_next_escaped() {
    let html = render_login_page("/foo\"bar", None);
    assert!(html.contains(r#"value="/foo&quot;bar""#));
    assert!(!html.contains("<script"));
}

#[test]
fn login_page_shows_the_error() {
    let html = render_login_page("/", Some("a < b"));
    assert!(html.contains("<p class=\"err\">a &lt; b</p>"));
    assert!(html.contains("/__krot/login"));
    let bytes = http_html_response("<p>é</p>");
    let text = std::str::from_utf8(&bytes).unwrap();
    assert!(text.starts_with("HTTP/1.1 200 OK\r\n"));
    assert!(text.contains("Content-Length: 9\r\n"));
    assert!(text.ends_with("\r\n\r\n<p>é</p>"));
}

#[test]
fn redirect_includes_cookie_when_provided() {
    let bytes = http_redirect("/", Some(&session_set_cookie("t")));
    let s = std::str::from_utf8(&bytes).unwrap();
    assert!(s.starts_with("HTTP/1.1 302 Found\r\n"));
    assert!(s.contains("Location: /\r\n"));
    assert!(s.contains("Set-Cookie: __krot_session=t;"));
}
