//! Client-side HTTP authentication for published tunnels.
//!
//! `--auth user:pass` gives humans a login page and a session cookie;
//! `--api-key <key>` gives machines a header-based bearer token. Only plain
//! HTTP is covered: the headers of HTTPS-passthrough streams cannot be read.

use crate::bytes::constant_time_eq;
use crate::client::login_page::{
    clear_cookie_spec, extract_session_cookie, field_in, form_bytes, form_decode, form_decode_spec, hex_val_spec,
    is_local_path, parse_login_form, safe_next, safe_next_spec, session_clear_cookie, session_cookie_in,
    session_set_cookie, set_cookie_spec, SessionStore, LOGIN_PATH, LOGOUT_PATH,
};
use crate::clock::{max_nanos, nanos_since};
use crate::codec::{random32, utf8_text};
use crate::http_parse::{header_views, Header, HeaderView};
use crate::server::admin_api::header_text;
use crate::text::{
    lemma_utf8_injective,
    chars_of, cut_first, dec, eq_ignore_ascii_case, is_space, is_space_spec, lemma_first_at_is, lower, opt_view,
    push_char, push_u64, same_str, split, split_once, split_spec, string_range, strip_prefix, strip_prefix_spec, trim,
    trim_spec, upper_hex, upper_hex_digit, views,
};
use vstd::prelude::*;
use vstd::string::*;
use vstd::utf8::{decode_utf8, encode_utf8, valid_utf8};

verus! {

/// One authenticator policy attached to a tunnel.
pub enum AuthPolicy {
    /// Form-based authentication with a session cookie.
    Session { user: String, pass: String, store: SessionStore },
    /// A single opaque token, accepted as `Authorization: Bearer <key>` and as
    /// `X-API-Key: <key>`.
    ApiKey { key: String },
}

/// Complete authentication configuration of one tunnel.
pub struct AuthConfig {
    pub policy: AuthPolicy,
    pub realm: String,
}

/// Default realm.
pub const DEFAULT_REALM: &'static str = "KROT Protected Tunnel";

/// Outcome of an API-key check.
#[derive(Debug, Clone, Copy, PartialEq, Eq, Structural)]
pub enum Outcome {
    Accepted,
    Missing,
    BadCreds,
}

/// What to do with a request under a session policy.
#[derive(Debug, Clone)]
pub enum SessionAction {
    /// Valid session: forward the request to the local target.
    Forward,
    /// Answer with the login page. `next` is where the user wanted to go.
    ServeLoginPage { next: String, error: Option<&'static str> },
    /// Answer with a redirect, and set the cookie if there is one.
    Redirect { location: String, set_cookie: Option<String> },
}

/// What a [`SessionAction`] says.
pub enum ActionView {
    Forward,
    ServeLoginPage { next: Seq<char>, error: Option<Seq<char>> },
    Redirect { location: Seq<char>, set_cookie: Option<Seq<char>> },
}

impl View for SessionAction {
    type V = ActionView;

    open spec fn view(&self) -> ActionView {
        match *self {
            SessionAction::Forward => ActionView::Forward,
            SessionAction::ServeLoginPage { next, error } => ActionView::ServeLoginPage {
                next: next@,
                error: match error {
                    Some(e) => Some(e@),
                    None => None,
                },
            },
            SessionAction::Redirect { location, set_cookie } => ActionView::Redirect {
                location: location@,
                set_cookie: opt_view(set_cookie),
            },
        }
    }
}

fn secret_eq(a: &str, b: &str) -> (r: bool)
    ensures
        r == (a@ == b@),
{
    proof {
        lemma_utf8_injective(a@, b@);
    }
    constant_time_eq(a.as_bytes(), b.as_bytes())
}

/// What follows the scheme `bearer`, in any case, and a white space; that
/// white space included.
pub open spec fn bearer_rest(value: Seq<char>) -> Option<Seq<char>> {
    if value.len() > 6 && lower(value.take(6)) == lower("bearer"@) && is_space_spec(value[6]) {
        Some(value.skip(6))
    } else {
        None
    }
}

fn strip_bearer(value: &str) -> (r: Option<String>)
    ensures
        opt_view(r) == bearer_rest(value@),
{
    let cs = chars_of(value);
    if cs.len() <= 6 {
        return None;
    }
    let head = string_range(&cs, 0, 6);
    assert(head@ =~= value@.take(6));
    if !eq_ignore_ascii_case(head.as_str(), "bearer") || !is_space(cs[6]) {
        return None;
    }
    let tail = string_range(&cs, 6, cs.len());
    assert(tail@ =~= value@.skip(6));
    Some(tail)
}

/// Whether a header carries a key, and under which name.
pub open spec fn is_api_key_header(h: HeaderView) -> bool {
    lower(h.name) == lower("x-api-key"@)
}

/// Whether a header is an authorization.
pub open spec fn is_authorization_header(h: HeaderView) -> bool {
    lower(h.name) == lower("authorization"@)
}

/// What the headers come to, when `saw` says whether one before them could
/// have carried the key: the first that carries it decides, and so does one
/// that is not UTF-8.
pub open spec fn api_key_spec(key: Seq<char>, headers: Seq<HeaderView>, saw: bool) -> Outcome
    decreases headers.len(),
{
    if headers.len() == 0 {
        if saw {
            Outcome::BadCreds
        } else {
            Outcome::Missing
        }
    } else {
        let h = headers[0];
        if is_api_key_header(h) {
            if !valid_utf8(h.value) {
                Outcome::BadCreds
            } else if trim_spec(decode_utf8(h.value)) == key {
                Outcome::Accepted
            } else {
                api_key_spec(key, headers.skip(1), true)
            }
        } else if is_authorization_header(h) {
            if !valid_utf8(h.value) {
                Outcome::BadCreds
            } else if bearer_rest(trim_spec(decode_utf8(h.value))) is Some && trim_spec(
                bearer_rest(trim_spec(decode_utf8(h.value)))->0,
            ) == key {
                Outcome::Accepted
            } else {
                api_key_spec(key, headers.skip(1), true)
            }
        } else {
            api_key_spec(key, headers.skip(1), saw)
        }
    }
}

fn check_key(key: &str, headers: &Vec<Header>) -> (r: Outcome)
    ensures
        r == api_key_spec(key@, header_views(headers@), false),
{
    let ghost all = header_views(headers@);
    let mut saw_header = false;
    proof {
        assert(all.skip(0) =~= all);
        reveal_strlit("x-api-key");
        reveal_strlit("authorization");
        assert(lower("x-api-key"@).len() == 9);
        assert(lower("authorization"@).len() == 13);
    }
    for i in 0..headers.len()
        invariant
            all == header_views(headers@),
            lower("x-api-key"@) != lower("authorization"@),
            api_key_spec(key@, all.skip(i as int), saw_header) == api_key_spec(key@, all, false),
    {
        let h = &headers[i];
        assert(all.skip(i as int)[0] == h@);
        assert(all.skip(i as int).skip(1) =~= all.skip(i + 1));
        if eq_ignore_ascii_case(h.name.as_str(), "x-api-key") {
            saw_header = true;
            match utf8_text(h.value.as_slice()) {
                None => return Outcome::BadCreds,
                Some(value) => {
                    if secret_eq(trim(value).as_str(), key) {
                        return Outcome::Accepted;
                    }
                },
            }
        } else if eq_ignore_ascii_case(h.name.as_str(), "authorization") {
            saw_header = true;
            match utf8_text(h.value.as_slice()) {
                None => return Outcome::BadCreds,
                Some(value) => {
                    if let Some(rest) = strip_bearer(trim(value).as_str()) {
                        if secret_eq(trim(rest.as_str()).as_str(), key) {
                            return Outcome::Accepted;
                        }
                    }
                },
            }
        }
    }
    if saw_header {
        Outcome::BadCreds
    } else {
        Outcome::Missing
    }
}

/// The session token in the first `Cookie` header that has one.
pub open spec fn token_in(headers: Seq<HeaderView>) -> Option<Seq<char>>
    decreases headers.len(),
{
    if headers.len() == 0 {
        None
    } else {
        let h = headers[0];
        if lower(h.name) == lower("cookie"@) && valid_utf8(h.value) && session_cookie_in(
            decode_utf8(h.value),
        ) is Some {
            session_cookie_in(decode_utf8(h.value))
        } else {
            token_in(headers.skip(1))
        }
    }
}

fn current_session_token(headers: &Vec<Header>) -> (r: Option<String>)
    ensures
        opt_view(r) == token_in(header_views(headers@)),
{
    let ghost all = header_views(headers@);
    assert(all.skip(0) =~= all);
    for i in 0..headers.len()
        invariant
            all == header_views(headers@),
            token_in(all.skip(i as int)) == token_in(all),
    {
        let h = &headers[i];
        assert(all.skip(i as int)[0] == h@);
        assert(all.skip(i as int).skip(1) =~= all.skip(i + 1));
        if eq_ignore_ascii_case(h.name.as_str(), "cookie") {
            if let Some(value) = utf8_text(h.value.as_slice()) {
                if let Some(tok) = extract_session_cookie(value) {
                    return Some(tok);
                }
            }
        }
    }
    None
}

/// The bytes that stand for themselves in a redirect's query.
pub open spec fn is_plain_byte(b: u8) -> bool {
    ||| 0x41 <= b <= 0x5a
    ||| 0x61 <= b <= 0x7a
    ||| 0x30 <= b <= 0x39
    ||| b == 0x2d
    ||| b == 0x5f
    ||| b == 0x2e
    ||| b == 0x7e
    ||| b == 0x2f
    ||| b == 0x3a
    ||| b == 0x40
    ||| b == 0x2c
    ||| b == 0x3b
    ||| b == 0x3d
}

/// What stands for a byte in a redirect's query.
pub open spec fn query_byte(b: u8) -> Seq<char> {
    if is_plain_byte(b) {
        seq![b as char]
    } else {
        seq!['%', upper_hex(b as int / 16), upper_hex(b as int % 16)]
    }
}

/// What stands for a byte sequence in a redirect's query.
pub open spec fn query_bytes(s: Seq<u8>) -> Seq<char>
    decreases s.len(),
{
    if s.len() == 0 {
        Seq::empty()
    } else {
        query_bytes(s.drop_last()) + query_byte(s.last())
    }
}

/// Escape a path for a redirect's query.
pub fn percent_encode_path(s: &str) -> (r: String)
    ensures
        r@ == query_bytes(encode_utf8(s@)),
{
    let bytes = s.as_bytes();
    let ghost all = bytes@;
    let mut out = String::new();
    assert(all.take(0) =~= Seq::empty());
    for i in 0..bytes.len()
        invariant
            all == bytes@,
            out@ == query_bytes(all.take(i as int)),
    {
        let b = bytes[i];
        let ghost before = out@;
        assert(all.take(i + 1).drop_last() =~= all.take(i as int));
        if (0x41 <= b && b <= 0x5a) || (0x61 <= b && b <= 0x7a) || (0x30 <= b && b <= 0x39) || b == 0x2d
            || b == 0x5f || b == 0x2e || b == 0x7e || b == 0x2f || b == 0x3a || b == 0x40 || b == 0x2c || b
            == 0x3b || b == 0x3d {
            push_char(&mut out, b as char);
        } else {
            push_char(&mut out, '%');
            push_char(&mut out, upper_hex_digit(b / 16));
            push_char(&mut out, upper_hex_digit(b % 16));
        }
        assert(out@ =~= before + query_byte(b));
    }
    assert(all.take(all.len() as int) =~= all);
    out
}

/// The path of a request without its query.
pub open spec fn path_only(path: Seq<char>) -> Seq<char> {
    match cut_first(path, '?') {
        Some((p, _)) => p,
        None => path,
    }
}

/// The value of the first pair of a query that starts with `next=`.
pub open spec fn first_next(pairs: Seq<Seq<char>>) -> Option<Seq<char>>
    decreases pairs.len(),
{
    if pairs.len() == 0 {
        None
    } else if strip_prefix_spec(pairs[0], "next="@) is Some {
        strip_prefix_spec(pairs[0], "next="@)
    } else {
        first_next(pairs.skip(1))
    }
}

/// Where the query of the login page says to go after it.
pub open spec fn next_of_query(path: Seq<char>) -> Seq<char> {
    match cut_first(path, '?') {
        None => "/"@,
        Some((_, query)) => match first_next(split_spec(query, '&')) {
            None => "/"@,
            Some(v) => safe_next_spec(form_decode_spec(v)),
        },
    }
}

/// Where a login form says to go after it.
pub open spec fn next_of_form(body: Seq<char>) -> Seq<char> {
    match field_in(body, "next"@) {
        None => "/"@,
        Some(v) => safe_next_spec(v),
    }
}

/// The password of a login form; empty when there is none.
pub open spec fn form_pass(body: Seq<char>) -> Seq<char> {
    match field_in(body, "pass"@) {
        Some(v) => v,
        None => Seq::empty(),
    }
}

/// Whether a login form holds these credentials.
pub open spec fn form_matches(body: Seq<char>, user: Seq<char>, pass: Seq<char>) -> bool {
    field_in(body, "user"@) == Some(user) && form_pass(body) == pass
}

/// Where a request without a session is sent.
pub open spec fn login_redirect(path: Seq<char>) -> Seq<char> {
    LOGIN_PATH@ + "?next="@ + query_bytes(encode_utf8(path))
}

/// The inputs of a session decision that a request does not carry: random
/// bytes for a token, and two readings of the clock.
pub struct Moment {
    pub raw: [u8; 32],
    pub t1: u128,
    pub t2: u128,
}

/// What a session policy does with a request, and what it leaves behind.
pub open spec fn session_decided(
    user: Seq<char>,
    pass: Seq<char>,
    pre: SessionStore,
    post: SessionStore,
    method: Seq<char>,
    path: Seq<char>,
    headers: Seq<HeaderView>,
    body: Seq<u8>,
    m: Moment,
    r: ActionView,
) -> bool {
    let token = token_in(headers);
    let form = header_text(body);
    if path_only(path) == LOGOUT_PATH@ {
        &&& r == (ActionView::Redirect { location: "/"@, set_cookie: Some(clear_cookie_spec()) })
        &&& match token {
            Some(tok) => post.inner@ == pre.inner@.remove(tok) && post.origin == pre.origin,
            None => post == pre,
        }
    } else if path_only(path) == LOGIN_PATH@ && lower(method) == lower("POST"@) {
        if form_matches(form, user, pass) {
            &&& pre.created(post, m.raw@, m.t1, m.t2, crate::codec::hex_text(m.raw@))
            &&& r == (ActionView::Redirect {
                location: next_of_form(form),
                set_cookie: Some(set_cookie_spec(crate::codec::hex_text(m.raw@))),
            })
        } else {
            &&& post == pre
            &&& r == (ActionView::ServeLoginPage {
                next: next_of_form(form),
                error: Some("Invalid username or password."@),
            })
        }
    } else if path_only(path) == LOGIN_PATH@ {
        &&& post == pre
        &&& r == (ActionView::ServeLoginPage { next: next_of_query(path), error: None })
    } else {
        match token {
            None => {
                &&& post == pre
                &&& r == (ActionView::Redirect { location: login_redirect(path), set_cookie: None })
            },
            Some(tok) => {
                &&& pre.validated(post, tok, m.t1, m.t2, pre.is_live(tok, m.t1))
                &&& r == if pre.is_live(tok, m.t1) {
                    ActionView::Forward
                } else {
                    ActionView::Redirect { location: login_redirect(path), set_cookie: None }
                }
            },
        }
    }
}

fn query_next(query: &str) -> (r: Option<String>)
    ensures
        opt_view(r) == first_next(split_spec(query@, '&')),
{
    let pairs = split(query, '&');
    let ghost all = split_spec(query@, '&');
    assert(all.skip(0) =~= all);
    for i in 0..pairs.len()
        invariant
            all == views(pairs@),
            all == split_spec(query@, '&'),
            first_next(all.skip(i as int)) == first_next(all),
    {
        assert(all.skip(i as int)[0] == pairs@[i as int]@);
        assert(all.skip(i as int).skip(1) =~= all.skip(i + 1));
        if let Some(v) = strip_prefix(pairs[i].as_str(), "next=") {
            return Some(v);
        }
    }
    None
}

fn decide_session_inner(
    user: &str,
    pass: &str,
    store: &mut SessionStore,
    method: &str,
    path: &str,
    headers: &Vec<Header>,
    body: &[u8],
    m: &Moment,
) -> (r: SessionAction)
    requires
        old(store).wf(),
        m.t2 <= max_nanos(),
    ensures
        final(store).wf(),
        session_decided(
            user@,
            pass@,
            *old(store),
            *final(store),
            method@,
            path@,
            header_views(headers@),
            body@,
            *m,
            r@,
        ),
{
    let (bare, query) = match split_once(path, '?') {
        Some((p, q)) => (p, Some(q)),
        None => (path.to_owned(), None),
    };
    if same_str(bare.as_str(), LOGOUT_PATH) {
        if let Some(tok) = current_session_token(headers) {
            store.invalidate(tok.as_str());
        }
        return SessionAction::Redirect {
            location: "/".to_owned(),
            set_cookie: Some(session_clear_cookie()),
        };
    }
    if same_str(bare.as_str(), LOGIN_PATH) && eq_ignore_ascii_case(method, "POST") {
        let text = match utf8_text(body) {
            Some(t) => t.to_owned(),
            None => String::new(),
        };
        let form = parse_login_form(text.as_str());
        let user_ok = match &form.user {
            Some(u) => same_str(u.as_str(), user),
            None => false,
        };
        let given = match form.pass {
            Some(p) => p,
            None => String::new(),
        };
        let next = match &form.next {
            Some(n) => safe_next(n.as_str()),
            None => "/".to_owned(),
        };
        if user_ok && secret_eq(given.as_str(), pass) {
            let token = store.create_at(&m.raw, m.t1, m.t2);
            return SessionAction::Redirect {
                location: next,
                set_cookie: Some(session_set_cookie(token.as_str())),
            };
        }
        return SessionAction::ServeLoginPage { next, error: Some("Invalid username or password.") };
    }
    if same_str(bare.as_str(), LOGIN_PATH) {
        let next = match query {
            None => "/".to_owned(),
            Some(q) => match query_next(q.as_str()) {
                None => "/".to_owned(),
                Some(v) => safe_next(form_decode(v.as_str()).as_str()),
            },
        };
        return SessionAction::ServeLoginPage { next, error: None };
    }
    if let Some(tok) = current_session_token(headers) {
        if store.validate_at(tok.as_str(), m.t1, m.t2) {
            return SessionAction::Forward;
        }
    }
    let mut location = LOGIN_PATH.to_owned();
    location.append("?next=");
    let encoded = percent_encode_path(path);
    location.append(encoded.as_str());
    SessionAction::Redirect { location, set_cookie: None }
}

impl AuthPolicy {
    /// No token of a session policy is held twice.
    pub open spec fn wf(self) -> bool {
        self matches AuthPolicy::Session { store, .. } ==> store.wf()
    }

    /// What a session policy does with a request, and what it leaves behind:
    /// the credentials stay.
    pub open spec fn decided(
        self,
        post: AuthPolicy,
        method: Seq<char>,
        path: Seq<char>,
        headers: Seq<HeaderView>,
        body: Seq<u8>,
        m: Moment,
        r: ActionView,
    ) -> bool {
        &&& self is Session
        &&& post is Session
        &&& post->user == self->user
        &&& post->pass == self->pass
        &&& session_decided(
            self->user@,
            self->pass@,
            self->store,
            post->store,
            method,
            path,
            headers,
            body,
            m,
            r,
        )
    }

    /// Check the headers of a request against an API-key policy.
    pub fn check_api_key(&self, headers: &Vec<Header>) -> (r: Outcome)
        requires
            self is ApiKey,
        ensures
            r == api_key_spec(self->key@, header_views(headers@), false),
    {
        match self {
            AuthPolicy::ApiKey { key } => check_key(key.as_str(), headers),
            AuthPolicy::Session { .. } => Outcome::BadCreds,
        }
    }

    /// Decide what to do with a request under a session policy. `body` is only
    /// read for a login.
    pub fn decide_session(
        &mut self,
        method: &str,
        path: &str,
        headers: &Vec<Header>,
        body: &[u8],
    ) -> (r: SessionAction)
        requires
            *old(self) is Session,
            old(self).wf(),
        ensures
            final(self).wf(),
            exists|m: Moment|
                m.t1 <= max_nanos() && m.t2 <= max_nanos() && #[trigger] old(self).decided(
                    *final(self),
                    method@,
                    path@,
                    header_views(headers@),
                    body@,
                    m,
                    r@,
                ),
    {
        let m = match self {
            AuthPolicy::Session { store, .. } => Moment {
                raw: random32(),
                t1: nanos_since(&store.origin),
                t2: nanos_since(&store.origin),
            },
            AuthPolicy::ApiKey { .. } => Moment { raw: random32(), t1: 0, t2: 0 },
        };
        self.decide_session_at(method, path, headers, body, &m)
    }

    /// Decide what to do with a request at a given moment.
    pub fn decide_session_at(
        &mut self,
        method: &str,
        path: &str,
        headers: &Vec<Header>,
        body: &[u8],
        m: &Moment,
    ) -> (r: SessionAction)
        requires
            *old(self) is Session,
            old(self).wf(),
            m.t2 <= max_nanos(),
        ensures
            final(self).wf(),
            old(self).decided(
                *final(self),
                method@,
                path@,
                header_views(headers@),
                body@,
                *m,
                r@,
            ),
    {
        match self {
            AuthPolicy::Session { user, pass, store } => decide_session_inner(
                user.as_str(),
                pass.as_str(),
                store,
                method,
                path,
                headers,
                body,
                m,
            ),
            AuthPolicy::ApiKey { .. } => SessionAction::Forward,
        }
    }
}

/// A request reaches the local target only with the cookie of a live session.
pub proof fn law_forward_needs_live_session(
    pre: AuthPolicy,
    post: AuthPolicy,
    method: Seq<char>,
    path: Seq<char>,
    headers: Seq<HeaderView>,
    body: Seq<u8>,
    m: Moment,
)
    requires
        pre.decided(post, method, path, headers, body, m, ActionView::Forward),
    ensures
        token_in(headers) is Some,
        pre->store.is_live(token_in(headers)->0, m.t1),
{
}

/// A session is only created for a login form with the right credentials.
pub proof fn law_session_needs_credentials(
    pre: AuthPolicy,
    post: AuthPolicy,
    method: Seq<char>,
    path: Seq<char>,
    headers: Seq<HeaderView>,
    body: Seq<u8>,
    m: Moment,
    r: ActionView,
    token: Seq<char>,
)
    requires
        pre.decided(post, method, path, headers, body, m, r),
        !pre->store.inner@.contains_key(token),
        post->store.inner@.contains_key(token),
    ensures
        form_matches(header_text(body), pre->user@, pre->pass@),
{
}

/// Whatever a request asks for, the user is only ever sent to a path on this site.
pub proof fn law_redirects_stay_local(
    pre: AuthPolicy,
    post: AuthPolicy,
    method: Seq<char>,
    path: Seq<char>,
    headers: Seq<HeaderView>,
    body: Seq<u8>,
    m: Moment,
    r: ActionView,
)
    requires
        pre.decided(post, method, path, headers, body, m, r),
    ensures
        r matches ActionView::ServeLoginPage { next, .. } ==> is_local_path(next),
        r matches ActionView::Redirect { location, .. } ==> is_local_path(location),
{
    reveal_strlit("/");
    reveal_strlit("?next=");
    reveal_strlit("/__krot/login");
    assert(is_local_path("/"@)) by {
        assert forall|i: int| 0 <= i < "/"@.len() implies "/"@[i] == '/' by {}
    }
    let q = query_bytes(encode_utf8(path));
    lemma_query_chars(encode_utf8(path));
    let l = login_redirect(path);
    let head = LOGIN_PATH@ + "?next="@;
    assert(l =~= head + q);
    assert forall|i: int| 0 <= i < l.len() implies l[i] != '\r' && l[i] != '\n' by {
        if i >= head.len() {
            assert(l[i] == q[i - head.len()]);
        }
    }
    assert(is_local_path(l));
}

/// The characters of a redirect's query: none that would end a header, a pair or the query.
pub proof fn lemma_query_chars(s: Seq<u8>)
    ensures
        forall|i: int|
            0 <= i < query_bytes(s).len() ==> {
                let c = #[trigger] query_bytes(s)[i];
                c != '\r' && c != '\n' && c != '&' && c != '?' && c != '+' && '\0' <= c <= '\u{7f}'
            },
    decreases s.len(),
{
    if s.len() > 0 {
        lemma_query_chars(s.drop_last());
        let front = query_bytes(s.drop_last());
        let tail = query_byte(s.last());
        assert forall|i: int| 0 <= i < query_bytes(s).len() implies {
            let c = #[trigger] query_bytes(s)[i];
            c != '\r' && c != '\n' && c != '&' && c != '?' && c != '+' && '\0' <= c <= '\u{7f}'
        } by {
            if i < front.len() {
                assert(query_bytes(s)[i] == front[i]);
            } else {
                assert(query_bytes(s)[i] == tail[i - front.len()]);
            }
        }
    }
}

/// What stands for a byte sequence in a redirect's query, taken from the front.
proof fn lemma_query_front(b: u8, rest: Seq<u8>)
    ensures
        query_bytes(seq![b] + rest) == query_byte(b) + query_bytes(rest),
    decreases rest.len(),
{
    let s = seq![b] + rest;
    if rest.len() == 0 {
        assert(s.drop_last() =~= Seq::empty());
        assert(query_bytes(s.drop_last()) =~= Seq::empty());
        assert(query_bytes(s) =~= query_byte(b) + query_bytes(rest));
    } else {
        assert(s.drop_last() =~= seq![b] + rest.drop_last());
        lemma_query_front(b, rest.drop_last());
        assert(query_bytes(s) =~= query_byte(b) + query_bytes(rest));
    }
}

/// ASCII characters as bytes.
spec fn ascii_bytes(s: Seq<char>) -> Seq<u8> {
    Seq::new(s.len(), |i: int| s[i] as u8)
}

/// Decoding as a form value undoes the escaping, byte by byte.
proof fn lemma_form_undoes_query(s: Seq<u8>)
    ensures
        form_bytes(ascii_bytes(query_bytes(s))) == s,
    decreases s.len(),
{
    if s.len() == 0 {
        assert(ascii_bytes(query_bytes(s)) =~= Seq::empty());
        assert(s =~= Seq::empty());
    } else {
        let b = s[0];
        let rest = s.skip(1);
        assert(s =~= seq![b] + rest);
        lemma_query_front(b, rest);
        lemma_form_undoes_query(rest);
        let all = ascii_bytes(query_bytes(s));
        let tail = ascii_bytes(query_bytes(rest));
        let q = query_byte(b);
        assert(all.len() == q.len() + tail.len());
        if is_plain_byte(b) {
            assert(all[0] == b);
            assert(all.skip(1) =~= tail);
        } else {
            assert(all[0] == 0x25);
            assert(all[1] == q[1] as u8);
            assert(all[2] == q[2] as u8);
            assert(hex_val_spec(all[1]) == Some((b / 16) as u8));
            assert(hex_val_spec(all[2]) == Some((b % 16) as u8));
            assert(all.skip(3) =~= tail);
        }
        assert(form_bytes(all) =~= seq![b] + rest);
    }
}

/// The path that is escaped into the login redirect is the path that the login
/// form gives back.
pub proof fn law_redirect_query_decodes(path: Seq<char>)
    ensures
        form_bytes(encode_utf8(query_bytes(encode_utf8(path)))) == encode_utf8(path),
        valid_utf8(form_bytes(encode_utf8(query_bytes(encode_utf8(path))))),
        decode_utf8(form_bytes(encode_utf8(query_bytes(encode_utf8(path))))) == path,
{
    broadcast use vstd::utf8::encode_utf8_valid_utf8, vstd::utf8::encode_utf8_decode_utf8;

    let q = query_bytes(encode_utf8(path));
    lemma_query_chars(encode_utf8(path));
    assert(vstd::utf8::is_ascii_chars(q)) by {
        assert forall|i: int| 0 <= i < q.len() implies '\0' <= #[trigger] q[i] <= '\u{7f}' by {}
    }
    vstd::utf8::is_ascii_chars_encode_utf8(q);
    assert(encode_utf8(q) =~= ascii_bytes(q));
    lemma_form_undoes_query(encode_utf8(path));
}

/// The login page that a redirect leads to finds the escaped path in the
/// query, whole and alone, and goes there next if it is a path on this site.
pub proof fn law_login_redirect_returns(path: Seq<char>)
    ensures
        path_only(login_redirect(path)) == LOGIN_PATH@,
        form_decode_spec(query_bytes(encode_utf8(path))) == path,
        next_of_query(login_redirect(path)) == safe_next_spec(path),
        is_local_path(path) ==> next_of_query(login_redirect(path)) == path,
{
    law_redirect_query_decodes(path);
    reveal_strlit("?next=");
    reveal_strlit("next=");
    reveal_strlit("/__krot/login");
    let q = query_bytes(encode_utf8(path));
    lemma_query_chars(encode_utf8(path));
    let l = login_redirect(path);
    let at = LOGIN_PATH@.len() as int;
    assert(l =~= LOGIN_PATH@ + "?next="@ + q);
    assert(l[at] == '?');
    assert forall|j: int| 0 <= j < at implies l[j] != '?' by {
        assert(l[j] == LOGIN_PATH@[j]);
    }
    lemma_first_at_is(l, '?', at);
    assert(l.take(at) =~= LOGIN_PATH@);
    let query = l.skip(at + 1);
    assert(query =~= "next="@ + q);
    assert forall|j: int| 0 <= j < query.len() implies query[j] != '&' by {
        if j >= 5 {
            assert(query[j] == q[j - 5]);
        }
    }
    lemma_first_at_is(query, '&', query.len() as int);
    assert(split_spec(query, '&') == seq![query]);
    assert(query.take(5) =~= "next="@);
    assert(query.skip(5) =~= q);
}

/// The response to a request without a valid API key.
pub open spec fn api_key_reject_spec() -> Seq<u8> {
    encode_utf8(
        "HTTP/1.1 403 Forbidden\r\nContent-Type: text/plain\r\nContent-Length: "@ + dec(
            encode_utf8("Forbidden"@).len(),
        ) + "\r\nConnection: close\r\n\r\n"@,
    ) + encode_utf8("Forbidden"@)
}

/// The response to a request without a valid API key.
pub fn api_key_reject_response() -> (r: Vec<u8>)
    ensures
        r@ == api_key_reject_spec(),
{
    let body = "Forbidden".as_bytes();
    let mut head =
        "HTTP/1.1 403 Forbidden\r\nContent-Type: text/plain\r\nContent-Length: ".to_owned();
    push_u64(&mut head, body.len() as u64);
    head.append("\r\nConnection: close\r\n\r\n");
    let mut out = head.as_str().as_bytes_vec();
    out.extend_from_slice(body);
    assert(out@ =~= api_key_reject_spec());
    out
}

/// Whether the first byte of a stream is that of a TLS record.
pub fn looks_like_tls(first_byte: u8) -> (r: bool)
    ensures
        r == (first_byte == 0x16),
{
    first_byte == 0x16
}

/// What is wrong with the authentication flags.
#[derive(Debug, Clone, PartialEq, Eq)]
pub enum AuthConfigError {
    MissingColon,
    EmptyUser,
    EnvUnset(String),
    FileRead(String, String),
    FileEmpty(String),
}

impl AuthConfigError {
    /// How the error is shown.
    pub open spec fn text(self) -> Seq<char> {
        match self {
            AuthConfigError::MissingColon => "--auth value missing the `:` separator"@,
            AuthConfigError::EmptyUser => "--auth username is empty"@,
            AuthConfigError::EnvUnset(v) => "env var `"@ + v@ + "` is unset or empty"@,
            AuthConfigError::FileRead(p, e) => "cannot read `"@ + p@ + "`: "@ + e@,
            AuthConfigError::FileEmpty(p) => "file `"@ + p@ + "` is empty"@,
        }
    }

    /// How the error is shown.
    pub fn to_text(&self) -> (r: String)
        ensures
            r@ == self.text(),
    {
        match self {
            AuthConfigError::MissingColon => "--auth value missing the `:` separator".to_owned(),
            AuthConfigError::EmptyUser => "--auth username is empty".to_owned(),
            AuthConfigError::EnvUnset(v) => "env var `".to_owned().concat(v.as_str()).concat(
                "` is unset or empty",
            ),
            AuthConfigError::FileRead(p, e) => "cannot read `".to_owned().concat(p.as_str()).concat(
                "`: ",
            ).concat(e.as_str()),
            AuthConfigError::FileEmpty(p) => "file `".to_owned().concat(p.as_str()).concat(
                "` is empty",
            ),
        }
    }
}

/// Parse a `user:pass` text into a session policy with this store.
pub fn session_from_userpass(s: &str, store: SessionStore) -> (r: Result<
    AuthPolicy,
    AuthConfigError,
>)
    ensures
        match cut_first(s@, ':') {
            None => r == Err::<AuthPolicy, _>(AuthConfigError::MissingColon),
            Some((user, pass)) => if user.len() == 0 {
                r == Err::<AuthPolicy, _>(AuthConfigError::EmptyUser)
            } else {
                &&& r is Ok
                &&& r->Ok_0 is Session
                &&& r->Ok_0->user@ == user
                &&& r->Ok_0->pass@ == pass
                &&& r->Ok_0->store == store
            },
        },
{
    match split_once(s, ':') {
        None => Err(AuthConfigError::MissingColon),
        Some((user, pass)) => if user.as_str().is_empty() {
            Err(AuthConfigError::EmptyUser)
        } else {
            Ok(AuthPolicy::Session { user, pass, store })
        },
    }
}

/// Wrap an opaque API key, trimmed.
pub fn api_key_from_str(s: &str) -> (r: AuthPolicy)
    ensures
        r is ApiKey,
        r->key@ == trim_spec(s@),
{
    AuthPolicy::ApiKey { key: trim(s) }
}

/// The value of an environment variable: neither unset nor empty.
pub fn read_env(var: &str, value: Option<String>) -> (r: Result<String, AuthConfigError>)
    ensures
        match value {
            Some(v) if v@.len() > 0 => r is Ok && r->Ok_0@ == v@,
            _ => r matches Err(AuthConfigError::EnvUnset(name)) && name@ == var@,
        },
{
    match value {
        Some(v) => if v.as_str().is_empty() {
            Err(AuthConfigError::EnvUnset(var.to_owned()))
        } else {
            Ok(v)
        },
        None => Err(AuthConfigError::EnvUnset(var.to_owned())),
    }
}

/// A text without the line breaks at its end.
pub open spec fn without_line_breaks(s: Seq<char>) -> Seq<char>
    decreases s.len(),
{
    if s.len() > 0 && (s.last() == '\r' || s.last() == '\n') {
        without_line_breaks(s.drop_last())
    } else {
        s
    }
}

/// The secret in a file: its contents without the line breaks at their end,
/// which must leave something. `contents` is the error's message where the
/// file could not be read.
pub fn read_file(path: &str, contents: Result<String, String>) -> (r: Result<
    String,
    AuthConfigError,
>)
    ensures
        match contents {
            Err(e) => r matches Err(AuthConfigError::FileRead(p, m)) && p@ == path@ && m@ == e@,
            Ok(raw) => if without_line_breaks(raw@).len() == 0 {
                r matches Err(AuthConfigError::FileEmpty(p)) && p@ == path@
            } else {
                r is Ok && r->Ok_0@ == without_line_breaks(raw@)
            },
        },
{
    let raw = match contents {
        Err(e) => return Err(AuthConfigError::FileRead(path.to_owned(), e)),
        Ok(raw) => raw,
    };
    let cs = chars_of(raw.as_str());
    let mut n: usize = cs.len();
    assert(cs@.take(n as int) =~= raw@);
    while n > 0 && (cs[n - 1] == '\r' || cs[n - 1] == '\n')
        invariant
            n <= cs@.len(),
            without_line_breaks(cs@.take(n as int)) == without_line_breaks(raw@),
        decreases n,
    {
        assert(cs@.take(n as int).drop_last() =~= cs@.take(n - 1));
        n -= 1;
    }
    if n == 0 {
        return Err(AuthConfigError::FileEmpty(path.to_owned()));
    }
    let text = string_range(&cs, 0, n);
    assert(text@ =~= cs@.take(n as int));
    Ok(text)
}

} // verus!
