//! Styled login page and in-memory session store for tunnels with `--auth`.
//!
//! A successful POST yields a random session token, kept here and mirrored in
//! an `HttpOnly; SameSite=Lax` cookie. Sessions live for eight hours from the
//! last validated request. The cookie is not `Secure`: the login runs on
//! plain-HTTP traffic only, where a browser would drop such a cookie.

use crate::clock::{instant_now, max_nanos, nanos_since};
use crate::codec::{hex_text, lossy_text, random32, utf8_lossy};
use crate::text::{
    chars_of, contains_char, cut_first, dec, lower_hex, lower_hex_digit, opt_view, push_char, push_u64, same_str,
    split, split_once, split_spec, strip_prefix, strip_prefix_spec, trim, trim_spec, views,
};
use crate::vec_map::{after, VecMap};
use vstd::prelude::*;
use vstd::string::*;
use vstd::utf8::{decode_utf8, encode_utf8, valid_utf8};

verus! {

/// Rolling session lifetime, in seconds.
pub const SESSION_TTL_SECS: u64 = 8 * 3600;

/// Cookie name.
pub const SESSION_COOKIE: &'static str = "__krot_session";

/// Path of the login form, answered before the local target is reached.
pub const LOGIN_PATH: &'static str = "/__krot/login";

/// Path that ends a session.
pub const LOGOUT_PATH: &'static str = "/__krot/logout";

/// The longest login body that is read.
pub const LOGIN_BODY_CAP: usize = 4 * 1024;

/// The page up to the form's target.
pub const PAGE_HEAD: &'static str =
    "<!doctype html>\n<html lang=\"en\">\n<head>\n<meta charset=\"utf-8\">\n<meta name=\"viewport\" content=\"width=device-width,initial-scale=1\">\n<title>krot · sign in</title>\n<style>\n  :root { color-scheme: dark; }\n  * { box-sizing: border-box; }\n  html,body { height: 100%; margin: 0; }\n  body {\n    background: #1a1410;\n    color: #e8dcd0;\n    font: 15px/1.4 -apple-system, BlinkMacSystemFont, \"Segoe UI\", Inter, system-ui, sans-serif;\n    display: grid; place-items: center;\n  }\n  .card {\n    width: min(360px, 92vw);\n    background: #221913;\n    border: 1px solid #3a2a20;\n    border-radius: 14px;\n    padding: 32px 28px;\n    box-shadow: 0 12px 40px rgba(0,0,0,.35);\n  }\n  .brand { display: flex; align-items: center; gap: 12px; margin-bottom: 24px; }\n  .brand .mole { width: 48px; height: 48px; flex: 0 0 auto; }\n  .brand .word { display: flex; flex-direction: column; line-height: 1; }\n  .brand .word .name { font-size: 26px; font-weight: 800; letter-spacing: -0.5px; }\n  .brand .word .name em { font-style: normal; color: #e89a9a; }\n  .brand .word .trail { margin-top: 4px; width: 100%; height: 8px; display: block; }\n  .brand .word .tag { margin-top: 6px; font-size: 9px; letter-spacing: 3px; color: #8a7a6a; text-transform: uppercase; }\n  label { display: block; font-size: 12px; text-transform: uppercase; letter-spacing: 1px; color: #a89a8a; margin: 14px 0 6px; }\n  input[type=text], input[type=password] {\n    width: 100%; padding: 10px 12px;\n    background: #1a1410; color: #f5ece0;\n    border: 1px solid #3a2a20; border-radius: 8px;\n    font: inherit;\n  }\n  input:focus { outline: none; border-color: #e89a9a; }\n  button {\n    margin-top: 20px; width: 100%;\n    padding: 11px 14px; border: 0; border-radius: 8px;\n    background: #e89a9a; color: #2b1a14;\n    font-weight: 700; font-size: 15px; cursor: pointer;\n  }\n  button:hover { background: #f0b0b0; }\n  .err { margin: 14px 0 0; padding: 10px 12px; background: #3a1a1a; border: 1px solid #7a2a2a; border-radius: 8px; color: #f5b0b0; font-size: 13px; }\n  .foot { margin-top: 22px; text-align: center; font-size: 11px; color: #6a5a4a; }\n</style>\n</head>\n<body>\n  <form class=\"card\" method=\"post\" action=\"";

/// The page from the form's target to the message.
pub const PAGE_FORM: &'static str =
    "\">\n    <div class=\"brand\">\n      <svg class=\"mole\" viewBox=\"0 0 120 120\" aria-hidden=\"true\">\n        <ellipse cx=\"60\" cy=\"70\" rx=\"42\" ry=\"34\" fill=\"#5a3a28\"/>\n        <circle cx=\"60\" cy=\"50\" r=\"30\" fill=\"#6a4a34\"/>\n        <path d=\"M42 46 h10 M68 46 h10\" stroke=\"#2b1a12\" stroke-width=\"3\" stroke-linecap=\"round\"/>\n        <path d=\"M55 62 L60 70 L65 62 Z\" fill=\"#e89a9a\"/>\n        <circle cx=\"60\" cy=\"66\" r=\"1.6\" fill=\"#2b1a12\"/>\n        <ellipse cx=\"34\" cy=\"82\" rx=\"10\" ry=\"8\" fill=\"#e89a9a\"/>\n        <ellipse cx=\"86\" cy=\"82\" rx=\"10\" ry=\"8\" fill=\"#e89a9a\"/>\n      </svg>\n      <div class=\"word\">\n        <div class=\"name\">kr<em>o</em>t</div>\n        <svg class=\"trail\" viewBox=\"0 0 160 8\" preserveAspectRatio=\"none\" aria-hidden=\"true\">\n          <path d=\"M2 4 Q 12 0, 22 4 T 42 4 T 62 4 T 82 4 T 102 4 T 122 4 T 142 4\"\n                fill=\"none\" stroke=\"#e89a9a\" stroke-width=\"1.5\" stroke-linecap=\"round\"/>\n          <circle cx=\"30\" cy=\"6\" r=\"0.8\" fill=\"#8a5a4a\"/>\n          <circle cx=\"70\" cy=\"6\" r=\"0.8\" fill=\"#8a5a4a\"/>\n          <circle cx=\"110\" cy=\"6\" r=\"0.8\" fill=\"#8a5a4a\"/>\n          <circle cx=\"152\" cy=\"4\" r=\"2\" fill=\"#2b1a12\" stroke=\"#e89a9a\" stroke-width=\"1\"/>\n        </svg>\n        <div class=\"tag\">tunnels that dig</div>\n      </div>\n    </div>\n    ";

/// The page from the message to the hidden field.
pub const PAGE_FIELDS: &'static str =
    "\n    <label for=\"u\">Username</label>\n    <input id=\"u\" name=\"user\" type=\"text\" autocomplete=\"username\" autofocus required>\n    <label for=\"p\">Password</label>\n    <input id=\"p\" name=\"pass\" type=\"password\" autocomplete=\"current-password\" required>\n    <input type=\"hidden\" name=\"next\" value=\"";

/// The rest of the page.
pub const PAGE_TAIL: &'static str =
    "\">\n    <button type=\"submit\">Sign in</button>\n    <div class=\"foot\">protected by krot</div>\n  </form>\n</body>\n</html>\n";

/// The lifetime of a session in nanoseconds.
pub open spec fn session_ttl_nanos() -> nat {
    SESSION_TTL_SECS as nat * 1_000_000_000
}

/// Session tokens, each with its deadline in nanoseconds after the store was made.
pub struct SessionStore {
    pub inner: VecMap<String, u128>,
    pub origin: std::time::Instant,
}

impl SessionStore {
    /// No token is held twice.
    pub open spec fn wf(self) -> bool {
        self.inner.wf()
    }

    /// Whether `token` is held and its deadline lies after `now`.
    pub open spec fn is_live(self, token: Seq<char>, now: u128) -> bool {
        self.inner@.contains_key(token) && self.inner@[token] > now
    }

    /// What creating a session from the bytes `raw` leaves behind: ended
    /// sessions are dropped at `t1`, and the new one starts at `t2`.
    pub open spec fn created(
        self,
        post: SessionStore,
        raw: Seq<u8>,
        t1: u128,
        t2: u128,
        token: Seq<char>,
    ) -> bool {
        &&& token == hex_text(raw)
        &&& post.inner@ == after(self.inner@, t1).insert(token, (t2 + session_ttl_nanos()) as u128)
        &&& post.origin == self.origin
    }

    /// What validating `token` at `t1` returns and leaves behind: a live
    /// session is extended from `t2` on, and an ended one is dropped.
    pub open spec fn validated(
        self,
        post: SessionStore,
        token: Seq<char>,
        t1: u128,
        t2: u128,
        r: bool,
    ) -> bool {
        &&& r == self.is_live(token, t1)
        &&& post.inner@ == if r {
            self.inner@.insert(token, (t2 + session_ttl_nanos()) as u128)
        } else {
            self.inner@.remove(token)
        }
        &&& post.origin == self.origin
    }

    /// What ending the session with this token leaves behind.
    pub open spec fn invalidated(self, post: SessionStore, token: Seq<char>) -> bool {
        &&& post.inner@ == self.inner@.remove(token)
        &&& post.origin == self.origin
    }

    /// A store without sessions.
    pub fn new() -> (r: SessionStore)
        ensures
            r.wf(),
            r.inner@ == Map::<Seq<char>, u128>::empty(),
    {
        SessionStore { inner: VecMap::new(), origin: instant_now() }
    }

    /// Create a session with a random token: 32 bytes in hexadecimal.
    pub fn create(&mut self) -> (token: String)
        requires
            old(self).wf(),
        ensures
            final(self).wf(),
            exists|raw: Seq<u8>, t1: u128, t2: u128|
                raw.len() == 32 && t1 <= max_nanos() && t2 <= max_nanos() && #[trigger] old(
                    self,
                ).created(*final(self), raw, t1, t2, token@),
    {
        let raw = random32();
        let t1 = nanos_since(&self.origin);
        let t2 = nanos_since(&self.origin);
        let ghost bytes = raw@;
        assert(bytes.len() == 32);
        self.create_at(&raw, t1, t2)
    }

    /// Create a session from the bytes `raw`.
    pub fn create_at(&mut self, raw: &[u8; 32], t1: u128, t2: u128) -> (token: String)
        requires
            old(self).wf(),
            t2 <= max_nanos(),
        ensures
            final(self).wf(),
            old(self).created(*final(self), raw@, t1, t2, token@),
    {
        let token = new_token(raw);
        self.inner.retain_after(t1);
        self.inner.insert(token.clone(), t2 + SESSION_TTL_SECS as u128 * 1_000_000_000);
        token
    }

    /// Whether `token` belongs to a live session, which is then extended. An
    /// ended one is dropped.
    pub fn validate_and_refresh(&mut self, token: &str) -> (r: bool)
        requires
            old(self).wf(),
        ensures
            final(self).wf(),
            exists|t1: u128, t2: u128|
                t1 <= max_nanos() && t2 <= max_nanos() && #[trigger] old(self).validated(
                    *final(self),
                    token@,
                    t1,
                    t2,
                    r,
                ),
    {
        let t1 = nanos_since(&self.origin);
        let t2 = nanos_since(&self.origin);
        self.validate_at(token, t1, t2)
    }

    /// Whether `token` belongs to a session that is live at `t1`, which is then extended from `t2`.
    pub fn validate_at(&mut self, token: &str, t1: u128, t2: u128) -> (r: bool)
        requires
            old(self).wf(),
            t2 <= max_nanos(),
        ensures
            final(self).wf(),
            old(self).validated(*final(self), token@, t1, t2, r),
    {
        let key = token.to_owned();
        let live = match self.inner.get(&key) {
            Some(deadline) => *deadline > t1,
            None => false,
        };
        if live {
            self.inner.insert(key, t2 + SESSION_TTL_SECS as u128 * 1_000_000_000);
        } else {
            let _ = self.inner.remove(&key);
        }
        live
    }

    /// End the session with this token, if there is one.
    pub fn invalidate(&mut self, token: &str)
        requires
            old(self).wf(),
        ensures
            final(self).wf(),
            old(self).invalidated(*final(self), token@),
    {
        let key = token.to_owned();
        let _ = self.inner.remove(&key);
    }

    /// The number of tokens held, live or not.
    pub fn len(&self) -> (r: usize)
        requires
            self.wf(),
        ensures
            r == self.inner@.len(),
    {
        self.inner.len()
    }
}

/// A created session is live until its deadline, and no other session's
/// verdict changes.
pub proof fn law_created_session_is_live(
    pre: SessionStore,
    post: SessionStore,
    raw: Seq<u8>,
    t1: u128,
    t2: u128,
    token: Seq<char>,
    t: u128,
    other: Seq<char>,
)
    requires
        t2 <= max_nanos(),
        t1 <= t,
        pre.created(post, raw, t1, t2, token),
        other != token,
    ensures
        post.is_live(token, t) <==> t < t2 + session_ttl_nanos(),
        post.is_live(other, t) == pre.is_live(other, t),
{
}

/// A validated session is live for a full lifetime again.
pub proof fn law_validation_extends(
    pre: SessionStore,
    post: SessionStore,
    token: Seq<char>,
    t1: u128,
    t2: u128,
    t: u128,
)
    requires
        t2 <= max_nanos(),
        pre.validated(post, token, t1, t2, true),
    ensures
        post.is_live(token, t) <==> t < t2 + session_ttl_nanos(),
{
}

/// Different random bytes give different tokens.
pub proof fn law_tokens_distinct(a: Seq<u8>, b: Seq<u8>)
    ensures
        hex_text(a) == hex_text(b) ==> a == b,
{
    crate::codec::law_hex_roundtrip(a);
    crate::codec::law_hex_roundtrip(b);
}

fn new_token(raw: &[u8; 32]) -> (r: String)
    ensures
        r@ == hex_text(raw@),
{
    let mut s = String::new();
    for i in 0..32usize
        invariant
            s@ == hex_text(raw@).take(2 * i as int),
    {
        let byte = raw[i];
        push_char(&mut s, lower_hex_digit(byte / 16));
        push_char(&mut s, lower_hex_digit(byte % 16));
        proof {
            let h = hex_text(raw@);
            assert(h[2 * i as int] == lower_hex(byte as int / 16));
            assert(h[2 * i as int + 1] == lower_hex(byte as int % 16));
            assert(s@ =~= h.take(2 * (i + 1)));
        }
    }
    assert(hex_text(raw@).take(64) =~= hex_text(raw@));
    s
}

/// The value of the session cookie in one `name=value` pair.
pub open spec fn cookie_value(pair: Seq<char>) -> Option<Seq<char>> {
    match strip_prefix_spec(trim_spec(pair), SESSION_COOKIE@) {
        Some(v) => strip_prefix_spec(v, "="@),
        None => None,
    }
}

/// The first session cookie among `pairs`.
pub open spec fn first_cookie(pairs: Seq<Seq<char>>) -> Option<Seq<char>>
    decreases pairs.len(),
{
    if pairs.len() == 0 {
        None
    } else if cookie_value(pairs[0]) is Some {
        cookie_value(pairs[0])
    } else {
        first_cookie(pairs.skip(1))
    }
}

/// The session cookie in a `Cookie` header.
pub open spec fn session_cookie_in(header: Seq<char>) -> Option<Seq<char>> {
    first_cookie(split_spec(header, ';'))
}

/// The value of the first session cookie in a `Cookie` header.
pub fn extract_session_cookie(cookie_header: &str) -> (r: Option<String>)
    ensures
        opt_view(r) == session_cookie_in(cookie_header@),
{
    let pairs = split(cookie_header, ';');
    let ghost all = split_spec(cookie_header@, ';');
    assert(all.skip(0) =~= all);
    for i in 0..pairs.len()
        invariant
            all == views(pairs@),
            all == split_spec(cookie_header@, ';'),
            first_cookie(all.skip(i as int)) == first_cookie(all),
    {
        assert(all.skip(i as int)[0] == pairs@[i as int]@);
        assert(all.skip(i as int).skip(1) =~= all.skip(i + 1));
        let pair = trim(pairs[i].as_str());
        if let Some(v) = strip_prefix(pair.as_str(), SESSION_COOKIE) {
            if let Some(v) = strip_prefix(v.as_str(), "=") {
                return Some(v);
            }
        }
    }
    None
}

/// The value of a hexadecimal digit, given as a byte.
pub open spec fn hex_val_spec(b: u8) -> Option<u8> {
    if 0x30 <= b <= 0x39 {
        Some((b - 0x30) as u8)
    } else if 0x61 <= b <= 0x66 {
        Some((b - 0x61 + 10) as u8)
    } else if 0x41 <= b <= 0x46 {
        Some((b - 0x41 + 10) as u8)
    } else {
        None
    }
}

fn hex_val(b: u8) -> (r: Option<u8>)
    ensures
        r == hex_val_spec(b),
        r is Some ==> r->0 < 16,
{
    if 0x30 <= b && b <= 0x39 {
        Some(b - 0x30)
    } else if 0x61 <= b && b <= 0x66 {
        Some(b - 0x61 + 10)
    } else if 0x41 <= b && b <= 0x46 {
        Some(b - 0x41 + 10)
    } else {
        None
    }
}

/// Whether an escape of two hexadecimal digits stands at the front.
pub open spec fn escape_at_front(s: Seq<u8>) -> bool {
    s.len() > 2 && s[0] == 0x25 && hex_val_spec(s[1]) is Some && hex_val_spec(s[2]) is Some
}

/// The bytes that a form value stands for: `+` is a space and `%HH` a byte;
/// whatever else there is stands for itself.
pub open spec fn form_bytes(s: Seq<u8>) -> Seq<u8>
    decreases s.len(),
{
    if s.len() == 0 {
        Seq::empty()
    } else if s[0] == 0x2b {
        seq![0x20u8] + form_bytes(s.skip(1))
    } else if escape_at_front(s) {
        seq![(16 * hex_val_spec(s[1])->0 + hex_val_spec(s[2])->0) as u8] + form_bytes(s.skip(3))
    } else {
        seq![s[0]] + form_bytes(s.skip(1))
    }
}

/// The text that a form value stands for.
pub open spec fn form_decode_spec(raw: Seq<char>) -> Seq<char> {
    let bytes = form_bytes(encode_utf8(raw));
    if valid_utf8(bytes) {
        decode_utf8(bytes)
    } else {
        utf8_lossy(bytes)
    }
}

/// Decode a single form value.
pub fn form_decode(raw: &str) -> (r: String)
    ensures
        r@ == form_decode_spec(raw@),
        r@ == utf8_lossy(form_bytes(encode_utf8(raw@))),
        valid_utf8(form_bytes(encode_utf8(raw@))) ==> r@ == decode_utf8(
            form_bytes(encode_utf8(raw@)),
        ),
{
    let bytes = raw.as_bytes();
    let ghost all = bytes@;
    let mut out: Vec<u8> = Vec::new();
    let mut i: usize = 0;
    assert(all.skip(0) =~= all);
    assert(out@ + form_bytes(all) =~= form_bytes(all));
    while i < bytes.len()
        invariant
            all == bytes@,
            i <= bytes@.len(),
            out@ + form_bytes(all.skip(i as int)) == form_bytes(all),
        decreases bytes@.len() - i,
    {
        let b = bytes[i];
        let ghost rest = all.skip(i as int);
        let ghost before = out@;
        assert(rest[0] == b);
        assert(rest.skip(1) =~= all.skip(i + 1));
        if b == 0x2b {
            out.push(0x20);
            i += 1;
            assert(before + (seq![0x20u8] + form_bytes(all.skip(i as int))) =~= out@ + form_bytes(
                all.skip(i as int),
            ));
        } else {
            let mut escape: Option<u8> = None;
            if b == 0x25 && bytes.len() - i > 2 {
                assert(rest[1] == bytes@[i + 1] && rest[2] == bytes@[i + 2]);
                if let (Some(h), Some(l)) = (hex_val(bytes[i + 1]), hex_val(bytes[i + 2])) {
                    escape = Some(16 * h + l);
                }
            }
            match escape {
                Some(v) => {
                    assert(rest.skip(3) =~= all.skip(i + 3));
                    out.push(v);
                    i += 3;
                    assert(before + (seq![v] + form_bytes(all.skip(i as int))) =~= out@ + form_bytes(
                        all.skip(i as int),
                    ));
                },
                None => {
                    out.push(b);
                    i += 1;
                    assert(before + (seq![b] + form_bytes(all.skip(i as int))) =~= out@ + form_bytes(
                        all.skip(i as int),
                    ));
                },
            }
        }
    }
    assert(all.skip(i as int) =~= Seq::empty());
    assert(out@ + Seq::<u8>::empty() =~= out@);
    lossy_text(out.as_slice())
}

/// The fields of a login form.
#[derive(Debug, Clone)]
pub struct LoginForm {
    pub user: Option<String>,
    pub pass: Option<String>,
    pub next: Option<String>,
}

/// The decoded value of a `name=value` pair, if the pair has this name.
pub open spec fn pair_field(pair: Seq<char>, name: Seq<char>) -> Option<Seq<char>> {
    match cut_first(pair, '=') {
        Some((k, v)) if k == name => Some(form_decode_spec(v)),
        _ => None,
    }
}

/// The value of the first field with this name among `pairs`, decoded.
pub open spec fn first_field(pairs: Seq<Seq<char>>, name: Seq<char>) -> Option<Seq<char>>
    decreases pairs.len(),
{
    if pairs.len() == 0 {
        None
    } else {
        match first_field(pairs.drop_last(), name) {
            Some(v) => Some(v),
            None => pair_field(pairs.last(), name),
        }
    }
}

/// The value of the first field with this name in a form body.
pub open spec fn field_in(body: Seq<char>, name: Seq<char>) -> Option<Seq<char>> {
    first_field(split_spec(body, '&'), name)
}

/// Parse a form body: the first `user`, `pass` and `next` field.
pub fn parse_login_form(body: &str) -> (r: LoginForm)
    ensures
        opt_view(r.user) == field_in(body@, "user"@),
        opt_view(r.pass) == field_in(body@, "pass"@),
        opt_view(r.next) == field_in(body@, "next"@),
{
    let pairs = split(body, '&');
    let ghost all = split_spec(body@, '&');
    let mut user: Option<String> = None;
    let mut pass: Option<String> = None;
    let mut next: Option<String> = None;
    proof {
        assert(all.take(0) =~= Seq::empty());
        reveal_strlit("user");
        reveal_strlit("pass");
        reveal_strlit("next");
        assert("user"@[0] == 'u' && "pass"@[0] == 'p' && "next"@[0] == 'n');
    }
    for i in 0..pairs.len()
        invariant
            all == views(pairs@),
            "user"@ != "pass"@,
            "user"@ != "next"@,
            "pass"@ != "next"@,
            opt_view(user) == first_field(all.take(i as int), "user"@),
            opt_view(pass) == first_field(all.take(i as int), "pass"@),
            opt_view(next) == first_field(all.take(i as int), "next"@),
    {
        assert(all[i as int] == pairs@[i as int]@);
        assert(all.take(i + 1).drop_last() =~= all.take(i as int));
        assert(all.take(i + 1).last() == all[i as int]);
        if let Some((k, v)) = split_once(pairs[i].as_str(), '=') {
            let value = form_decode(v.as_str());
            if same_str(k.as_str(), "user") {
                if user.is_none() {
                    user = Some(value);
                }
            } else if same_str(k.as_str(), "pass") {
                if pass.is_none() {
                    pass = Some(value);
                }
            } else if same_str(k.as_str(), "next") {
                if next.is_none() {
                    next = Some(value);
                }
            }
        }
    }
    assert(all.take(all.len() as int) =~= all);
    LoginForm { user, pass, next }
}

/// What stands for a character in HTML.
pub open spec fn escaped_char(c: char) -> Seq<char> {
    if c == '&' {
        "&amp;"@
    } else if c == '<' {
        "&lt;"@
    } else if c == '>' {
        "&gt;"@
    } else if c == '"' {
        "&quot;"@
    } else if c == '\'' {
        "&#39;"@
    } else {
        seq![c]
    }
}

/// A text with its HTML specials escaped.
pub open spec fn escaped(s: Seq<char>) -> Seq<char>
    decreases s.len(),
{
    if s.len() == 0 {
        Seq::empty()
    } else {
        escaped(s.drop_last()) + escaped_char(s.last())
    }
}

/// Escape a text for an HTML attribute or element.
pub fn html_escape(s: &str) -> (r: String)
    ensures
        r@ == escaped(s@),
{
    let cs = chars_of(s);
    let mut out = String::new();
    assert(s@.take(0) =~= Seq::empty());
    for i in 0..cs.len()
        invariant
            cs@ == s@,
            out@ == escaped(s@.take(i as int)),
    {
        let c = cs[i];
        let ghost before = out@;
        if c == '&' {
            out.append("&amp;");
        } else if c == '<' {
            out.append("&lt;");
        } else if c == '>' {
            out.append("&gt;");
        } else if c == '"' {
            out.append("&quot;");
        } else if c == '\'' {
            out.append("&#39;");
        } else {
            push_char(&mut out, c);
            assert(out@ =~= before + seq![c]);
        }
        assert(s@.take(i + 1).drop_last() =~= s@.take(i as int));
    }
    assert(s@.take(s@.len() as int) =~= s@);
    out
}

/// An escaped text holds no character that could end an attribute or open a tag.
pub proof fn law_escaped_is_inert(s: Seq<char>)
    ensures
        forall|i: int|
            0 <= i < escaped(s).len() ==> {
                let c = #[trigger] escaped(s)[i];
                c != '<' && c != '>' && c != '"' && c != '\''
            },
    decreases s.len(),
{
    if s.len() > 0 {
        law_escaped_is_inert(s.drop_last());
        reveal_strlit("&amp;");
        reveal_strlit("&lt;");
        reveal_strlit("&gt;");
        reveal_strlit("&quot;");
        reveal_strlit("&#39;");
        let front = escaped(s.drop_last());
        let tail = escaped_char(s.last());
        assert forall|i: int| 0 <= i < escaped(s).len() implies {
            let c = #[trigger] escaped(s)[i];
            c != '<' && c != '>' && c != '"' && c != '\''
        } by {
            if i < front.len() {
                assert(escaped(s)[i] == front[i]);
            } else {
                assert(escaped(s)[i] == tail[i - front.len()]);
            }
        }
    }
}

/// Whether a redirect target stays on this site.
pub open spec fn is_local_path(s: Seq<char>) -> bool {
    &&& s.len() > 0 && s[0] == '/'
    &&& !(s.len() > 1 && s[1] == '/')
    &&& !s.contains('\r')
    &&& !s.contains('\n')
}

/// The target to redirect to: the candidate if it is a path on this site, else the root.
pub open spec fn safe_next_spec(s: Seq<char>) -> Seq<char> {
    if is_local_path(s) {
        s
    } else {
        "/"@
    }
}

/// Accept only site-relative redirect targets, without line breaks.
pub fn safe_next(candidate: &str) -> (r: String)
    ensures
        r@ == safe_next_spec(candidate@),
        is_local_path(r@),
{
    let cs = chars_of(candidate);
    proof {
        reveal_strlit("/");
        assert(is_local_path("/"@)) by {
            assert forall|i: int| 0 <= i < "/"@.len() implies "/"@[i] == '/' by {}
        }
    }
    if cs.len() > 0 && cs[0] == '/' && !(cs.len() > 1 && cs[1] == '/') && !contains_char(
        candidate,
        '\r',
    ) && !contains_char(candidate, '\n') {
        candidate.to_owned()
    } else {
        "/".to_owned()
    }
}

/// The message above the form.
pub open spec fn error_block(error: Option<Seq<char>>) -> Seq<char> {
    match error {
        Some(msg) => "<p class=\"err\">"@ + escaped(msg) + "</p>"@,
        None => Seq::empty(),
    }
}

/// The login page.
pub open spec fn page_spec(next: Seq<char>, error: Option<Seq<char>>) -> Seq<char> {
    PAGE_HEAD@ + LOGIN_PATH@ + PAGE_FORM@ + error_block(error) + PAGE_FIELDS@ + escaped(next)
        + PAGE_TAIL@
}

/// Build the login page. `next` goes into a hidden field, escaped, and `error`
/// is shown above the form.
pub fn render_login_page(next: &str, error: Option<&str>) -> (r: String)
    ensures
        r@ == page_spec(next@, str_opt(error)),
{
    let next_esc = html_escape(next);
    let block = match error {
        Some(msg) => {
            let esc = html_escape(msg);
            let mut b = "<p class=\"err\">".to_owned();
            b.append(esc.as_str());
            b.append("</p>");
            b
        },
        None => String::new(),
    };
    let mut out = PAGE_HEAD.to_owned();
    out.append(LOGIN_PATH);
    out.append(PAGE_FORM);
    out.append(block.as_str());
    out.append(PAGE_FIELDS);
    out.append(next_esc.as_str());
    out.append(PAGE_TAIL);
    out
}

/// A response that carries an HTML page.
pub open spec fn html_response_spec(body: Seq<char>) -> Seq<u8> {
    encode_utf8(
        "HTTP/1.1 200 OK\r\nContent-Type: text/html; charset=utf-8\r\nContent-Length: "@ + dec(
            encode_utf8(body).len(),
        ) + "\r\nCache-Control: no-store\r\nConnection: close\r\n\r\n"@,
    ) + encode_utf8(body)
}

/// Build a response that carries an HTML page.
pub fn http_html_response(body: &str) -> (r: Vec<u8>)
    ensures
        r@ == html_response_spec(body@),
{
    let bytes = body.as_bytes();
    let mut head =
        "HTTP/1.1 200 OK\r\nContent-Type: text/html; charset=utf-8\r\nContent-Length: ".to_owned();
    push_u64(&mut head, bytes.len() as u64);
    head.append("\r\nCache-Control: no-store\r\nConnection: close\r\n\r\n");
    let mut out = head.as_str().as_bytes_vec();
    out.extend_from_slice(bytes);
    assert(out@ =~= html_response_spec(body@));
    out
}

/// A redirect, with a cookie if there is one to set.
pub open spec fn redirect_spec(location: Seq<char>, set_cookie: Option<Seq<char>>) -> Seq<u8> {
    let cookie_line = match set_cookie {
        Some(v) => "Set-Cookie: "@ + v + "\r\n"@,
        None => Seq::empty(),
    };
    encode_utf8(
        "HTTP/1.1 302 Found\r\nLocation: "@ + location + "\r\n"@ + cookie_line
            + "Content-Length: 0\r\nCache-Control: no-store\r\nConnection: close\r\n\r\n"@,
    )
}

/// The view of an optional text slice.
pub open spec fn str_opt(o: Option<&str>) -> Option<Seq<char>> {
    match o {
        Some(t) => Some(t@),
        None => None,
    }
}

/// Build a 302 redirect.
pub fn http_redirect(location: &str, set_cookie: Option<&str>) -> (r: Vec<u8>)
    ensures
        r@ == redirect_spec(location@, str_opt(set_cookie)),
{
    let cookie_line = match set_cookie {
        Some(v) => {
            let mut line = "Set-Cookie: ".to_owned();
            line.append(v);
            line.append("\r\n");
            line
        },
        None => String::new(),
    };
    let mut head = "HTTP/1.1 302 Found\r\nLocation: ".to_owned();
    head.append(location);
    head.append("\r\n");
    head.append(cookie_line.as_str());
    head.append("Content-Length: 0\r\nCache-Control: no-store\r\nConnection: close\r\n\r\n");
    head.as_str().as_bytes_vec()
}

/// The cookie that grants a session.
pub open spec fn set_cookie_spec(token: Seq<char>) -> Seq<char> {
    SESSION_COOKIE@ + "="@ + token + "; HttpOnly; SameSite=Lax; Path=/; Max-Age="@ + dec(
        SESSION_TTL_SECS as nat,
    )
}

/// The cookie that grants a session.
pub fn session_set_cookie(token: &str) -> (r: String)
    ensures
        r@ == set_cookie_spec(token@),
{
    let mut out = SESSION_COOKIE.to_owned();
    out.append("=");
    out.append(token);
    out.append("; HttpOnly; SameSite=Lax; Path=/; Max-Age=");
    push_u64(&mut out, SESSION_TTL_SECS);
    out
}

/// The cookie that ends a session.
pub open spec fn clear_cookie_spec() -> Seq<char> {
    SESSION_COOKIE@ + "=; HttpOnly; SameSite=Lax; Path=/; Max-Age=0"@
}

/// The cookie that ends a session.
pub fn session_clear_cookie() -> (r: String)
    ensures
        r@ == clear_cookie_spec(),
{
    SESSION_COOKIE.to_owned().concat("=; HttpOnly; SameSite=Lax; Path=/; Max-Age=0")
}

} // verus!
