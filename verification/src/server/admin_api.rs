//! Structured admin API: request heads and bodies, sessions, routing and the
//! replies of each endpoint.
//!
//! A session token is minted by exchanging the enrollment token at
//! `POST /admin/v1/session`; every other endpoint asks for it as
//! `Authorization: Bearer <token>`.

use crate::clock::{instant_now, max_nanos, nanos_since, unix_secs};
use crate::codec::{blake3_hash, crockford_encode, crockford_text, random32, utf8_text};
use crate::http_parse::{http_request, parse_request, HeaderView, ParseStatus, ParsedRequest, RequestView, StatusView};
use crate::server::admin::{constant_time_eq_public, token_hash};
use crate::server::metrics::ServerMetrics;
use crate::text::{
    eq_ignore_ascii_case, has_prefix, lower, opt_view, parse_uint, same_str, strip_prefix, strip_prefix_spec, trim,
    trim_spec, uint_spec,
};
use crate::vec_map::{after, lemma_vec_map, SameKey, VecMap};
use vstd::prelude::*;
use vstd::string::*;
use vstd::utf8::{decode_utf8, valid_utf8};

verus! {

/// Default address of the admin API: loopback only.
pub const DEFAULT_ADMIN_BIND: &'static str = "127.0.0.1:9700";

/// Default lifetime of a session token, in seconds.
pub const DEFAULT_SESSION_TTL_SECS: u64 = 24 * 3600;

/// How many bytes are buffered while looking for the end of the headers.
pub const MAX_HEADER_BYTES: usize = 8 * 1024;

/// The longest request body.
pub const MAX_BODY_BYTES: usize = 64 * 1024;

/// How many headers a request may have.
pub const MAX_HEADERS: usize = 32;

/// The hash of a session token.
#[derive(Clone, Copy)]
pub struct SessionHash(pub [u8; 32]);

impl View for SessionHash {
    type V = Seq<u8>;

    open spec fn view(&self) -> Seq<u8> {
        self.0@
    }
}

impl SameKey for SessionHash {
    fn same(&self, other: &SessionHash) -> (r: bool) {
        constant_time_eq_public(self.0.as_slice(), other.0.as_slice())
    }
}

/// A request that was read in full.
#[derive(Debug, Clone, PartialEq, Eq)]
pub struct Request {
    pub method: String,
    pub path: String,
    pub headers: Vec<(String, String)>,
    pub body: Vec<u8>,
}

/// What a list of decoded headers says.
pub open spec fn pairs_of(s: Seq<(String, String)>) -> Seq<(Seq<char>, Seq<char>)> {
    Seq::new(s.len(), |i: int| (s[i].0@, s[i].1@))
}

/// The token of an `Authorization` value of the bearer scheme.
pub open spec fn bearer_of(value: Seq<char>) -> Option<Seq<char>> {
    match strip_prefix_spec(value, "Bearer "@) {
        Some(rest) => Some(trim_spec(rest)),
        None => match strip_prefix_spec(value, "bearer "@) {
            Some(rest) => Some(trim_spec(rest)),
            None => None,
        },
    }
}

/// The token of the first `Authorization` header of the bearer scheme.
pub open spec fn bearer_in(headers: Seq<(Seq<char>, Seq<char>)>) -> Option<Seq<char>>
    decreases headers.len(),
{
    if headers.len() == 0 {
        None
    } else if lower(headers[0].0) == lower("authorization"@) && bearer_of(headers[0].1) is Some {
        bearer_of(headers[0].1)
    } else {
        bearer_in(headers.skip(1))
    }
}

impl Request {
    /// The bearer token that the request carries.
    pub fn auth_bearer(&self) -> (r: Option<String>)
        ensures
            opt_view(r) == bearer_in(pairs_of(self.headers@)),
    {
        let ghost all = pairs_of(self.headers@);
        assert(all.skip(0) =~= all);
        for i in 0..self.headers.len()
            invariant
                all == pairs_of(self.headers@),
                bearer_in(all.skip(i as int)) == bearer_in(all),
        {
            let (k, v) = &self.headers[i];
            assert(all.skip(i as int)[0] == (k@, v@));
            assert(all.skip(i as int).skip(1) =~= all.skip(i + 1));
            if eq_ignore_ascii_case(k.as_str(), "authorization") {
                if let Some(rest) = strip_prefix(v.as_str(), "Bearer ") {
                    return Some(trim(rest.as_str()));
                }
                if let Some(rest) = strip_prefix(v.as_str(), "bearer ") {
                    return Some(trim(rest.as_str()));
                }
            }
        }
        None
    }
}

/// The text of a header value; empty when it is not UTF-8.
pub open spec fn header_text(value: Seq<u8>) -> Seq<char> {
    if valid_utf8(value) {
        decode_utf8(value)
    } else {
        Seq::empty()
    }
}

/// The decoded headers of a head.
pub open spec fn decoded_headers(hs: Seq<HeaderView>) -> Seq<(Seq<char>, Seq<char>)> {
    Seq::new(hs.len(), |i: int| (hs[i].name, header_text(hs[i].value)))
}

/// The length that the last `Content-Length` header gives: 0 when it is no
/// number, or when there is none.
pub open spec fn content_length_in(hs: Seq<(Seq<char>, Seq<char>)>) -> nat
    decreases hs.len(),
{
    if hs.len() == 0 {
        0
    } else if lower(hs.last().0) == lower("content-length"@) {
        match uint_spec(hs.last().1, usize::MAX as nat) {
            Some(n) => n,
            None => 0,
        }
    } else {
        content_length_in(hs.drop_last())
    }
}

/// A head that was read, and the body as far as it has come.
pub struct Head {
    pub method: String,
    pub path: String,
    pub headers: Vec<(String, String)>,
    pub content_length: usize,
}

/// Reads a request chunk by chunk.
pub struct RequestReader {
    /// Everything before the end of the head; the body after it.
    pub buf: Vec<u8>,
    pub head: Option<Head>,
}

/// What comes of a chunk.
pub enum ReadStep {
    /// Read on.
    More,
    /// The request is complete.
    Done(Request),
    /// The request ended inside its head.
    UnexpectedEof(&'static str),
    /// The request is malformed or too large; the reason.
    InvalidData(String),
}

/// What is known of a request once its head is complete.
pub struct HeadSpec {
    pub method: Seq<char>,
    pub path: Seq<char>,
    pub headers: Seq<(Seq<char>, Seq<char>)>,
    pub content_length: nat,
}

/// An optional text, empty when it is missing.
pub open spec fn or_empty(o: Option<Seq<char>>) -> Seq<char> {
    match o {
        Some(t) => t,
        None => Seq::empty(),
    }
}

/// The head that the parser found.
pub open spec fn head_of(p: RequestView) -> HeadSpec {
    HeadSpec {
        method: or_empty(p.method),
        path: or_empty(p.path),
        headers: decoded_headers(p.headers),
        content_length: content_length_in(decoded_headers(p.headers)),
    }
}

impl Head {
    /// What the head says.
    pub open spec fn says(self, h: HeadSpec) -> bool {
        &&& self.method@ == h.method
        &&& self.path@ == h.path
        &&& pairs_of(self.headers@) == h.headers
        &&& self.content_length == h.content_length
    }
}

impl Request {
    /// Whether this is the request with head `h` and body `body`, cut to the declared length.
    pub open spec fn is_from(self, h: HeadSpec, body: Seq<u8>) -> bool {
        &&& self.method@ == h.method
        &&& self.path@ == h.path
        &&& pairs_of(self.headers@) == h.headers
        &&& self.body@ == if body.len() <= h.content_length {
            body
        } else {
            body.take(h.content_length as int)
        }
    }
}

/// The outcome of a body that has grown to `body`, with nothing more to come when `ended`.
pub open spec fn body_step(h: HeadSpec, body: Seq<u8>, ended: bool, r: ReadStep) -> bool {
    if ended || body.len() >= h.content_length {
        r is Done && r->Done_0.is_from(h, body)
    } else {
        r is More
    }
}

/// The outcome of a buffer that has grown to `buf` before the end of the head
/// was known, when the parser makes `p` of it.
pub open spec fn head_step(buf: Seq<u8>, p: RequestView, r: ReadStep) -> bool {
    match p.status {
        StatusView::Invalid(m) => r is InvalidData && r->InvalidData_0@ == m,
        StatusView::Partial => if buf.len() > MAX_HEADER_BYTES {
            r is InvalidData && r->InvalidData_0@ == "headers exceed cap"@
        } else {
            r is More
        },
        StatusView::Complete(end) => if head_of(p).content_length > MAX_BODY_BYTES {
            r is InvalidData && r->InvalidData_0@ == "body exceeds cap"@
        } else {
            body_step(head_of(p), buf.skip(end as int), false, r)
        },
    }
}

fn decode_headers(p: &ParsedRequest) -> (r: (Vec<(String, String)>, usize))
    ensures
        pairs_of(r.0@) == decoded_headers(p@.headers),
        r.1 == content_length_in(decoded_headers(p@.headers)),
{
    let mut hs: Vec<(String, String)> = Vec::new();
    let mut cl: usize = 0;
    let ghost all = decoded_headers(p@.headers);
    assert(all.take(0) =~= Seq::empty());
    for i in 0..p.headers.len()
        invariant
            all == decoded_headers(p@.headers),
            hs@.len() == i,
            forall|j: int|
                0 <= j < i ==> (#[trigger] hs@[j]).0@ == all[j].0 && hs@[j].1@ == all[j].1,
            cl == content_length_in(all.take(i as int)),
    {
        let h = &p.headers[i];
        assert(p@.headers[i as int] == h@);
        let name = h.name.clone();
        let value = match utf8_text(h.value.as_slice()) {
            Some(t) => t.to_owned(),
            None => String::new(),
        };
        assert(value@ == all[i as int].1);
        proof {
            let t = all.take(i + 1);
            assert(t.drop_last() =~= all.take(i as int));
            assert(t.last() == all[i as int]);
        }
        if eq_ignore_ascii_case(name.as_str(), "content-length") {
            cl = match parse_uint(value.as_str(), usize::MAX as u64) {
                Some(n) => n as usize,
                None => 0,
            };
        }
        hs.push((name, value));
    }
    assert(all.take(all.len() as int) =~= all);
    assert(pairs_of(hs@) =~= all);
    (hs, cl)
}

fn or_empty_text(o: &Option<String>) -> (r: String)
    ensures
        r@ == or_empty(opt_view(*o)),
{
    match o {
        Some(t) => t.clone(),
        None => String::new(),
    }
}

impl RequestReader {
    pub fn new() -> (r: RequestReader)
        ensures
            r.buf@ == Seq::<u8>::empty(),
            r.head is None,
    {
        RequestReader { buf: Vec::new(), head: None }
    }

    /// Take in a chunk; an empty one is the end of the stream.
    ///
    /// Before the end of the head is known the buffer holds everything read,
    /// and after it the body.
    pub fn feed(&mut self, chunk: &[u8]) -> (r: ReadStep)
        requires
            old(self).buf@.len() + chunk@.len() <= usize::MAX,
        ensures
            old(self).head is None && chunk@.len() == 0 ==> {
                &&& r is UnexpectedEof
                &&& r->UnexpectedEof_0@ == "eof reading headers"@
            },
            old(self).head is None && chunk@.len() > 0 ==> {
                let buf = old(self).buf@ + chunk@;
                let p = http_request(buf, MAX_HEADERS as nat);
                &&& head_step(buf, p, r)
                &&& r is More ==> match p.status {
                    StatusView::Complete(end) => {
                        &&& final(self).head is Some
                        &&& final(self).head->0.says(head_of(p))
                        &&& final(self).buf@ == buf.skip(end as int)
                    },
                    _ => final(self).head is None && final(self).buf@ == buf,
                }
            },
            old(self).head is Some ==> forall|h: HeadSpec| #[trigger]
                old(self).head->0.says(h) ==> {
                    let body = old(self).buf@ + chunk@;
                    &&& body_step(h, body, chunk@.len() == 0, r)
                    &&& r is More ==> final(self).buf@ == body && final(self).head is Some
                        && final(self).head->0.says(h)
                },
    {
        let ghost old_buf = self.buf@;
        self.buf.extend_from_slice(chunk);
        assert(self.buf@ =~= old_buf + chunk@);
        if self.head.is_none() {
            if chunk.len() == 0 {
                return ReadStep::UnexpectedEof("eof reading headers");
            }
            let p = parse_request(self.buf.as_slice(), MAX_HEADERS);
            return self.take_head(&p);
        }
        self.finish(chunk.len() == 0)
    }

    /// Go on with what the parser made of the buffer.
    pub fn take_head(&mut self, p: &ParsedRequest) -> (r: ReadStep)
        requires
            old(self).head is None,
            p.status matches ParseStatus::Complete(n) ==> n <= old(self).buf@.len(),
        ensures
            head_step(old(self).buf@, p@, r),
            r is More ==> match p@.status {
                StatusView::Complete(end) => {
                    &&& final(self).head is Some
                    &&& final(self).head->0.says(head_of(p@))
                    &&& final(self).buf@ == old(self).buf@.skip(end as int)
                },
                _ => final(self).head is None && final(self).buf@ == old(self).buf@,
            },
    {
        match &p.status {
            ParseStatus::Invalid(m) => ReadStep::InvalidData(m.clone()),
            ParseStatus::Partial => if self.buf.len() > MAX_HEADER_BYTES {
                ReadStep::InvalidData("headers exceed cap".to_owned())
            } else {
                ReadStep::More
            },
            ParseStatus::Complete(end) => {
                let (headers, content_length) = decode_headers(p);
                if content_length > MAX_BODY_BYTES {
                    return ReadStep::InvalidData("body exceeds cap".to_owned());
                }
                let ghost whole = self.buf@;
                let rest = vstd::slice::slice_to_vec(
                    vstd::slice::slice_subrange(self.buf.as_slice(), *end, self.buf.len()),
                );
                assert(rest@ =~= whole.skip(*end as int));
                self.buf = rest;
                self.head = Some(
                    Head {
                        method: or_empty_text(&p.method),
                        path: or_empty_text(&p.path),
                        headers,
                        content_length,
                    },
                );
                assert(self.head->0.says(head_of(p@)));
                self.finish(false)
            },
        }
    }

    fn finish(&mut self, ended: bool) -> (r: ReadStep)
        requires
            old(self).head is Some,
        ensures
            forall|h: HeadSpec| #[trigger]
                old(self).head->0.says(h) ==> {
                    &&& body_step(h, old(self).buf@, ended, r)
                    &&& r is More ==> *final(self) == *old(self)
                },
    {
        let complete = match &self.head {
            Some(head) => ended || self.buf.len() >= head.content_length,
            None => false,
        };
        if !complete {
            return ReadStep::More;
        }
        let ghost body0 = self.buf@;
        let ghost head0 = self.head->0;
        let mut body: Vec<u8> = Vec::new();
        body.append(&mut self.buf);
        assert(body@ =~= body0);
        match self.head.take() {
            Some(head) => {
                assert(head == head0);
                body.truncate(head.content_length);
                assert(body@ == if body0.len() <= head.content_length {
                    body0
                } else {
                    body0.take(head.content_length as int)
                });
                ReadStep::Done(
                    Request { method: head.method, path: head.path, headers: head.headers, body },
                )
            },
            None => ReadStep::More,
        }
    }
}

/// The live session tokens, each as its hash with its deadline in nanoseconds
/// after the state was made.
pub struct AdminApiState {
    pub sessions: VecMap<SessionHash, u128>,
    pub session_ttl_secs: u64,
    pub origin: std::time::Instant,
}

/// The latest deadline of a session that starts at `now`.
pub open spec fn session_deadline(now: u128, ttl_secs: u64) -> nat {
    now as nat + ttl_secs as nat * 1_000_000_000
}

impl AdminApiState {
    /// No token is held twice.
    pub open spec fn wf(self) -> bool {
        self.sessions.wf()
    }

    /// Whether the token `presented` belongs to a session that is live at `now`.
    pub open spec fn is_live(self, presented: Seq<char>, now: u128) -> bool {
        self.sessions@.contains_key(token_hash(presented)) && self.sessions@[token_hash(presented)]
            > now
    }

    /// The state without the sessions that have ended at `now`.
    pub open spec fn pruned(self, post: AdminApiState, now: u128) -> bool {
        &&& post.wf()
        &&& post.sessions@ == after(self.sessions@, now)
        &&& post.session_ttl_secs == self.session_ttl_secs
        &&& post.origin == self.origin
    }

    /// A state without sessions.
    pub fn new(session_ttl_secs: u64) -> (r: AdminApiState)
        ensures
            r.wf(),
            r.sessions@ == Map::<Seq<u8>, u128>::empty(),
            r.session_ttl_secs == session_ttl_secs,
    {
        AdminApiState { sessions: VecMap::new(), session_ttl_secs, origin: instant_now() }
    }

    /// Mint a session token. Returns it, and the UNIX second at which it ends.
    pub fn mint_session(&mut self) -> (r: (String, u64))
        requires
            old(self).wf(),
        ensures
            final(self).wf(),
            exists|raw: Seq<u8>, now: u128, unix_now: u64|
                raw.len() == 32 && now <= max_nanos() && #[trigger] old(self).minted(*final(self), raw, now, unix_now, r),
    {
        let raw = random32();
        let now = nanos_since(&self.origin);
        let unix_now = unix_secs();
        let ghost bytes = raw@;
        assert(bytes.len() == 32);
        self.mint_session_at(&raw, now, unix_now)
    }

    /// What minting a session from the bytes `raw` at `now` returns and leaves behind.
    pub open spec fn minted(
        self,
        post: AdminApiState,
        raw: Seq<u8>,
        now: u128,
        unix_now: u64,
        r: (String, u64),
    ) -> bool {
        &&& r.0@ == crockford_text(raw)
        &&& r.1 == if unix_now + self.session_ttl_secs <= u64::MAX {
            (unix_now + self.session_ttl_secs) as u64
        } else {
            u64::MAX
        }
        &&& post.sessions@ == self.sessions@.insert(
            token_hash(r.0@),
            session_deadline(now, self.session_ttl_secs) as u128,
        )
        &&& post.session_ttl_secs == self.session_ttl_secs
        &&& post.origin == self.origin
    }

    /// Mint a session token from the bytes `raw` at `now`.
    pub fn mint_session_at(&mut self, raw: &[u8; 32], now: u128, unix_now: u64) -> (r: (String, u64))
        requires
            old(self).wf(),
            now <= max_nanos(),
        ensures
            final(self).wf(),
            old(self).minted(*final(self), raw@, now, unix_now, r),
    {
        let token = crockford_encode(raw);
        let hash = blake3_hash(token.as_str().as_bytes());
        let deadline: u128 = now + self.session_ttl_secs as u128 * 1_000_000_000;
        self.sessions.insert(SessionHash(hash), deadline);
        let expires_at_unix: u64 = unix_now.saturating_add(self.session_ttl_secs);
        (token, expires_at_unix)
    }

    /// Whether `presented` is the token of a live session. Ended sessions are dropped.
    pub fn check_session(&mut self, presented: &str) -> (r: bool)
        requires
            old(self).wf(),
        ensures
            exists|now: u128|
                now <= max_nanos() && r == old(self).is_live(presented@, now) && #[trigger] old(
                    self,
                ).pruned(
                    *final(self),
                    now,
                ),
    {
        let now = nanos_since(&self.origin);
        self.check_session_at(presented, now)
    }

    /// Whether `presented` is the token of a session that is live at `now`.
    pub fn check_session_at(&mut self, presented: &str, now: u128) -> (r: bool)
        requires
            old(self).wf(),
        ensures
            r == old(self).is_live(presented@, now),
            old(self).pruned(*final(self), now),
    {
        let candidate = SessionHash(blake3_hash(presented.as_bytes()));
        self.sessions.retain_after(now);
        // Every live hash is compared, whatever the outcome so far.
        let mut hit = false;
        for i in 0..self.sessions.items.len()
            invariant
                candidate@ == token_hash(presented@),
                hit == exists|j: int|
                    0 <= j < i && #[trigger] self.sessions.items@[j].0@ == candidate@,
        {
            let known = self.sessions.items[i].0.same(&candidate);
            if known {
                assert(self.sessions.items@[i as int].0@ == candidate@);
            }
            hit = known || hit;
        }
        proof {
            lemma_vec_map(self.sessions);
            assert(hit == self.sessions@.contains_key(candidate@));
        }
        hit
    }
}

/// What the router does with a request.
#[derive(Debug, Clone, PartialEq, Eq)]
pub enum AdminAction {
    /// Exchange the enrollment token in the body for a session.
    Session,
    /// Answer with an error.
    Refuse { code: u16, message: &'static str },
    ListTunnels,
    ListKeys,
    /// Append the line in the body.
    AppendKey,
    Metrics,
    /// Delete the key with this base64 text.
    DeleteKey { pubkey_b64: String },
}

/// What an [`AdminAction`] says.
pub enum ActionView {
    Session,
    Refuse { code: u16, message: Seq<char> },
    ListTunnels,
    ListKeys,
    AppendKey,
    Metrics,
    DeleteKey { pubkey_b64: Seq<char> },
}

impl View for AdminAction {
    type V = ActionView;

    open spec fn view(&self) -> ActionView {
        match *self {
            AdminAction::Session => ActionView::Session,
            AdminAction::Refuse { code, message } => ActionView::Refuse { code, message: message@ },
            AdminAction::ListTunnels => ActionView::ListTunnels,
            AdminAction::ListKeys => ActionView::ListKeys,
            AdminAction::AppendKey => ActionView::AppendKey,
            AdminAction::Metrics => ActionView::Metrics,
            AdminAction::DeleteKey { pubkey_b64 } => ActionView::DeleteKey {
                pubkey_b64: pubkey_b64@,
            },
        }
    }
}

/// Whether a request opens a session, which needs no session token.
pub open spec fn opens_session(method: Seq<char>, path: Seq<char>) -> bool {
    method == "POST"@ && path == "/admin/v1/session"@
}

/// The endpoint that an authenticated request is for.
pub open spec fn endpoint(method: Seq<char>, path: Seq<char>) -> ActionView {
    if method == "GET"@ && path == "/admin/v1/tunnels"@ {
        ActionView::ListTunnels
    } else if method == "GET"@ && path == "/admin/v1/keys"@ {
        ActionView::ListKeys
    } else if method == "POST"@ && path == "/admin/v1/keys"@ {
        ActionView::AppendKey
    } else if method == "GET"@ && path == "/admin/v1/metrics"@ {
        ActionView::Metrics
    } else if method == "DELETE"@ && has_prefix(path, "/admin/v1/keys/"@) {
        ActionView::DeleteKey { pubkey_b64: path.skip("/admin/v1/keys/"@.len() as int) }
    } else {
        ActionView::Refuse { code: 404, message: "no such route"@ }
    }
}

/// What the router does when `live` says whether the bearer token belongs to a live session.
pub open spec fn routed(method: Seq<char>, path: Seq<char>, auth: bool, live: bool) -> ActionView {
    if opens_session(method, path) {
        ActionView::Session
    } else if !auth {
        ActionView::Refuse { code: 401, message: "missing Authorization: Bearer"@ }
    } else if !live {
        ActionView::Refuse { code: 401, message: "invalid or expired session token"@ }
    } else {
        endpoint(method, path)
    }
}

/// Whether the router counts a failed authentication.
pub open spec fn auth_failed(method: Seq<char>, path: Seq<char>, auth: bool, live: bool) -> bool {
    !opens_session(method, path) && !(auth && live)
}

fn find_endpoint(method: &str, path: &str) -> (r: AdminAction)
    ensures
        r@ == endpoint(method@, path@),
{
    if same_str(method, "GET") && same_str(path, "/admin/v1/tunnels") {
        return AdminAction::ListTunnels;
    }
    if same_str(method, "GET") && same_str(path, "/admin/v1/keys") {
        return AdminAction::ListKeys;
    }
    if same_str(method, "POST") && same_str(path, "/admin/v1/keys") {
        return AdminAction::AppendKey;
    }
    if same_str(method, "GET") && same_str(path, "/admin/v1/metrics") {
        return AdminAction::Metrics;
    }
    if same_str(method, "DELETE") {
        if let Some(pubkey_b64) = strip_prefix(path, "/admin/v1/keys/") {
            return AdminAction::DeleteKey { pubkey_b64 };
        }
    }
    AdminAction::Refuse { code: 404, message: "no such route" }
}

impl AdminApiState {
    /// Decide what to do with a request, given the bearer token it carries.
    pub fn route(&mut self, req: &Request, auth: Option<&str>, metrics: &mut ServerMetrics) -> (r:
        AdminAction)
        requires
            old(self).wf(),
        ensures
            final(self).wf(),
            exists|now: u128|
                now <= max_nanos() && #[trigger] old(self).route_spec(
                    *final(self),
                    *req,
                    auth,
                    *old(metrics),
                    *final(metrics),
                    now,
                    r,
                ),
    {
        let now = nanos_since(&self.origin);
        self.route_at(req, auth, metrics, now)
    }

    /// What routing a request at `now` returns and leaves behind.
    pub open spec fn route_spec(
        self,
        post: AdminApiState,
        req: Request,
        auth: Option<&str>,
        before: ServerMetrics,
        counted: ServerMetrics,
        now: u128,
        r: AdminAction,
    ) -> bool {
        let live = auth is Some && self.is_live(auth->0@, now);
        &&& r@ == routed(req.method@, req.path@, auth is Some, live)
        &&& counted == if auth_failed(req.method@, req.path@, auth is Some, live) {
            ServerMetrics {
                admin_api_auth_failed: before.admin_api_auth_failed.wrapping_add(1),
                ..before
            }
        } else {
            before
        }
        &&& if opens_session(req.method@, req.path@) || auth is None {
            post == self
        } else {
            self.pruned(post, now)
        }
    }

    /// Decide what to do with a request at `now`.
    pub fn route_at(
        &mut self,
        req: &Request,
        auth: Option<&str>,
        metrics: &mut ServerMetrics,
        now: u128,
    ) -> (r: AdminAction)
        requires
            old(self).wf(),
        ensures
            final(self).wf(),
            old(self).route_spec(*final(self), *req, auth, *old(metrics), *final(metrics), now, r),
    {
        if same_str(req.method.as_str(), "POST") && same_str(req.path.as_str(), "/admin/v1/session") {
            return AdminAction::Session;
        }
        let token = match auth {
            Some(token) => token,
            None => {
                metrics.admin_api_auth_failed = metrics.admin_api_auth_failed.wrapping_add(1);
                return AdminAction::Refuse { code: 401, message: "missing Authorization: Bearer" };
            },
        };
        if !self.check_session_at(token, now) {
            metrics.admin_api_auth_failed = metrics.admin_api_auth_failed.wrapping_add(1);
            return AdminAction::Refuse { code: 401, message: "invalid or expired session token" };
        }
        find_endpoint(req.method.as_str(), req.path.as_str())
    }
}

/// A token is live from its minting until its deadline, and not after; minting
/// it leaves every other session as it was.
pub proof fn law_minted_session_is_live(
    pre: AdminApiState,
    post: AdminApiState,
    raw: Seq<u8>,
    now: u128,
    unix_now: u64,
    r: (String, u64),
    t: u128,
    other: Seq<char>,
)
    requires
        now <= max_nanos(),
        pre.minted(post, raw, now, unix_now, r),
        token_hash(other) != token_hash(r.0@),
    ensures
        post.is_live(r.0@, t) <==> t < session_deadline(now, pre.session_ttl_secs),
        post.is_live(other, t) == pre.is_live(other, t),
{
}

/// Only a live session reaches an endpoint; the one request that needs none is
/// the one that opens a session.
pub proof fn law_endpoints_need_a_session(
    pre: AdminApiState,
    post: AdminApiState,
    req: Request,
    auth: Option<&str>,
    before: ServerMetrics,
    counted: ServerMetrics,
    now: u128,
    r: AdminAction,
)
    requires
        pre.route_spec(post, req, auth, before, counted, now, r),
    ensures
        r is ListTunnels || r is ListKeys || r is AppendKey || r is Metrics || r is DeleteKey ==> auth is Some
            && pre.is_live(auth->0@, now),
        r is Session <==> opens_session(req.method@, req.path@),
{
}

/// Dropping the sessions that have ended changes no later verdict.
pub proof fn law_pruning_changes_no_verdict(
    pre: AdminApiState,
    post: AdminApiState,
    now: u128,
    token: Seq<char>,
    t: u128,
)
    requires
        pre.pruned(post, now),
        now <= t,
    ensures
        post.is_live(token, t) == pre.is_live(token, t),
{
}

} // verus!
