//! The endpoints of the admin API: what each of them decides and answers.

use crate::clock::{max_nanos, nanos_since, unix_secs};
use crate::codec::{base64_bytes, base64_decode, base64_encode, base64_text, json_member, json_object, random32};
use crate::proto::ids::{PubKey, SessionId, TunnelId};
use crate::server::admin::AdminTokenStore;
use crate::server::admin_api::AdminApiState;
use crate::server::error::ServerError;
use crate::server::keys::{array32, entry_spec, ports_view, with_line, EntryView, KeyRegistry, PendingEntry};
use crate::server::metrics::ServerMetrics;
use crate::server::rate::{bytes_spec, digits_len, period_spec, rate_spec, unit_spec, Period, RatePer};
use crate::text::{
    dec, is_digit_spec, is_space_spec, last_at, lemma_dec_roundtrip, lemma_last_at, opt_view, push_u64, trim_end_spec,
    trim_spec, trim_start_spec, uint_spec, views,
};
use vstd::prelude::*;
use vstd::string::*;
use vstd::utf8::encode_utf8;

verus! {

/// What an endpoint answers.
#[derive(Debug, Clone, PartialEq, Eq)]
pub enum AdminReply {
    Error { code: u16, message: String },
    Session { session_token: String, expires_at_unix: u64 },
    Appended { line: String },
    NoContent,
    Text { text: String },
}

impl AdminReply {
    /// Whether this is the error with this code and message.
    pub open spec fn is_error(self, code: u16, message: Seq<char>) -> bool {
        self matches AdminReply::Error { code: c, message: m } && c == code && m@ == message
    }

    fn error(code: u16, message: &str) -> (r: AdminReply)
        ensures
            r.is_error(code, message@),
    {
        AdminReply::Error { code, message: message.to_owned() }
    }
}

/// The status line of a code.
pub open spec fn status_text(code: u16) -> Seq<char> {
    if code == 200 {
        "200 OK"@
    } else if code == 204 {
        "204 No Content"@
    } else if code == 400 {
        "400 Bad Request"@
    } else if code == 401 {
        "401 Unauthorized"@
    } else if code == 404 {
        "404 Not Found"@
    } else {
        "500 Internal Server Error"@
    }
}

/// The status line of a code; any code that is not used here is an internal error.
pub fn status_line(code: u16) -> (r: &'static str)
    ensures
        r@ == status_text(code),
{
    match code {
        200 => "200 OK",
        204 => "204 No Content",
        400 => "400 Bad Request",
        401 => "401 Unauthorized",
        404 => "404 Not Found",
        _ => "500 Internal Server Error",
    }
}

/// The status and body of a reply; none for a session, whose body is a record.
pub open spec fn rendered(reply: AdminReply) -> Option<(Seq<char>, Seq<u8>)> {
    match reply {
        AdminReply::Error { code, message } => Some(
            (status_text(code), json_member("error"@, message@)),
        ),
        AdminReply::Session { .. } => None,
        AdminReply::Appended { line } => Some(("200 OK"@, json_member("appended"@, line@))),
        AdminReply::NoContent => Some(("204 No Content"@, Seq::empty())),
        AdminReply::Text { text } => Some(("200 OK"@, encode_utf8(text@))),
    }
}

/// The status and body of a reply; none for a session, whose body is a record.
pub fn render(reply: &AdminReply) -> (r: Option<(&'static str, Vec<u8>)>)
    ensures
        match r {
            Some((status, body)) => rendered(*reply) == Some((status@, body@)),
            None => rendered(*reply) is None,
        },
{
    match reply {
        AdminReply::Error { code, message } => Some(
            (status_line(*code), json_object("error", message.as_str())),
        ),
        AdminReply::Session { .. } => None,
        AdminReply::Appended { line } => Some(("200 OK", json_object("appended", line.as_str()))),
        AdminReply::NoContent => Some(("204 No Content", Vec::new())),
        AdminReply::Text { text } => Some(("200 OK", text.as_str().as_bytes_vec())),
    }
}

/// A response: its head, then its body.
pub open spec fn response_spec(status: Seq<char>, body: Seq<u8>) -> Seq<u8> {
    encode_utf8(
        "HTTP/1.1 "@ + status + "\r\nContent-Type: application/json\r\nContent-Length: "@ + dec(
            body.len(),
        ) + "\r\nConnection: close\r\n\r\n"@,
    ) + body
}

/// A response: its head, then its body.
pub fn response(status: &str, body: &[u8]) -> (r: Vec<u8>)
    ensures
        r@ == response_spec(status@, body@),
{
    let mut head = "HTTP/1.1 ".to_owned();
    head.append(status);
    head.append("\r\nContent-Type: application/json\r\nContent-Length: ");
    push_u64(&mut head, body.len() as u64);
    head.append("\r\nConnection: close\r\n\r\n");
    let mut out = head.as_str().as_bytes_vec();
    out.extend_from_slice(body);
    assert(out@ =~= response_spec(status@, body@));
    out
}

/// What exchanging the token in a body for a session returns and leaves
/// behind: `consumed` is what became of the token.
pub open spec fn session_exchanged(
    pre: AdminApiState,
    post: AdminApiState,
    consumed: Result<(), ServerError>,
    before: ServerMetrics,
    counted: ServerMetrics,
    raw: Seq<u8>,
    now: u128,
    unix_now: u64,
    r: AdminReply,
) -> bool {
    match consumed {
        Err(_) => {
            &&& r.is_error(401, "admin token rejected"@)
            &&& post == pre
            &&& counted == ServerMetrics {
                admin_api_session_rejected: before.admin_api_session_rejected.wrapping_add(1),
                ..before
            }
        },
        Ok(_) => {
            &&& r is Session
            &&& pre.minted(
                post,
                raw,
                now,
                unix_now,
                (r->Session_session_token, r->Session_expires_at_unix),
            )
            &&& counted == ServerMetrics {
                admin_api_session_minted: before.admin_api_session_minted.wrapping_add(1),
                ..before
            }
        },
    }
}

/// Exchange the enrollment token in a body for a session. `admin_token` is
/// `None` when the body is not of the expected form.
pub fn handle_session(
    state: &mut AdminApiState,
    admin_token: Option<&str>,
    tokens: &mut AdminTokenStore,
    metrics: &mut ServerMetrics,
) -> (r: AdminReply)
    requires
        old(state).wf(),
    ensures
        final(state).wf(),
        admin_token is None ==> {
            &&& r.is_error(400, "expected {\"admin_token\": \"...\"}"@)
            &&& *final(state) == *old(state)
            &&& *final(tokens) == *old(tokens)
            &&& *final(metrics) == *old(metrics)
        },
        admin_token is Some ==> exists|consumed: Result<(), ServerError>, token_now: u128, raw: Seq<u8>, now: u128, unix_now: u64| {
            &&& #[trigger] old(tokens).consumed(*final(tokens), admin_token->0@, token_now, consumed)
            &&& token_now <= max_nanos()
            &&& now <= max_nanos()
            &&& raw.len() == 32
            &&& #[trigger] session_exchanged(
                *old(state),
                *final(state),
                consumed,
                *old(metrics),
                *final(metrics),
                raw,
                now,
                unix_now,
                r,
            )
        },
{
    let token = match admin_token {
        Some(token) => token,
        None => return AdminReply::error(400, "expected {\"admin_token\": \"...\"}"),
    };
    let consumed = tokens.consume(token);
    let raw = random32();
    let now = nanos_since(&state.origin);
    let unix_now = unix_secs();
    let ghost bytes = raw@;
    assert(bytes.len() == 32);
    let r = finish_session(state, &consumed, metrics, &raw, now, unix_now);
    r
}

/// Answer an exchange once it is known what became of the token.
pub fn finish_session(
    state: &mut AdminApiState,
    consumed: &Result<(), ServerError>,
    metrics: &mut ServerMetrics,
    raw: &[u8; 32],
    now: u128,
    unix_now: u64,
) -> (r: AdminReply)
    requires
        old(state).wf(),
        now <= max_nanos(),
    ensures
        final(state).wf(),
        session_exchanged(
            *old(state),
            *final(state),
            *consumed,
            *old(metrics),
            *final(metrics),
            raw@,
            now,
            unix_now,
            r,
        ),
{
    match consumed {
        Err(_) => {
            metrics.admin_api_session_rejected = metrics.admin_api_session_rejected.wrapping_add(1);
            AdminReply::error(401, "admin token rejected")
        },
        Ok(_) => {
            metrics.admin_api_session_minted = metrics.admin_api_session_minted.wrapping_add(1);
            let (session_token, expires_at_unix) = state.mint_session_at(raw, now, unix_now);
            AdminReply::Session { session_token, expires_at_unix }
        },
    }
}

/// Accept the line in a body for appending, or answer why not. `line` is
/// `None` when the body is not of the expected form.
pub fn plan_append(keys: &KeyRegistry, line: Option<&str>, contents: &str) -> (r: Result<
    PendingEntry,
    AdminReply,
>)
    ensures
        match line {
            None => r is Err && r->Err_0.is_error(400, "expected {\"line\": \"...\"}"@),
            Some(l) => match entry_spec(l@) {
                Some((key, entry)) => {
                    &&& r is Ok
                    &&& r->Ok_0.pubkey@ == key
                    &&& r->Ok_0.entry@ == entry
                    &&& r->Ok_0.contents@ == with_line(contents@, l@)
                    &&& r->Ok_0.line@ == trim_end_spec(l@)
                },
                None => r is Err && r->Err_0.is_error(
                    400,
                    "append_line: "@ + ("authorized_keys: "@ + ("cannot parse: "@ + l@)),
                ),
            },
        },
{
    let l = match line {
        None => return Err(AdminReply::error(400, "expected {\"line\": \"...\"}")),
        Some(l) => l,
    };
    match keys.append_line(contents, l) {
        Ok(p) => Ok(p),
        Err(e) => Err(
            AdminReply::error(400, "append_line: ".to_owned().concat(e.to_text().as_str()).as_str()),
        ),
    }
}

/// Answer an append once its file is written, or has failed to be.
pub fn finish_append(
    keys: &mut KeyRegistry,
    pending: PendingEntry,
    written: Result<(), ServerError>,
    metrics: &mut ServerMetrics,
) -> (r: AdminReply)
    requires
        old(keys).wf(),
    ensures
        final(keys).wf(),
        match written {
            Ok(_) => {
                &&& r matches AdminReply::Appended { line } && line@ == pending.line@
                &&& old(keys).inserted(*final(keys), pending.pubkey@, pending.entry@)
                &&& *final(metrics) == ServerMetrics {
                    admin_api_key_appended: old(metrics).admin_api_key_appended.wrapping_add(1),
                    ..*old(metrics)
                }
            },
            Err(e) => {
                &&& r.is_error(400, "append_line: "@ + e.text())
                &&& *final(keys) == *old(keys)
                &&& *final(metrics) == *old(metrics)
            },
        },
{
    match written {
        Ok(_) => {
            let line = keys.insert(pending);
            metrics.admin_api_key_appended = metrics.admin_api_key_appended.wrapping_add(1);
            AdminReply::Appended { line }
        },
        Err(e) => AdminReply::error(
            400,
            "append_line: ".to_owned().concat(e.to_text().as_str()).as_str(),
        ),
    }
}

/// The key that a base64 text in a path names, or the answer why there is none.
pub fn plan_delete(pubkey_b64: &str) -> (r: Result<PubKey, AdminReply>)
    ensures
        match base64_bytes(pubkey_b64@) {
            Err(_) => r is Err && r->Err_0.is_error(400, "pubkey is not standard base64"@),
            Ok(raw) => if raw.len() == 32 {
                r is Ok && r->Ok_0@ == raw
            } else {
                r is Err && r->Err_0.is_error(400, "pubkey must be 32 bytes"@)
            },
        },
{
    let raw = match base64_decode(pubkey_b64) {
        Ok(raw) => raw,
        Err(_) => return Err(AdminReply::error(400, "pubkey is not standard base64")),
    };
    match array32(&raw) {
        Some(key) => Ok(PubKey(key)),
        None => Err(AdminReply::error(400, "pubkey must be 32 bytes")),
    }
}

/// Answer a deletion: whether an entry was removed, or what went wrong.
pub fn finish_delete(outcome: Result<bool, ServerError>, metrics: &mut ServerMetrics) -> (r:
    AdminReply)
    ensures
        match outcome {
            Ok(true) => {
                &&& r is NoContent
                &&& *final(metrics) == ServerMetrics {
                    admin_api_key_removed: old(metrics).admin_api_key_removed.wrapping_add(1),
                    ..*old(metrics)
                }
            },
            Ok(false) => {
                &&& r.is_error(404, "no such key"@)
                &&& *final(metrics) == ServerMetrics {
                    admin_api_key_remove_not_found: old(
                        metrics,
                    ).admin_api_key_remove_not_found.wrapping_add(1),
                    ..*old(metrics)
                }
            },
            Err(e) => {
                &&& r.is_error(500, "remove_pubkey: "@ + e.text())
                &&& *final(metrics) == *old(metrics)
            },
        },
{
    match outcome {
        Ok(removed) => if removed {
            metrics.admin_api_key_removed = metrics.admin_api_key_removed.wrapping_add(1);
            AdminReply::NoContent
        } else {
            metrics.admin_api_key_remove_not_found =
            metrics.admin_api_key_remove_not_found.wrapping_add(1);
            AdminReply::error(404, "no such key")
        },
        Err(e) => AdminReply::error(
            500,
            "remove_pubkey: ".to_owned().concat(e.to_text().as_str()).as_str(),
        ),
    }
}

/// A registered tunnel, as the registry shows it.
#[derive(Debug, Clone, PartialEq, Eq)]
pub struct TunnelSnapshot {
    pub tunnel_id: TunnelId,
    pub owner: PubKey,
    pub session_id: SessionId,
    pub live: bool,
    pub inspect: bool,
    pub kind: TunnelSnapshotKind,
}

/// Where a tunnel is reached.
#[derive(Debug, Clone, PartialEq, Eq)]
pub enum TunnelSnapshotKind {
    Http { label: String },
    Tcp { public_port: u16 },
}

/// A tunnel as the API lists it.
#[derive(Debug, Clone, PartialEq, Eq)]
pub struct TunnelDto {
    pub tunnel_id: u64,
    pub owner_pubkey_b64: String,
    pub session_id_b64: String,
    pub state: &'static str,
    pub inspect: bool,
    pub kind: &'static str,
    pub label: Option<String>,
    pub public_port: Option<u16>,
}

impl TunnelDto {
    /// Whether this lists the tunnel `t`.
    pub open spec fn lists(self, t: TunnelSnapshot) -> bool {
        &&& self.tunnel_id == t.tunnel_id.0
        &&& self.owner_pubkey_b64@ == base64_text(t.owner.0@)
        &&& self.session_id_b64@ == base64_text(t.session_id.0@)
        &&& self.state@ == if t.live {
            "live"@
        } else {
            "dangling"@
        }
        &&& self.inspect == t.inspect
        &&& match t.kind {
            TunnelSnapshotKind::Http { label } => {
                &&& self.kind@ == "http"@
                &&& opt_view(self.label) == Some(label@)
                &&& self.public_port is None
            },
            TunnelSnapshotKind::Tcp { public_port } => {
                &&& self.kind@ == "tcp"@
                &&& self.label is None
                &&& self.public_port == Some(public_port)
            },
        }
    }
}

/// A tunnel as the API lists it.
pub fn dto_of(t: &TunnelSnapshot) -> (r: TunnelDto)
    ensures
        r.lists(*t),
{
    let (kind, label, public_port) = match &t.kind {
        TunnelSnapshotKind::Http { label } => ("http", Some(label.clone()), None),
        TunnelSnapshotKind::Tcp { public_port } => ("tcp", None, Some(*public_port)),
    };
    TunnelDto {
        tunnel_id: t.tunnel_id.0,
        owner_pubkey_b64: base64_encode(t.owner.0.as_slice()),
        session_id_b64: base64_encode(t.session_id.0.as_slice()),
        state: if t.live {
            "live"
        } else {
            "dangling"
        },
        inspect: t.inspect,
        kind,
        label,
        public_port,
    }
}

/// The tunnels as the API lists them, in order.
pub fn handle_list_tunnels(snapshot: &Vec<TunnelSnapshot>) -> (r: Vec<TunnelDto>)
    ensures
        r@.len() == snapshot@.len(),
        forall|i: int| 0 <= i < r@.len() ==> (#[trigger] r@[i]).lists(snapshot@[i]),
{
    let mut out: Vec<TunnelDto> = Vec::new();
    for i in 0..snapshot.len()
        invariant
            out@.len() == i,
            forall|j: int| 0 <= j < i ==> (#[trigger] out@[j]).lists(snapshot@[j]),
    {
        out.push(dto_of(&snapshot[i]));
    }
    out
}

/// The word for a period.
pub open spec fn period_word(p: Period) -> Seq<char> {
    match p {
        Period::Second => "s"@,
        Period::Minute => "m"@,
        Period::Hour => "h"@,
        Period::Day => "day"@,
        Period::Week => "week"@,
        Period::Month => "month"@,
    }
}

/// How a rate is shown.
pub open spec fn rate_text(r: RatePer) -> Seq<char> {
    dec(r.bytes as nat) + "B/"@ + period_word(r.period)
}

/// How a rate is shown: in bytes per period.
pub fn format_rate(r: RatePer) -> (s: String)
    ensures
        s@ == rate_text(r),
{
    let word = match r.period {
        Period::Second => "s",
        Period::Minute => "m",
        Period::Hour => "h",
        Period::Day => "day",
        Period::Week => "week",
        Period::Month => "month",
    };
    let mut out = String::new();
    push_u64(&mut out, r.bytes);
    assert(out@ =~= dec(r.bytes as nat));
    out.append("B/");
    out.append(word);
    out
}

fn format_rate_opt(r: &Option<RatePer>) -> (s: Option<String>)
    ensures
        opt_view(s) == match *r {
            Some(rate) => Some(rate_text(rate)),
            None => None,
        },
{
    match r {
        Some(rate) => Some(format_rate(*rate)),
        None => None,
    }
}

/// A key as the API lists it.
#[derive(Debug, Clone, PartialEq, Eq)]
pub struct KeyDto {
    pub pubkey_b64: String,
    pub allow_any_subdomain: bool,
    pub allowed_subdomains: Vec<String>,
    pub max_conns: Option<u32>,
    pub allowed_ports: Option<Vec<u16>>,
    pub bw: Option<String>,
    pub quota: Option<String>,
    pub comment: Option<String>,
}

impl KeyDto {
    /// Whether this lists the key `key` with the entry `e`.
    pub open spec fn lists(self, key: Seq<u8>, e: EntryView) -> bool {
        &&& self.pubkey_b64@ == base64_text(key)
        &&& self.allow_any_subdomain == e.allow_any_subdomain
        &&& views(self.allowed_subdomains@) == e.allowed_subdomains
        &&& self.max_conns == e.max_conns
        &&& ports_view(self.allowed_ports) == e.allowed_ports
        &&& opt_view(self.bw) == match e.bw {
            Some(rate) => Some(rate_text(rate)),
            None => None,
        }
        &&& opt_view(self.quota) == match e.quota {
            Some(rate) => Some(rate_text(rate)),
            None => None,
        }
        &&& opt_view(self.comment) == e.comment
    }
}

/// Every authorized key, once.
pub fn handle_list_keys(keys: &KeyRegistry) -> (r: Vec<KeyDto>)
    requires
        keys.wf(),
    ensures
        r@.len() == keys@.len(),
        forall|i: int|
            0 <= i < r@.len() ==> keys@.contains_key((#[trigger] keys.entries.items@[i]).0@)
                && r@[i].lists(keys.entries.items@[i].0@, keys@[keys.entries.items@[i].0@]),
{
    proof {
        crate::vec_map::lemma_vec_map(keys.entries);
    }
    let n = keys.entries.len();
    let mut out: Vec<KeyDto> = Vec::new();
    for i in 0..n
        invariant
            keys.wf(),
            n == keys.entries.items@.len(),
            out@.len() == i,
            forall|j: int|
                0 <= j < i ==> out@[j].lists(
                    (#[trigger] keys.entries.items@[j]).0@,
                    keys.entries.items@[j].1@,
                ),
    {
        let (key, entry) = &keys.entries.items[i];
        let e = entry.copy();
        let dto = KeyDto {
            pubkey_b64: base64_encode(key.0.as_slice()),
            allow_any_subdomain: e.allow_any_subdomain,
            allowed_subdomains: e.allowed_subdomains,
            max_conns: e.max_conns,
            allowed_ports: e.allowed_ports,
            bw: format_rate_opt(&e.bw),
            quota: format_rate_opt(&e.quota),
            comment: e.comment,
        };
        assert(dto.lists(key@, entry@));
        out.push(dto);
    }
    proof {
        crate::vec_map::lemma_vec_map(keys.entries);
    }
    out
}

/// How many of the tunnels have this liveness.
pub open spec fn count_live(ts: Seq<TunnelSnapshot>, live: bool) -> nat
    decreases ts.len(),
{
    if ts.len() == 0 {
        0
    } else {
        count_live(ts.drop_last(), live) + if ts.last().live == live {
            1nat
        } else {
            0nat
        }
    }
}

/// The byte counts of a scrape: each identity's key in base64, with its count.
pub open spec fn lists_bytes(r: Seq<(String, u64)>, used: Seq<(PubKey, u64)>) -> bool {
    &&& r.len() == used.len()
    &&& forall|i: int|
        0 <= i < r.len() ==> (#[trigger] r[i]).0@ == base64_text(used[i].0.0@) && r[i].1 == used[i].1
}

/// The scrape: gauges from the registry's tunnels, counters, and the bytes
/// counted for each identity.
pub fn handle_metrics(
    snapshot: &Vec<TunnelSnapshot>,
    used: &Vec<(PubKey, u64)>,
    metrics: &ServerMetrics,
) -> (r: AdminReply)
    ensures
        r is Text,
        exists|now: u64, bytes: Seq<(String, u64)>| {
            &&& lists_bytes(bytes, used@)
            &&& r->Text_text@ == #[trigger] metrics.exposition(
                now,
                count_live(snapshot@, true) as usize,
                count_live(snapshot@, false) as usize,
                bytes,
            )
        },
{
    let mut live: usize = 0;
    let mut dangling: usize = 0;
    assert(snapshot@.take(0) =~= Seq::empty());
    for i in 0..snapshot.len()
        invariant
            live == count_live(snapshot@.take(i as int), true),
            dangling == count_live(snapshot@.take(i as int), false),
            live + dangling == i,
    {
        assert(snapshot@.take(i + 1).drop_last() =~= snapshot@.take(i as int));
        if snapshot[i].live {
            live += 1;
        } else {
            dangling += 1;
        }
    }
    assert(snapshot@.take(snapshot@.len() as int) =~= snapshot@);
    let mut bytes: Vec<(String, u64)> = Vec::new();
    for i in 0..used.len()
        invariant
            bytes@.len() == i,
            forall|j: int|
                0 <= j < i ==> (#[trigger] bytes@[j]).0@ == base64_text(used@[j].0.0@) && bytes@[j].1
                    == used@[j].1,
    {
        let (key, n) = &used[i];
        bytes.push((base64_encode(key.0.as_slice()), *n));
    }
    assert(lists_bytes(bytes@, used@));
    let text = metrics.to_prometheus_text(live, dangling, bytes.as_slice());
    proof {
        let now = choose|now: u64| text@ == #[trigger] metrics.exposition(now, live, dangling, bytes@);
        assert(live == count_live(snapshot@, true) && dangling == count_live(snapshot@, false));
        assert(text@ == metrics.exposition(
            now,
            count_live(snapshot@, true) as usize,
            count_live(snapshot@, false) as usize,
            bytes@,
        ));
    }
    AdminReply::Text { text }
}

proof fn lemma_digits_then(d: Seq<char>, rest: Seq<char>)
    requires
        forall|i: int| 0 <= i < d.len() ==> is_digit_spec(#[trigger] d[i]),
        rest.len() > 0 && !is_digit_spec(rest[0]),
    ensures
        digits_len(d + rest) == d.len(),
    decreases d.len(),
{
    if d.len() == 0 {
        assert(d + rest =~= rest);
    } else {
        assert(is_digit_spec(d[0]));
        assert((d + rest).drop_first() =~= d.drop_first() + rest);
        assert forall|i: int| 0 <= i < d.drop_first().len() implies is_digit_spec(
            #[trigger] d.drop_first()[i],
        ) by {
            assert(d.drop_first()[i] == d[i + 1]);
        }
        lemma_digits_then(d.drop_first(), rest);
    }
}

proof fn lemma_period_word(p: Period)
    ensures
        period_spec(trim_spec(period_word(p))) == Some(p),
        period_word(p).len() > 0,
        forall|i: int| 0 <= i < period_word(p).len() ==> #[trigger] period_word(p)[i] != '/',
{
    reveal_strlit("s");
    reveal_strlit("sec");
    reveal_strlit("second");
    reveal_strlit("m");
    reveal_strlit("min");
    reveal_strlit("minute");
    reveal_strlit("h");
    reveal_strlit("hr");
    reveal_strlit("hour");
    reveal_strlit("d");
    reveal_strlit("day");
    reveal_strlit("w");
    reveal_strlit("week");
    reveal_strlit("month");
    let w = period_word(p);
    assert(trim_start_spec(w) == w);
    assert(trim_end_spec(w) == w);
}

/// A rate that is shown reads back as the same rate.
pub proof fn law_rate_text_reads_back(r: RatePer)
    ensures
        rate_spec(rate_text(r)) == Some(r),
{
    let d = dec(r.bytes as nat);
    let w = period_word(r.period);
    let s = rate_text(r);
    lemma_dec_roundtrip(r.bytes as nat);
    lemma_period_word(r.period);
    reveal_strlit("B/");
    reveal_strlit("B");
    let amount = d.push('B');
    assert("B/"@ =~= seq!['B', '/']);
    assert(s =~= amount.push('/') + w);
    lemma_last_at(s, '/');
    assert(last_at(s, '/') == amount.len()) by {
        let k = last_at(s, '/');
        assert(s[amount.len() as int] == '/');
        if k < amount.len() {
            assert(s[amount.len() as int] != '/');
        } else if k > amount.len() {
            assert(s[k] == w[k - amount.len() - 1]);
        }
    }
    assert(s.take(amount.len() as int) =~= amount);
    assert(s.skip(amount.len() as int + 1) =~= w);
    assert(is_digit_spec(d[0]));
    assert(!is_space_spec(amount[0])) by {
        assert(amount[0] == d[0]);
    }
    assert(trim_start_spec(amount) == amount);
    assert(trim_end_spec(amount) == amount);
    let unit = seq!['B'];
    assert(amount =~= d + unit);
    lemma_digits_then(d, unit);
    assert(amount.take(d.len() as int) =~= d);
    assert(amount.skip(d.len() as int) =~= unit);
    assert("B"@ =~= unit);
    assert(trim_start_spec(unit) == unit);
    assert(trim_end_spec(unit) == unit);
    assert(d[0] != '+');
    assert(uint_spec(d, u64::MAX as nat) == Some(r.bytes as nat));
    assert(unit_spec(unit) == Some(1u64));
    assert(trim_spec(amount.skip(d.len() as int)) == unit);
    let n = r.bytes as nat;
    let one = 1u64;
    assert(n * one == n) by (nonlinear_arith)
        requires
            one == 1,
    ;
    assert(bytes_spec(amount) == Some(r.bytes));
    assert(trim_spec(amount) == amount);
}

} // verus!
