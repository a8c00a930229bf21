//! What the admin API reads from a request, where it leads it and how long
//! tokens and sessions live.

use crate::http_parse::{HeaderView, RequestView};
use crate::server::admin::{admin_ttl_nanos, deadline_from};
use crate::server::admin_api::{
    auth_failed, bearer_in, bearer_of, body_step, content_length_in, decoded_headers, endpoint, head_of, head_step,
    opens_session, routed, session_deadline, ActionView, AdminApiState, HeadSpec, ReadStep,
};
use crate::server::admin_reply::{
    count_live, law_rate_text_reads_back, rendered, response_spec, session_exchanged, status_text, AdminReply, KeyDto,
    TunnelDto, TunnelSnapshot,
};
use crate::server::error::ServerError;
use crate::server::keys::EntryView;
use crate::server::metrics::ServerMetrics;
use crate::server::rate::rate_spec;
use crate::text::{all_space, dec, has_prefix, lower, strip_prefix_spec, uint_spec};
use crate::text_laws::{law_number_reads_back, law_strip, law_trim_keeps_tight, tight};
use vstd::prelude::*;
use vstd::utf8::{decode_utf8, encode_utf8, valid_utf8};

verus! {

/// Whether a header presents a token: it is named `authorization`, in any
/// case, and its value begins with the scheme, in one of two spellings.
pub open spec fn presents_token(h: (Seq<char>, Seq<char>)) -> bool {
    &&& lower(h.0) == "authorization"@
    &&& has_prefix(h.1, "Bearer "@) || has_prefix(h.1, "bearer "@)
}

proof fn lemma_lower_names()
    ensures
        lower("authorization"@) == "authorization"@,
        lower("content-length"@) == "content-length"@,
{
    reveal_strlit("authorization");
    reveal_strlit("content-length");
    assert(lower("authorization"@) =~= "authorization"@);
    assert(lower("content-length"@) =~= "content-length"@);
}

/// The token of a header is what follows the scheme, trimmed.
pub proof fn law_token_follows_the_scheme(a: Seq<char>, token: Seq<char>, b: Seq<char>)
    requires
        all_space(a),
        all_space(b),
        tight(token),
    ensures
        bearer_of("Bearer "@ + (a + token + b)) == Some(token),
        bearer_of("bearer "@ + (a + token + b)) == Some(token),
{
    reveal_strlit("Bearer ");
    reveal_strlit("bearer ");
    let t = a + token + b;
    law_trim_keeps_tight(a, token, b);
    law_strip("Bearer "@, t);
    law_strip("bearer "@, t);
    law_strip("Bearer "@, "bearer "@ + t);
    let s = "bearer "@ + t;
    if strip_prefix_spec(s, "Bearer "@) is Some {
        let rest = strip_prefix_spec(s, "Bearer "@)->0;
        assert(s == "Bearer "@ + rest);
        assert(s[0] == 'b');
        assert(("Bearer "@ + rest)[0] == 'B');
    }
}

/// The first header that presents a token counts, wherever it stands; where
/// none does, there is no token.
pub proof fn law_first_token_counts(hs: Seq<(Seq<char>, Seq<char>)>, i: int)
    requires
        0 <= i <= hs.len(),
        forall|j: int| 0 <= j < i ==> !presents_token(#[trigger] hs[j]),
    ensures
        i == hs.len() ==> bearer_in(hs) is None,
        i < hs.len() && presents_token(hs[i]) ==> bearer_in(hs) is Some && bearer_in(hs) == bearer_of(
            hs[i].1,
        ),
    decreases hs.len(),
{
    lemma_lower_names();
    if hs.len() > 0 {
        law_strip("Bearer "@, hs[0].1);
        law_strip("bearer "@, hs[0].1);
        if i > 0 {
            let rest = hs.skip(1);
            assert(!presents_token(hs[0]));
            assert forall|j: int| 0 <= j < i - 1 implies !presents_token(#[trigger] rest[j]) by {
                assert(rest[j] == hs[j + 1]);
            }
            law_first_token_counts(rest, i - 1);
            if i < hs.len() {
                assert(rest[i - 1] == hs[i]);
            }
        }
    }
}

/// Whether a header is named `content-length`, in any case.
pub open spec fn announces_length(h: (Seq<char>, Seq<char>)) -> bool {
    lower(h.0) == "content-length"@
}

/// The last header that announces a length counts, wherever it stands. One
/// that is no number announces none, and so does a request without one.
pub proof fn law_last_length_counts(hs: Seq<(Seq<char>, Seq<char>)>, i: int)
    requires
        -1 <= i < hs.len(),
        forall|j: int| i < j < hs.len() ==> !announces_length(#[trigger] hs[j]),
    ensures
        i == -1 ==> content_length_in(hs) == 0,
        i >= 0 && announces_length(hs[i]) ==> content_length_in(hs) == match uint_spec(
            hs[i].1,
            usize::MAX as nat,
        ) {
            Some(n) => n,
            None => 0,
        },
    decreases hs.len(),
{
    lemma_lower_names();
    if hs.len() > 0 && i < hs.len() - 1 {
        let front = hs.drop_last();
        assert(!announces_length(hs[hs.len() - 1]));
        assert forall|j: int| i < j < front.len() implies !announces_length(#[trigger] front[j]) by {
            assert(front[j] == hs[j]);
        }
        law_last_length_counts(front, i);
    }
}

/// A length that is written in digits is read.
pub proof fn law_written_length_is_read(hs: Seq<(Seq<char>, Seq<char>)>, name: Seq<char>, n: usize)
    requires
        lower(name) == "content-length"@,
    ensures
        content_length_in(hs.push((name, dec(n as nat)))) == n,
{
    let all = hs.push((name, dec(n as nat)));
    law_last_length_counts(all, hs.len() as int);
    law_number_reads_back(n as nat, usize::MAX as nat);
}

/// The headers of a request keep their names and order; a value that is no
/// UTF-8 is empty.
pub proof fn law_headers_are_decoded_in_order(hs: Seq<HeaderView>, i: int)
    requires
        0 <= i < hs.len(),
    ensures
        decoded_headers(hs).len() == hs.len(),
        decoded_headers(hs)[i].0 == hs[i].name,
        valid_utf8(hs[i].value) ==> decoded_headers(hs)[i].1 == decode_utf8(hs[i].value),
        !valid_utf8(hs[i].value) ==> decoded_headers(hs)[i].1.len() == 0,
{
}

/// A request is complete as soon as its body has the announced length, and
/// bytes behind that are not part of it. At the end of the stream it is
/// complete with what has come.
pub proof fn law_body_has_announced_length(
    h: HeadSpec,
    body: Seq<u8>,
    behind: Seq<u8>,
    ended: bool,
    r: ReadStep,
)
    ensures
        body.len() == h.content_length && body_step(h, body + behind, ended, r) ==> r is Done
            && r->Done_0.body@ == body && r->Done_0.method@ == h.method && r->Done_0.path@ == h.path,
        body.len() < h.content_length && body_step(h, body, false, r) ==> r is More,
        body.len() < h.content_length && body_step(h, body, true, r) ==> r is Done && r->Done_0.body@
            == body,
{
    assert((body + behind).take(body.len() as int) =~= body);
    if behind.len() == 0 {
        assert(body + behind =~= body);
    }
}

/// A head is waited for up to 8192 bytes, and one that announces a body of
/// more than 65536 bytes is refused.
pub proof fn law_request_sizes_are_capped(buf: Seq<u8>, p: RequestView, r: ReadStep)
    requires
        head_step(buf, p, r),
    ensures
        p.status is Partial ==> (r is More <==> buf.len() <= 8192),
        p.status is Partial && buf.len() > 8192 ==> r is InvalidData && r->InvalidData_0@
            == "headers exceed cap"@,
        p.status is Invalid ==> r is InvalidData && r->InvalidData_0@ == p.status->Invalid_0,
        p.status is Complete && content_length_in(decoded_headers(p.headers)) > 65536 ==> r is InvalidData
            && r->InvalidData_0@ == "body exceeds cap"@,
        p.status is Complete && content_length_in(decoded_headers(p.headers)) <= 65536 ==> !(r is InvalidData),
{
}

/// Each endpoint has one method and one path. A live session reaches exactly
/// these, and anything else is not found.
pub proof fn law_endpoints(method: Seq<char>, path: Seq<char>, b64: Seq<char>)
    ensures
        routed(method, path, true, true) is ListTunnels <==> method == "GET"@ && path
            == "/admin/v1/tunnels"@,
        routed(method, path, true, true) is ListKeys <==> method == "GET"@ && path
            == "/admin/v1/keys"@,
        routed(method, path, true, true) is AppendKey <==> method == "POST"@ && path
            == "/admin/v1/keys"@,
        routed(method, path, true, true) is Metrics <==> method == "GET"@ && path
            == "/admin/v1/metrics"@,
        routed(method, path, true, true) is Session <==> method == "POST"@ && path
            == "/admin/v1/session"@,
        routed("DELETE"@, "/admin/v1/keys/"@ + b64, true, true) == (ActionView::DeleteKey {
            pubkey_b64: b64,
        }),
        routed(method, path, true, true) is DeleteKey ==> method == "DELETE"@ && path
            == "/admin/v1/keys/"@ + routed(method, path, true, true)->DeleteKey_pubkey_b64,
        routed(method, path, true, true) is Refuse ==> routed(method, path, true, true) == (
        ActionView::Refuse { code: 404, message: "no such route"@ }),
{
    reveal_strlit("GET");
    reveal_strlit("POST");
    reveal_strlit("DELETE");
    reveal_strlit("/admin/v1/tunnels");
    reveal_strlit("/admin/v1/keys");
    reveal_strlit("/admin/v1/metrics");
    reveal_strlit("/admin/v1/session");
    reveal_strlit("/admin/v1/keys/");
    assert("GET"@.len() == 3 && "POST"@.len() == 4 && "DELETE"@.len() == 6);
    assert("/admin/v1/tunnels"@.len() == 17 && "/admin/v1/session"@.len() == 17);
    assert("/admin/v1/keys"@.len() == 14 && "/admin/v1/metrics"@.len() == 17);
    assert("/admin/v1/tunnels"@[10] == 't' && "/admin/v1/metrics"@[10] == 'm');
    let p = "/admin/v1/keys/"@;
    law_strip(p, b64);
    assert((p + b64).take(p.len() as int) =~= p);
    assert((p + b64).skip(p.len() as int) =~= b64);
    if has_prefix(path, p) {
        assert(path =~= p + path.skip(p.len() as int));
    }
}

/// Without a token, or with one that is not live, every request but the one
/// that opens a session is refused, and counted as refused; nothing else is.
pub proof fn law_refusals_are_counted(method: Seq<char>, path: Seq<char>, auth: bool, live: bool)
    ensures
        !auth && !opens_session(method, path) ==> routed(method, path, auth, live) == (
        ActionView::Refuse { code: 401, message: "missing Authorization: Bearer"@ }),
        auth && !live && !opens_session(method, path) ==> routed(method, path, auth, live) == (
        ActionView::Refuse { code: 401, message: "invalid or expired session token"@ }),
        opens_session(method, path) ==> routed(method, path, auth, live) is Session,
        auth_failed(method, path, auth, live) <==> (routed(method, path, auth, live) is Refuse
            && routed(method, path, auth, live)->code == 401),
{
    assert(endpoint(method, path) is Refuse ==> endpoint(method, path)->code == 404);
}

/// A session lasts its lifetime in seconds from its minting, by the clock of
/// the state, and the answer names the UNIX second of its end.
pub proof fn law_session_lasts_its_lifetime(
    pre: AdminApiState,
    post: AdminApiState,
    raw: Seq<u8>,
    now: u128,
    unix_now: u64,
    r: (String, u64),
    t: u128,
)
    requires
        now <= crate::clock::max_nanos(),
        pre.minted(post, raw, now, unix_now, r),
    ensures
        post.is_live(r.0@, t) <==> t < now + pre.session_ttl_secs * 1_000_000_000,
        unix_now + pre.session_ttl_secs <= u64::MAX ==> r.1 == unix_now + pre.session_ttl_secs,
        unix_now + pre.session_ttl_secs > u64::MAX ==> r.1 == u64::MAX,
{
    assert(session_deadline(now, pre.session_ttl_secs) <= u128::MAX);
}

/// An admin token lasts ten minutes.
pub proof fn law_admin_token_lasts_ten_minutes(now: u128)
    ensures
        deadline_from(now) == now + 10 * 60 * 1_000_000_000,
        admin_ttl_nanos() == 600_000_000_000,
{
}

/// Exchanging a token mints exactly one session when the token is good, and
/// none when it is not; each is counted in a counter of its own.
pub proof fn law_exchange(
    pre: AdminApiState,
    post: AdminApiState,
    consumed: Result<(), ServerError>,
    before: ServerMetrics,
    counted: ServerMetrics,
    raw: Seq<u8>,
    now: u128,
    unix_now: u64,
    r: AdminReply,
)
    requires
        now <= crate::clock::max_nanos(),
        session_exchanged(pre, post, consumed, before, counted, raw, now, unix_now, r),
    ensures
        consumed is Ok <==> r is Session,
        consumed is Err ==> r.is_error(401, "admin token rejected"@) && post == pre,
        consumed is Ok && pre.session_ttl_secs > 0 ==> post.is_live(r->Session_session_token@, now),
        consumed is Ok ==> counted.admin_api_session_minted == before.admin_api_session_minted.wrapping_add(1)
            && counted.admin_api_session_rejected == before.admin_api_session_rejected,
        consumed is Err ==> counted.admin_api_session_rejected
            == before.admin_api_session_rejected.wrapping_add(1) && counted.admin_api_session_minted
            == before.admin_api_session_minted,
        counted.admin_api_auth_failed == before.admin_api_auth_failed,
        counted.admin_api_key_appended == before.admin_api_key_appended,
        counted.admin_api_key_removed == before.admin_api_key_removed,
{
}

/// A status line begins with its code, for each code that is used; any other
/// code is an internal error.
pub proof fn law_status_lines(code: u16)
    ensures
        code == 200 || code == 204 || code == 400 || code == 401 || code == 404 || code == 500
            ==> has_prefix(status_text(code), dec(code as nat) + seq![' ']),
        !(code == 200 || code == 204 || code == 400 || code == 401 || code == 404) ==> status_text(
            code,
        ) == status_text(500),
        status_text(200) == "200 OK"@,
        status_text(204) == "204 No Content"@,
        status_text(400) == "400 Bad Request"@,
        status_text(401) == "401 Unauthorized"@,
        status_text(404) == "404 Not Found"@,
        status_text(500) == "500 Internal Server Error"@,
{
    reveal_strlit("200 OK");
    reveal_strlit("204 No Content");
    reveal_strlit("400 Bad Request");
    reveal_strlit("401 Unauthorized");
    reveal_strlit("404 Not Found");
    reveal_strlit("500 Internal Server Error");
    reveal_with_fuel(dec, 4);
    let t = status_text(code);
    let d = dec(code as nat) + seq![' '];
    if code == 200 || code == 204 || code == 400 || code == 401 || code == 404 || code == 500 {
        assert(d.len() == 4);
        assert(t.take(4) =~= d);
    }
}

/// A response is its head and its body; the head states the body's length and
/// ends with an empty line.
pub proof fn law_response_states_its_length(status: Seq<char>, body: Seq<u8>)
    ensures
        ({
            let head = "HTTP/1.1 "@ + status
                + "\r\nContent-Type: application/json\r\nContent-Length: "@ + dec(body.len())
                + "\r\nConnection: close\r\n\r\n"@;
            &&& response_spec(status, body).len() == encode_utf8(head).len() + body.len()
            &&& response_spec(status, body).skip(encode_utf8(head).len() as int) == body
            &&& response_spec(status, body).take(encode_utf8(head).len() as int) == encode_utf8(head)
        }),
{
    let head = "HTTP/1.1 "@ + status + "\r\nContent-Type: application/json\r\nContent-Length: "@
        + dec(body.len()) + "\r\nConnection: close\r\n\r\n"@;
    let r = response_spec(status, body);
    assert(r.skip(encode_utf8(head).len() as int) =~= body);
    assert(r.take(encode_utf8(head).len() as int) =~= encode_utf8(head));
}

/// An error is answered under its own code, and only an error or an empty
/// answer is not `200 OK`.
pub proof fn law_rendered_status(reply: AdminReply)
    ensures
        rendered(reply) is None <==> reply is Session,
        reply is Error ==> (rendered(reply)->0).0 == status_text(reply->Error_code),
        reply is NoContent ==> (rendered(reply)->0).0 == "204 No Content"@ && (rendered(reply)->0).1.len() == 0,
        reply is Appended || reply is Text ==> (rendered(reply)->0).0 == "200 OK"@,
        reply is Text ==> (rendered(reply)->0).1 == encode_utf8(reply->Text_text@),
{
}

/// Every tunnel is counted once, as live or as dangling, whatever their order.
pub proof fn law_tunnels_are_counted_once(ts: Seq<TunnelSnapshot>, t: TunnelSnapshot, i: int)
    requires
        0 <= i <= ts.len(),
    ensures
        count_live(ts, true) + count_live(ts, false) == ts.len(),
        count_live(ts.insert(i, t), t.live) == count_live(ts, t.live) + 1,
        count_live(ts.insert(i, t), !t.live) == count_live(ts, !t.live),
    decreases ts.len(),
{
    reveal_with_fuel(count_live, 2);
    let all = ts.insert(i, t);
    if i == ts.len() {
        assert(all.drop_last() =~= ts);
        assert(all.last() == t);
        if ts.len() > 0 {
            law_tunnels_are_counted_once(ts.drop_last(), t, ts.len() - 1);
        }
    } else {
        let front = ts.drop_last();
        law_tunnels_are_counted_once(front, t, i);
        assert(all.drop_last() =~= front.insert(i, t));
        assert(all.last() == ts.last());
    }
}

/// What a listing says of a tunnel.
pub proof fn law_tunnel_listing(d: TunnelDto, t: TunnelSnapshot)
    requires
        d.lists(t),
    ensures
        d.state@ == "live"@ <==> t.live,
        d.state@ == "dangling"@ <==> !t.live,
        d.kind@ == "http"@ <==> t.kind is Http,
        d.kind@ == "tcp"@ <==> t.kind is Tcp,
        d.label is Some <==> t.kind is Http,
        d.public_port is Some <==> t.kind is Tcp,
        t.kind is Tcp ==> d.public_port == Some(t.kind->public_port),
        t.kind is Http ==> d.label is Some && d.label->0@ == t.kind->label@,
        d.tunnel_id == t.tunnel_id.0 && d.inspect == t.inspect,
{
    reveal_strlit("live");
    reveal_strlit("dangling");
    reveal_strlit("http");
    reveal_strlit("tcp");
    assert("live"@.len() == 4 && "dangling"@.len() == 8 && "http"@.len() == 4 && "tcp"@.len() == 3);
}

/// A rate in a listing can be read back as the rate that it shows.
pub proof fn law_key_listing(d: KeyDto, key: Seq<u8>, e: EntryView)
    requires
        d.lists(key, e),
    ensures
        d.bw is Some <==> e.bw is Some,
        d.quota is Some <==> e.quota is Some,
        d.bw is Some ==> rate_spec(d.bw->0@) == e.bw,
        d.quota is Some ==> rate_spec(d.quota->0@) == e.quota,
        d.max_conns == e.max_conns && d.allow_any_subdomain == e.allow_any_subdomain,
        d.comment is Some <==> e.comment is Some,
{
    if e.bw is Some {
        law_rate_text_reads_back(e.bw->0);
    }
    if e.quota is Some {
        law_rate_text_reads_back(e.quota->0);
    }
}

/// A request without a method or a path has an empty one.
pub proof fn law_head_of_a_request(p: RequestView)
    ensures
        p.method is Some ==> head_of(p).method == p.method->0,
        p.method is None ==> head_of(p).method.len() == 0,
        p.path is Some ==> head_of(p).path == p.path->0,
        p.path is None ==> head_of(p).path.len() == 0,
        head_of(p).headers == decoded_headers(p.headers),
        head_of(p).content_length == content_length_in(decoded_headers(p.headers)),
{
}

} // verus!
