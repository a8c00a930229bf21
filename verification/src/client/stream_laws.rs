//! What happens to the bytes of a stream on the way to the local target, and
//! what the inspector tells of them.

use crate::client::bi_stream::{form_of, BiView, Phase, Situation, StepView, Tick};
use crate::client::error::ClientError;
use crate::client::inspector::{
    elapsed_ms, entry_at, host_of, is_passthrough, ui_route_spec, ui_wants_more, EntryView, InspectorView,
};
use crate::client::local_auth::{api_key_reject_spec, path_only, ActionView, AuthPolicy};
use crate::client::login_page::{html_response_spec, page_spec, redirect_spec};
use crate::client::proxy::{
    announced_length, bad_request_spec, body_share, head_peeked, is_login_post, method_of, path_of, peeks_on, plan_spec, read_target,
    reply_of, shown_line, shown_status, status_line, three_digits, HeadPeek, PlanView,
};
use crate::http_parse::{blank_line, head_end, http_request, http_response, HeaderView, RequestView, StatusView};
use crate::proto::frames::{HttpMetadataView, InspectionPreludeView};
use crate::proto::stream::DataHeader;
use crate::text::{all_space, dec, has_prefix, is_digit_spec, lemma_dec_roundtrip, lower};
use crate::text_laws::{law_cut_first, law_cut_first_of_joined, law_number_reads_back, law_trim_keeps_tight, tight};
use vstd::prelude::*;
use vstd::utf8::{decode_utf8, encode_utf8, valid_utf8};

verus! {

/// Whether the two line breaks that end a head stand at `i`.
pub open spec fn ends_head_at(s: Seq<u8>, i: int) -> bool {
    &&& 0 <= i && i + 4 <= s.len()
    &&& s[i] == 0x0d && s[i + 1] == 0x0a && s[i + 2] == 0x0d && s[i + 3] == 0x0a
}

/// A head ends behind the first pair of line breaks, wherever it stands; where
/// there is none, the head is not complete.
pub proof fn law_head_ends_at_first_blank_line(s: Seq<u8>, i: int)
    requires
        0 <= i,
        forall|j: int| 0 <= j < i ==> !#[trigger] ends_head_at(s, j),
    ensures
        ends_head_at(s, i) ==> head_end(s) == Some(i + 4),
        i >= s.len() ==> head_end(s) is None,
    decreases i,
{
    if s.len() >= 4 {
        assert(blank_line(s) == ends_head_at(s, 0));
        if i > 0 {
            let t = s.skip(1);
            assert(!ends_head_at(s, 0));
            assert forall|j: int| 0 <= j < i - 1 implies !#[trigger] ends_head_at(t, j) by {
                assert(!ends_head_at(s, j + 1));
                if ends_head_at(t, j) {
                    assert(t[j] == s[j + 1] && t[j + 1] == s[j + 2] && t[j + 2] == s[j + 3] && t[j + 3]
                        == s[j + 4]);
                }
            }
            law_head_ends_at_first_blank_line(t, i - 1);
            if ends_head_at(s, i) {
                assert(t[i - 1] == s[i] && t[i] == s[i + 1] && t[i + 1] == s[i + 2] && t[i + 2] == s[i + 3]);
                assert(ends_head_at(t, i - 1));
            }
        }
    }
}

/// The status of a response is the number of three digits behind the first
/// space of a line that begins with `HTTP/`.
pub proof fn law_status_is_read(version: Seq<char>, n: nat, rest: Seq<char>)
    requires
        !version.contains(' '),
        100 <= n <= 999,
        rest.len() > 0 ==> !is_digit_spec(rest[0]),
        encode_utf8("HTTP/"@ + version + seq![' '] + (dec(n) + rest)).len() <= 64,
    ensures
        status_line(encode_utf8("HTTP/"@ + version + seq![' '] + (dec(n) + rest))) == Some(n),
{
    broadcast use vstd::utf8::encode_utf8_valid_utf8, vstd::utf8::encode_utf8_decode_utf8;

    reveal_strlit("HTTP/");
    let front = "HTTP/"@ + version;
    let tail = dec(n) + rest;
    let t = front + seq![' '] + tail;
    let bytes = encode_utf8(t);
    assert(decode_utf8(bytes) == t);
    assert(t.take(5) =~= "HTTP/"@);
    assert(!front.contains(' ')) by {
        if front.contains(' ') {
            let k = choose|k: int| 0 <= k < front.len() && front[k] == ' ';
            if k >= 5 {
                assert(version[k - 5] == ' ');
            }
        }
    }
    law_cut_first_of_joined(front, ' ', tail);
    lemma_dec_roundtrip(n);
    reveal_with_fuel(dec, 4);
    let d = dec(n);
    assert(d.len() == 3);
    assert(is_digit_spec(d[0]) && is_digit_spec(d[1]) && is_digit_spec(d[2]));
    assert(tail.take(3) =~= d);
    assert(tail[0] == d[0] && tail[1] == d[1] && tail[2] == d[2]);
    if tail.len() > 3 {
        assert(tail[3] == rest[0]);
    }
}

/// What is no status line has no status: another protocol, no space, or a
/// number of four digits or more.
pub proof fn law_no_status_without_a_status_line(text: Seq<char>, rest: Seq<char>)
    requires
        encode_utf8(text).len() <= 64,
    ensures
        !has_prefix(text, "HTTP/"@) ==> status_line(encode_utf8(text)) is None,
        !text.contains(' ') ==> status_line(encode_utf8(text)) is None,
        rest.len() >= 4 && is_digit_spec(rest[0]) && is_digit_spec(rest[1]) && is_digit_spec(rest[2])
            && is_digit_spec(rest[3]) ==> three_digits(rest) is None,
        rest.len() < 3 ==> three_digits(rest) is None,
{
    broadcast use vstd::utf8::encode_utf8_valid_utf8, vstd::utf8::encode_utf8_decode_utf8;

    law_cut_first(text, ' ');
}

/// Whether a header is named `content-length`, in any case.
pub open spec fn announces(h: HeaderView) -> bool {
    lower(h.name) == "content-length"@
}

/// The first header that announces a length counts, wherever it stands, and
/// white space around the number does not; where there is none, no body is
/// announced.
pub proof fn law_first_length_counts(hs: Seq<HeaderView>, i: int, a: Seq<char>, n: usize, b: Seq<char>)
    requires
        0 <= i <= hs.len(),
        forall|j: int| 0 <= j < i ==> !announces(#[trigger] hs[j]),
        all_space(a),
        all_space(b),
    ensures
        i == hs.len() ==> announced_length(hs) == 0,
        i < hs.len() && announces(hs[i]) && hs[i].value == encode_utf8(a + dec(n as nat) + b)
            ==> announced_length(hs) == n,
        i < hs.len() && announces(hs[i]) && !valid_utf8(hs[i].value) ==> announced_length(hs) == 0,
    decreases hs.len(),
{
    broadcast use vstd::utf8::encode_utf8_valid_utf8, vstd::utf8::encode_utf8_decode_utf8;

    reveal_strlit("content-length");
    assert(lower("content-length"@) =~= "content-length"@);
    if hs.len() > 0 {
        if i > 0 {
            let rest = hs.skip(1);
            assert(!announces(hs[0]));
            assert forall|j: int| 0 <= j < i - 1 implies !announces(#[trigger] rest[j]) by {
                assert(rest[j] == hs[j + 1]);
            }
            law_first_length_counts(rest, i - 1, a, n, b);
            if i < hs.len() {
                assert(rest[i - 1] == hs[i]);
            }
        } else {
            let d = dec(n as nat);
            lemma_dec_roundtrip(n as nat);
            assert(is_digit_spec(d[0]) && is_digit_spec(d[d.len() - 1]));
            assert(tight(d));
            law_trim_keeps_tight(a, d, b);
            law_number_reads_back(n as nat, usize::MAX as nat);
        }
    }
}

/// A login is a POST, in any case, to the login path, whatever its query. Its
/// form is read up to 4096 bytes; of any other request only the head is.
pub proof fn law_login_form_is_read(p: RequestView, end: int)
    requires
        0 <= end <= usize::MAX - 4096,
    ensures
        is_login_post(p) <==> lower(method_of(p)) == lower("POST"@) && path_only(path_of(p))
            == "/__krot/login"@,
        !is_login_post(p) ==> read_target(p, end) == end,
        is_login_post(p) && announced_length(p.headers) <= 4096 ==> read_target(p, end) == end
            + announced_length(p.headers),
        is_login_post(p) && announced_length(p.headers) > 4096 ==> read_target(p, end) == end + 4096,
        p.method is None ==> method_of(p).len() == 0,
        p.method is Some ==> method_of(p) == p.method->0,
        p.path is None ==> path_of(p) == "/"@,
        p.path is Some ==> path_of(p) == p.path->0,
{
}

/// A chunk fills a body up to its end and never beyond: what is kept is the
/// front of the chunk.
pub proof fn law_body_is_filled_to_its_end(have: Seq<u8>, target: int, chunk: Seq<u8>)
    requires
        have.len() <= target,
    ensures
        ({
            let share = body_share(have.len(), target, chunk);
            &&& share.len() <= chunk.len()
            &&& share == chunk.take(share.len() as int)
            &&& have.len() + chunk.len() <= target ==> share == chunk
            &&& have.len() + chunk.len() > target ==> (have + share).len() == target
        }),
{
    let share = body_share(have.len(), target, chunk);
    assert(share =~= chunk.take(share.len() as int));
}

/// Where the form stands: behind the head, and no longer than was announced.
pub proof fn law_form_stands_behind_the_head(head: Seq<u8>, form: Seq<u8>, behind: Seq<u8>)
    ensures
        form_of(head + form + behind, head.len() as int, (head.len() + form.len()) as int) == form,
        behind.len() > 0 ==> form_of(
            head + form,
            head.len() as int,
            (head.len() + form.len() + behind.len()) as int,
        ) == form,
{
    let all = head + form + behind;
    assert(all.subrange(head.len() as int, (head.len() + form.len()) as int) =~= form);
    assert((head + form).skip(head.len() as int) =~= form);
}

/// A malformed request is answered and never let through, whatever the policy;
/// a key policy lets exactly the requests with the key through, and a session
/// policy decides once the request is read.
pub proof fn law_plans(policy: AuthPolicy, p: RequestView, end: int)
    ensures
        p.status is Invalid ==> plan_spec(policy, p, end) == PlanView::Respond(bad_request_spec()),
        plan_spec(policy, p, end) is Forward ==> policy is ApiKey && !(p.status is Invalid),
        policy is Session && !(p.status is Invalid) ==> plan_spec(policy, p, end) == (PlanView::Session {
            target: read_target(p, end),
        }),
        policy is ApiKey && !(p.status is Invalid) && !(plan_spec(policy, p, end) is Forward) ==> plan_spec(
            policy,
            p,
            end,
        ) == PlanView::Respond(api_key_reject_spec()),
{
}

/// Nothing is shown of what is malformed; otherwise what was parsed is shown,
/// complete or not.
pub proof fn law_what_the_inspector_shows(p: RequestView, q: (StatusView, Option<u16>))
    ensures
        p.status is Invalid ==> shown_line(p).0 is None && shown_line(p).1 is None,
        !(p.status is Invalid) ==> shown_line(p).0 == p.method && shown_line(p).1 == p.path,
        q.0 is Invalid ==> shown_status(q) is None,
        !(q.0 is Invalid) ==> shown_status(q) == q.1,
{
}

/// A head is looked for in up to 8192 bytes, as long as more can come.
pub proof fn law_peeking_is_bounded(buf: Seq<u8>)
    ensures
        !peeks_on(buf, true),
        buf.len() > 8192 ==> !peeks_on(buf, false),
        head_end(buf) is Some ==> !peeks_on(buf, false),
        buf.len() <= 8192 && head_end(buf) is None ==> peeks_on(buf, false),
{
}

/// The host of an entry is the one of the request, or else the name of the
/// TLS handshake; a stream with such a name cannot be read.
pub proof fn law_host_of_a_stream(secs: u64, peer: Seq<char>, host: Seq<char>, sni: Seq<char>)
    ensures
        ({
            let plain = InspectionPreludeView { accept_unix_secs: secs, peer, http: None };
            let clear = InspectionPreludeView {
                http: Some(HttpMetadataView { host, sni: None }),
                ..plain
            };
            let sealed = InspectionPreludeView {
                http: Some(HttpMetadataView { host, sni: Some(sni) }),
                ..plain
            };
            &&& host_of(plain) is None
            &&& host_of(clear) == Some(host)
            &&& host_of(sealed) == Some(
                if host.len() == 0 {
                    sni
                } else {
                    host
                },
            )
            &&& !is_passthrough(plain) && !is_passthrough(clear) && is_passthrough(sealed)
        }),
{
    if host.len() == 0 {
        assert(host =~= Seq::empty());
    }
}

/// A duration is in whole milliseconds, and never 0.
pub proof fn law_duration_in_milliseconds(start: u128, ms: nat, nanos: nat)
    requires
        nanos < 1_000_000,
        start + ms * 1_000_000 + nanos <= u128::MAX,
        ms <= u64::MAX,
    ensures
        ms >= 1 ==> elapsed_ms(start, (start + ms * 1_000_000 + nanos) as u128) == ms,
        ms == 0 ==> elapsed_ms(start, (start + ms * 1_000_000 + nanos) as u128) == 1,
        forall|now: u128| now <= start ==> #[trigger] elapsed_ms(start, now) == 1,
{
    let now = (start + ms * 1_000_000 + nanos) as u128;
    let d = now - start;
    assert(d == ms * 1_000_000 + nanos);
    assert(d / 1_000_000 == ms);
}

/// What the server tells of a stream belongs to the request that comes next,
/// and to that one alone. A stream that cannot be read is an entry of its own.
pub proof fn law_prelude_belongs_to_next_request(
    v: InspectorView,
    p: InspectionPreludeView,
    m: Option<Seq<char>>,
    path: Option<Seq<char>>,
    now_ms: u128,
    now: u128,
)
    ensures
        !is_passthrough(p) ==> ({
            let told = v.accepted(p, now_ms);
            let one = told.requested(m, path, now_ms, now);
            let two = one.requested(m, path, now_ms, now);
            &&& told.entries == v.entries
            &&& one.entries.last().peer == Some(p.peer)
            &&& one.entries.last().host == host_of(p)
            &&& one.entries.last().method == m && one.entries.last().path == path
            &&& one.entries.last().status is None
            &&& two.entries.last().peer is None && two.entries.last().host is None
        }),
        is_passthrough(p) ==> ({
            let told = v.accepted(p, now_ms);
            let e = told.entries.last();
            &&& e.id == v.next_id && told.next_id != v.next_id
            &&& e.peer == Some(p.peer) && e.host == host_of(p)
            &&& e.method is None && e.path is None && e.status is None && e.duration_ms is None
            &&& told.pending is None && told.starts == v.starts
        }),
{
}

/// The log keeps 200 entries: one more drops the oldest and no other.
pub proof fn law_log_holds_two_hundred(v: InspectorView, e: EntryView)
    ensures
        v.entries.len() < 200 ==> v.ring(e) == v.entries.push(e),
        v.entries.len() == 200 ==> v.ring(e).len() == 200 && v.ring(e).last() == e && forall|i: int|
            0 <= i < 199 ==> #[trigger] v.ring(e)[i] == v.entries[i + 1],
{
}

proof fn lemma_entry_found(entries: Seq<EntryView>, id: u64, i: int)
    requires
        0 <= i <= entries.len(),
        forall|j: int| 0 <= j < i ==> (#[trigger] entries[j]).id != id,
    ensures
        i == entries.len() ==> entry_at(entries, id) is None,
        i < entries.len() && entries[i].id == id ==> entry_at(entries, id) == Some(i),
    decreases i,
{
    if i > 0 {
        let rest = entries.skip(1);
        assert(entries[0].id != id);
        assert forall|j: int| 0 <= j < i - 1 implies (#[trigger] rest[j]).id != id by {
            assert(rest[j] == entries[j + 1]);
        }
        lemma_entry_found(rest, id, i - 1);
        if i < entries.len() {
            assert(rest[i - 1] == entries[i]);
        }
    }
}

/// A response changes the entry of its request and no other; one to a request
/// that is no longer kept changes none.
pub proof fn law_response_changes_one_entry(v: InspectorView, id: u64, status: u16, now: u128, i: int, k: int)
    requires
        0 <= i <= v.entries.len(),
        forall|j: int| 0 <= j < i ==> (#[trigger] v.entries[j]).id != id,
        i < v.entries.len() ==> v.entries[i].id == id,
        0 <= k < v.entries.len(),
    ensures
        ({
            let done = v.responded(id, status, now);
            &&& done.entries.len() == v.entries.len()
            &&& k != i ==> done.entries[k] == v.entries[k]
            &&& k == i ==> {
                &&& done.entries[k].status == Some(status)
                &&& done.entries[k].id == id
                &&& done.entries[k].method == v.entries[k].method
                &&& done.entries[k].path == v.entries[k].path
                &&& done.entries[k].peer == v.entries[k].peer
                &&& done.entries[k].host == v.entries[k].host
                &&& done.entries[k].time_ms == v.entries[k].time_ms
                &&& v.starts.contains_key(id) ==> done.entries[k].duration_ms == Some(
                    elapsed_ms(v.starts[id], now),
                )
            }
            &&& done.next_id == v.next_id && done.pending == v.pending
            &&& !done.starts.contains_key(id)
        }),
{
    lemma_entry_found(v.entries, id, i);
}

/// Ids count up by one and start again at 0 behind the last.
pub proof fn law_ids_count_up(id: u64)
    ensures
        id < u64::MAX ==> InspectorView::following(id) == id + 1,
        InspectorView::following(u64::MAX) == 0,
        InspectorView::initial().next_id == 1,
{
}

/// A stream for another tunnel, or with a header that is none, is given up. A
/// good one is asked for its prelude exactly when the server sends preludes.
pub proof fn law_stream_must_be_for_this_tunnel(s: BiView, h: DataHeader, bytes: Seq<u8>, has_policy: bool)
    requires
        DataHeader::parse(bytes) == Ok::<DataHeader, crate::proto::stream::StreamKindError>(h),
    ensures
        h.tunnel_id != s.expected ==> s.headed(bytes, has_policy).1 == StepView::Fail(
            ClientError::Protocol("wrong tunnel id on data stream"),
        ) && s.headed(bytes, has_policy).0.phase is Closed,
        h.tunnel_id == s.expected && s.inspect ==> s.headed(bytes, has_policy).1 is ReadPrelude
            && s.headed(bytes, has_policy).0.phase is Prelude,
        h.tunnel_id == s.expected ==> s.headed(bytes, has_policy).0.kind == h.kind,
        h.tunnel_id == s.expected && !s.inspect && has_policy && h.kind is DataHttp ==> s.headed(
            bytes,
            has_policy,
        ).1 is ReadStream,
        h.tunnel_id == s.expected && !s.inspect && (!has_policy || !(h.kind is DataHttp)) ==> s.headed(
            bytes,
            has_policy,
        ).1 == StepView::Dial(Seq::empty()),
        s.headed(bytes, has_policy).0.request == s.request,
{
}

/// A header that cannot be decoded ends the stream.
pub proof fn law_bad_header_ends_the_stream(s: BiView, bytes: Seq<u8>, has_policy: bool)
    requires
        DataHeader::parse(bytes) is Err,
    ensures
        s.headed(bytes, has_policy).1 == StepView::Fail(ClientError::Protocol("bad DataHeader from server")),
        s.headed(bytes, has_policy).0.phase is Closed,
{
}

/// Only HTTP streams of a tunnel with a policy are looked at before they are
/// let through.
pub proof fn law_policy_is_for_http(s: BiView, has_policy: bool)
    ensures
        s.begun(has_policy).1 is ReadStream <==> has_policy && s.kind is DataHttp,
        !(s.begun(has_policy).1 is ReadStream) ==> s.begun(has_policy).1 == StepView::Dial(Seq::empty()),
{
}

/// A stream that begins as TLS does goes through unread, with all its bytes.
pub proof fn law_tls_goes_through(pre: Situation, chunk: Seq<u8>, tick: Tick, post: Situation, step: StepView)
    requires
        pre.stream.phase is First,
        chunk.len() > 0 && chunk[0] == 0x16,
        pre.chunk_read(chunk, tick, post, step),
    ensures
        step == StepView::Dial(pre.stream.request + chunk),
        post.log == pre.log && post.policy == pre.policy,
{
}

/// While the head of a request is not complete, all that was read is kept; a
/// request whose head never ends is answered as bad.
pub proof fn law_head_is_gathered(pre: Situation, chunk: Seq<u8>, tick: Tick, post: Situation, step: StepView)
    requires
        pre.stream.phase is Head,
        pre.chunk_read(chunk, tick, post, step),
        head_end(pre.stream.request + chunk) is None,
    ensures
        chunk.len() > 0 && (pre.stream.request + chunk).len() < 8192 ==> step is ReadStream
            && post.stream.request == pre.stream.request + chunk && post.stream.phase is Head,
        chunk.len() == 0 || (pre.stream.request + chunk).len() >= 8192 ==> step == StepView::Respond(
            bad_request_spec(),
        ) && post.stream.phase is Closed,
{
}

/// Bytes that are read for the inspector reach their target unchanged and in
/// full: those of the visitor the local target, and those of the local target
/// the visitor.
pub proof fn law_peeked_bytes_are_passed_on(
    pre: Situation,
    chunk: Seq<u8>,
    tick: Tick,
    post: Situation,
    step: StepView,
)
    ensures
        pre.stream.phase is StreamHead && pre.chunk_read(chunk, tick, post, step) ==> (step is ReadStream
            && post.stream.request == pre.stream.request + chunk) || step == StepView::SendLocal(
            pre.stream.request + chunk,
        ),
        pre.local_read(chunk, tick).1 is ReadLocal ==> pre.local_read(chunk, tick).0.stream.response
            == pre.stream.response + chunk,
        pre.local_read(chunk, tick).1 is ReadLocal || pre.local_read(chunk, tick).1 == StepView::Relay(
            pre.stream.response + chunk,
        ),
        chunk.len() == 0 ==> pre.local_read(chunk, tick).1 is Relay,
{
}

/// The status of a response is recorded with the request that it answers, once
/// its head has been read.
pub proof fn law_status_is_recorded(pre: Situation, chunk: Seq<u8>, tick: Tick, log: InspectorView, id: u64, code: u16)
    requires
        pre.log == Some(log),
        pre.stream.entry == Some(id),
        pre.local_read(chunk, tick).1 is Relay,
        http_response(pre.stream.response + chunk, 32).1 == Some(code),
        !(http_response(pre.stream.response + chunk, 32).0 is Invalid),
    ensures
        pre.local_read(chunk, tick).0.log == Some(log.responded(id, code, tick.now)),
        pre.local_read(chunk, tick).0.stream.phase is Relaying,
{
}

/// Once the local target is dialed: the response to a recorded request is read
/// next; a request that was not read yet is read; anything else is relayed.
pub proof fn law_after_dialing(s: Situation, tick: Tick)
    ensures
        s.log is None || !(s.stream.kind is DataHttp) ==> s.dialed(tick).1 == StepView::Relay(Seq::empty()),
        s.log is Some && s.stream.kind is DataHttp && s.stream.entry is Some ==> s.dialed(tick).1 is ReadLocal,
        s.log is Some && s.stream.kind is DataHttp && s.stream.entry is None && s.stream.request.len() == 0
            ==> s.dialed(tick).1 is ReadStream,
        s.log is Some && s.stream.kind is DataHttp && s.stream.entry is None && s.stream.request.len() > 0
            ==> s.dialed(tick).1 == StepView::Relay(Seq::empty()),
        s.stream.prelude is None ==> s.dialed(tick).0.log == s.log,
        s.log is Some && s.stream.prelude is Some ==> s.dialed(tick).0.log == Some(
            s.log->0.accepted(s.stream.prelude->0, tick.now_ms),
        ),
        s.dialed(tick).0.policy == s.policy,
{
}

/// A request that is judged is recorded with its method and path, unless it is
/// malformed.
pub proof fn law_judged_request_is_recorded(s: Situation, p: RequestView, tick: Tick, log: InspectorView)
    requires
        s.log == Some(log),
    ensures
        !(p.status is Invalid) ==> s.noted(p, tick).stream.entry == Some(log.next_id) && s.noted(
            p,
            tick,
        ).log is Some && s.noted(p, tick).log->0.entries.last().method == p.method && s.noted(
            p,
            tick,
        ).log->0.entries.last().path == p.path && s.noted(p, tick).log->0.entries.last().id == log.next_id,
        p.status is Invalid ==> s.noted(p, tick) == s,
        s.noted(p, tick).stream.request == s.stream.request && s.noted(p, tick).policy == s.policy,
{
}

/// A request that is answered here goes no further, and its status is recorded.
pub proof fn law_reply_ends_the_stream(
    s: Situation,
    reply: Seq<u8>,
    tick: Tick,
    post: Situation,
    step: StepView,
    log: InspectorView,
    id: u64,
    code: nat,
)
    requires
        s.replied(reply, tick, post, step),
        status_line(reply) == Some(code),
    ensures
        step == StepView::Respond(reply),
        post.stream.phase is Closed,
        s.log == Some(log) && s.stream.entry == Some(id) ==> post.log == Some(
            log.responded(id, code as u16, tick.now),
        ),
        s.log is None || s.stream.entry is None ==> post.log == s.log,
{
}

/// A session decision is answered by what it says: a page, a redirect, or
/// nothing where the request goes through.
pub proof fn law_decisions_are_answered(next: Seq<char>, error: Option<Seq<char>>, to: Seq<char>, cookie: Option<Seq<char>>)
    ensures
        reply_of(ActionView::Forward) is None,
        reply_of(ActionView::ServeLoginPage { next, error }) == Some(
            html_response_spec(page_spec(next, error)),
        ),
        reply_of(ActionView::Redirect { location: to, set_cookie: cookie }) == Some(
            redirect_spec(to, cookie),
        ),
{
}

/// A login form is decided on once it is complete or the stream has ended, and
/// what is decided on is the form, up to its announced end. Until then it is
/// gathered.
pub proof fn law_login_is_decided_when_complete(
    pre: Situation,
    chunk: Seq<u8>,
    tick: Tick,
    post: Situation,
    step: StepView,
    complete_at: usize,
    target: usize,
)
    requires
        pre.stream.wf(),
        pre.stream.phase == (Phase::Body { complete_at, target }),
        pre.stream.request.len() < target,
        pre.chunk_read(chunk, tick, post, step),
    ensures
        chunk.len() > 0 && pre.stream.request.len() + chunk.len() < target ==> step is ReadStream
            && post.stream.request == pre.stream.request + chunk && post.policy == pre.policy,
        chunk.len() == 0 || pre.stream.request.len() + chunk.len() >= target ==> exists|a: ActionView|
            #[trigger] pre.policy->0.decided(
                post.policy->0,
                method_of(http_request(pre.stream.request.take(complete_at as int), 32)),
                path_of(http_request(pre.stream.request.take(complete_at as int), 32)),
                http_request(pre.stream.request.take(complete_at as int), 32).headers,
                form_of(pre.stream.request + chunk, complete_at as int, target as int),
                tick.moment,
                a,
            ) && (reply_of(a) is Some ==> step == StepView::Respond(reply_of(a)->0)),
{
    let share = body_share(pre.stream.request.len(), target as int, chunk);
    if pre.stream.request.len() + chunk.len() < target {
        assert(share == chunk);
    }
    if chunk.len() == 0 || pre.stream.request.len() + chunk.len() >= target {
        let request = pre.stream.request + share;
        let more = Situation { stream: BiView { request, ..pre.stream }, ..pre };
        let p = http_request(pre.stream.request.take(complete_at as int), 32);
        let body = form_of(request, complete_at as int, target as int);
        assert(more.session_decides(p, complete_at as int, target as int, tick, post, step));
        let a = choose|a: ActionView| #[trigger] more.session_answers(p, body, a, tick, post, step);
        let whole = pre.stream.request + chunk;
        if pre.stream.request.len() + chunk.len() >= target {
            assert(request =~= whole.take(target as int));
            assert(body =~= whole.subrange(complete_at as int, target as int));
        } else {
            assert(request =~= whole);
        }
        assert(body == form_of(whole, complete_at as int, target as int));
        assert(pre.policy->0.decided(
            post.policy->0,
            method_of(p),
            path_of(p),
            p.headers,
            form_of(pre.stream.request + chunk, complete_at as int, target as int),
            tick.moment,
            a,
        ));
    }
}

/// A request that is judged is forwarded with all that was read, answered, or,
/// for a login, read on.
pub proof fn law_judgement_follows_the_plan(
    s: Situation,
    p: RequestView,
    end: int,
    tick: Tick,
    post: Situation,
    step: StepView,
)
    requires
        s.judged(p, end, tick, post, step),
        s.policy is Some,
    ensures
        plan_spec(s.policy->0, p, end) is Forward ==> step == StepView::Dial(s.stream.request),
        plan_spec(s.policy->0, p, end) is Respond ==> step == StepView::Respond(
            plan_spec(s.policy->0, p, end)->Respond_0,
        ),
        plan_spec(s.policy->0, p, end) is Session && s.stream.request.len() < plan_spec(
            s.policy->0,
            p,
            end,
        )->target ==> step is ReadStream && post.stream.request == s.stream.request,
{
}

/// A head ends where its blank line ends. Without one, reading goes on until
/// the cap is reached or the stream has ended.
pub proof fn law_head_is_sought_up_to_the_cap(s: Seq<u8>, i: int, cap: nat, eof: bool)
    requires
        0 <= i,
        s.len() <= usize::MAX,
        forall|j: int| 0 <= j < i ==> !#[trigger] ends_head_at(s, j),
    ensures
        ends_head_at(s, i) ==> head_peeked(s, cap, eof) == HeadPeek::End((i + 4) as usize),
        i >= s.len() && !eof && s.len() < cap ==> head_peeked(s, cap, eof) == HeadPeek::More,
        i >= s.len() && (eof || s.len() >= cap) ==> head_peeked(s, cap, eof) == HeadPeek::Malformed,
{
    law_head_ends_at_first_blank_line(s, i);
}

/// A request to the UI is read up to 8192 bytes and one chunk; one path shows
/// the entries, and every other the page.
pub proof fn law_ui_requests(s: Seq<u8>, path: Seq<char>)
    ensures
        !ui_wants_more(s, true),
        head_end(s) is Some ==> !ui_wants_more(s, false),
        head_end(s) is None ==> (ui_wants_more(s, false) <==> s.len() <= 8192),
        ui_route_spec(Some(path)) is Entries <==> path == "/api/entries"@,
        ui_route_spec(None) is Page,
{
}

} // verus!
