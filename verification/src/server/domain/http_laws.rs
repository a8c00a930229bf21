//! Where a visitor's host and name lead, whatever else the request says.

use crate::http_parse::{HeaderView, RequestView, StatusView};
use crate::proto::consts::ALPN_TCP;
use crate::server::domain::http::{
    body_spec, head_judged, host_in, host_name, http_routed, preamble_spec, HeadStep, HttpRoute, ACME_PATH_PREFIX,
    MAX_HEADER_BYTES,
};
use crate::proto::stream::{law_data_header_roundtrip, DataHeader, StreamKindError};
use crate::server::domain::https::{https_routed, offers_control, HttpsRoute};
use crate::server::tunnel::tcp_prelude_spec;
use crate::text::{
    all_space, dec, is_space_spec, lemma_split_joined, lemma_split_whole, lower, split_spec, strip_prefix_spec,
};
use crate::text_laws::{law_lower_joined, law_split_is_undone, law_strip, law_trim_keeps_tight, tight};
use vstd::prelude::*;
use vstd::utf8::{decode_utf8, encode_utf8, valid_utf8};

verus! {

/// Whether a header is named `host`, in any case.
pub open spec fn is_host_header(h: HeaderView) -> bool {
    lower(h.name) == lower("host"@)
}

proof fn lemma_host_in(headers: Seq<HeaderView>, i: int)
    requires
        0 <= i <= headers.len(),
        forall|j: int| 0 <= j < i ==> !is_host_header(#[trigger] headers[j]),
        i < headers.len() ==> is_host_header(headers[i]),
    ensures
        i == headers.len() ==> host_in(headers) == Seq::<char>::empty(),
        i < headers.len() && valid_utf8(headers[i].value) ==> host_in(headers) == decode_utf8(
            headers[i].value,
        ),
        i < headers.len() && !valid_utf8(headers[i].value) ==> host_in(headers) == Seq::<
            char,
        >::empty(),
    decreases headers.len(),
{
    if i > 0 {
        let rest = headers.skip(1);
        assert(!is_host_header(headers[0]));
        assert forall|j: int| 0 <= j < i - 1 implies !is_host_header(#[trigger] rest[j]) by {
            assert(rest[j] == headers[j + 1]);
        }
        if i < headers.len() {
            assert(rest[i - 1] == headers[i]);
        }
        lemma_host_in(rest, i - 1);
    }
}

/// The host of a complete head is the text of its first header named `host`,
/// whatever headers stand before and behind it. It is empty when that text is
/// not UTF-8, and when no header has this name.
pub proof fn law_first_host_header_counts(p: RequestView, len: nat, r: HeadStep, i: int)
    requires
        p.status is Complete,
        head_judged(p, len, r),
        0 <= i <= p.headers.len(),
        forall|j: int| 0 <= j < i ==> !is_host_header(#[trigger] p.headers[j]),
        i < p.headers.len() ==> is_host_header(p.headers[i]),
    ensures
        r is Done,
        i == p.headers.len() ==> r->host@ == Seq::<char>::empty(),
        i < p.headers.len() && valid_utf8(p.headers[i].value) ==> r->host@ == decode_utf8(
            p.headers[i].value,
        ),
        i < p.headers.len() && !valid_utf8(p.headers[i].value) ==> r->host@ == Seq::<char>::empty(),
        p.path matches Some(path) ==> r->path@ == path,
{
    lemma_host_in(p.headers, i);
}

/// An incomplete head is waited for as long as it fits the buffer, and refused
/// once it does not; a malformed one is refused with the parser's reason.
pub proof fn law_head_is_waited_for(p: RequestView, len: nat, r: HeadStep)
    requires
        head_judged(p, len, r),
    ensures
        r is Done <==> p.status is Complete,
        r is More <==> p.status is Partial && len <= MAX_HEADER_BYTES,
        p.status matches StatusView::Invalid(m) ==> r is InvalidData && r->InvalidData_0@ == m,
{
}

/// A host under the apex is routed to its label in lower case, with a port
/// behind it or without, with white space around it, and in any case.
pub proof fn law_host_leads_to_label(
    a: Seq<char>,
    label: Seq<char>,
    apex: Seq<char>,
    written: Seq<char>,
    b: Seq<char>,
    port: Seq<char>,
    path: Seq<char>,
    r1: HttpRoute,
    r2: HttpRoute,
)
    requires
        all_space(a),
        all_space(b),
        lower(written) == lower(apex),
        !label.contains(':') && !written.contains(':'),
        tight(label + "."@ + written),
        strip_prefix_spec(path, ACME_PATH_PREFIX@) is None,
        http_routed(a + (label + "."@ + written) + b, path, apex, r1),
        http_routed(a + (label + "."@ + written) + b + ":"@ + port, path, apex, r2),
    ensures
        r1 is Tunnel && r1->label@ == lower(label),
        r2 is Tunnel && r2->label@ == lower(label),
{
    reveal_strlit(".");
    reveal_strlit(":");
    let name = label + "."@ + written;
    let host = a + name + b;
    assert(!host.contains(':')) by {
        if host.contains(':') {
            let k = choose|k: int| 0 <= k < host.len() && host[k] == ':';
            let n = a.len() as int;
            if k < n {
                assert(is_space_spec(a[k]));
            } else if k < n + label.len() {
                assert(label[k - n] == ':');
            } else if k == n + label.len() {
                assert(host[k] == '.');
            } else if k < n + name.len() {
                assert(written[k - n - label.len() - 1] == ':');
            } else {
                assert(is_space_spec(b[k - n - name.len()]));
            }
        }
    }
    lemma_split_whole(host, ':');
    assert(":"@ =~= seq![':']);
    lemma_split_joined(host, ':', port);
    assert(split_spec(host + ":"@ + port, ':')[0] == host);
    law_trim_keeps_tight(a, name, b);
    law_lower_joined(label + "."@, written);
    law_lower_joined(label, "."@);
    assert(lower("."@) =~= "."@);
    let suffix = "."@ + lower(apex);
    assert(lower(name) =~= lower(label) + suffix);
    law_strip(suffix, lower(label));
    assert(lower(name).len() == lower(label).len() + 1 + lower(apex).len());
}

/// Only a host under the apex is routed to a label: what stands before its
/// first colon ends in a dot and the apex, and the label is what stands
/// before these.
pub proof fn law_label_comes_from_host(host: Seq<char>, path: Seq<char>, apex: Seq<char>, r: HttpRoute)
    requires
        http_routed(host, path, apex, r),
    ensures
        r is Tunnel ==> lower(host_name(host)) == r->label@ + "."@ + lower(apex),
        r is UnknownHost ==> !exists|label: Seq<char>|
            lower(host_name(host)) == #[trigger] (label + "."@ + lower(apex)),
{
    reveal_strlit(".");
    let suffix = "."@ + lower(apex);
    let n = lower(host_name(host));
    law_strip(suffix, n);
    if r is Tunnel {
        assert(r->label@ + "."@ + lower(apex) =~= r->label@ + suffix);
    }
    if r is UnknownHost {
        assert forall|label: Seq<char>| n != #[trigger] (label + "."@ + lower(apex)) by {
            if n == label + "."@ + lower(apex) {
                assert(n =~= label + suffix);
                law_strip(suffix, label);
                assert(n.len() > lower(apex).len());
            }
        }
    }
}

/// What stands before the first colon of a host header is its name.
pub proof fn law_port_is_dropped(host: Seq<char>, port: Seq<char>)
    ensures
        host_name(host + ":"@ + port) == host_name(host),
{
    reveal_strlit(":");
    assert(":"@ =~= seq![':']);
    lemma_split_joined(host, ':', port);
    law_split_is_undone(host, ':');
}

/// A challenge is answered under any host, and nothing else is taken for one.
pub proof fn law_challenge_on_any_host(
    host: Seq<char>,
    token: Seq<char>,
    path: Seq<char>,
    apex: Seq<char>,
    r1: HttpRoute,
    r2: HttpRoute,
)
    requires
        http_routed(host, ACME_PATH_PREFIX@ + token, apex, r1),
        http_routed(host, path, apex, r2),
    ensures
        r1 is Challenge && r1->token@ == token,
        r2 is Challenge <==> exists|t: Seq<char>| path == #[trigger] (ACME_PATH_PREFIX@ + t),
        r2 is Challenge ==> path == ACME_PATH_PREFIX@ + r2->token@,
{
    law_strip(ACME_PATH_PREFIX@, token);
    law_strip(ACME_PATH_PREFIX@, path);
    if exists|t: Seq<char>| path == #[trigger] (ACME_PATH_PREFIX@ + t) {
        let t = choose|t: Seq<char>| path == #[trigger] (ACME_PATH_PREFIX@ + t);
        law_strip(ACME_PATH_PREFIX@, t);
    }
}

/// A connection that offers the control protocol, anywhere among its ALPN
/// identifiers, goes to the mux; any other goes by its name alone, to the
/// label that stands before a dot and the apex, or nowhere.
pub proof fn law_hello_leads_to_mux_or_label(
    before: Seq<Seq<u8>>,
    behind: Seq<Seq<u8>>,
    other: Seq<Seq<u8>>,
    name: Seq<char>,
    label: Seq<char>,
    written: Seq<char>,
    apex: Seq<char>,
    r1: HttpsRoute,
    r2: HttpsRoute,
    r3: HttpsRoute,
)
    requires
        forall|i: int| 0 <= i < other.len() ==> #[trigger] other[i] != ALPN_TCP@,
        lower(written) == lower(apex),
        https_routed(name, before + seq![ALPN_TCP@] + behind, apex, r1),
        https_routed(label + "."@ + written, other, apex, r2),
        https_routed(name, other, apex, r3),
    ensures
        r1 is ControlMux,
        r2 is Tunnel && r2->label@ == lower(label),
        r3 is Tunnel ==> lower(name) == r3->label@ + "."@ + lower(apex),
        !(r3 is ControlMux),
        r3 is Drop ==> lower(name) != lower(label + "."@ + written),
{
    reveal_strlit(".");
    let all = before + seq![ALPN_TCP@] + behind;
    assert(all[before.len() as int] == ALPN_TCP@);
    assert(!offers_control(other));
    let suffix = "."@ + lower(apex);
    let full = label + "."@ + written;
    law_lower_joined(label + "."@, written);
    law_lower_joined(label, "."@);
    assert(lower("."@) =~= "."@);
    assert(lower(full) =~= lower(label) + suffix);
    law_strip(suffix, lower(label));
    assert(lower(full).len() == lower(label).len() + 1 + lower(apex).len());
    law_strip(suffix, lower(name));
    if r3 is Tunnel {
        assert(r3->label@ + "."@ + lower(apex) =~= r3->label@ + suffix);
    }
}

/// A response ends in its body, and its head says how long the body is.
pub proof fn law_body_is_announced(status: Seq<char>, content_type: Seq<char>, body: Seq<u8>)
    ensures
        exists|front: Seq<char>, back: Seq<char>|
            body_spec(status, content_type, body) == #[trigger] encode_utf8(
                "HTTP/1.1 "@ + status + "\r\n"@ + front + "Content-Length: "@ + dec(body.len())
                    + "\r\n"@ + back + "\r\n"@,
            ) + body,
{
    reveal_strlit("\r\n");
    reveal_strlit("\r\nContent-Type: ");
    reveal_strlit("Content-Type: ");
    reveal_strlit("\r\nContent-Length: ");
    reveal_strlit("Content-Length: ");
    reveal_strlit("\r\nConnection: close\r\n\r\n");
    reveal_strlit("Connection: close\r\n");
    let front = "Content-Type: "@ + content_type + "\r\n"@;
    let back = "Connection: close\r\n"@;
    let head = "HTTP/1.1 "@ + status + "\r\nContent-Type: "@ + content_type
        + "\r\nContent-Length: "@ + dec(body.len()) + "\r\nConnection: close\r\n\r\n"@;
    assert(head =~= "HTTP/1.1 "@ + status + "\r\n"@ + front + "Content-Length: "@ + dec(body.len())
        + "\r\n"@ + back + "\r\n"@);
    assert(body_spec(status, content_type, body) == encode_utf8(
        "HTTP/1.1 "@ + status + "\r\n"@ + front + "Content-Length: "@ + dec(body.len()) + "\r\n"@ + back
            + "\r\n"@,
    ) + body);
}

/// Without a prelude the bytes of a visitor stand right behind the header.
pub proof fn law_bare_preamble_is_the_header(header: DataHeader, bytes: Seq<u8>)
    requires
        !(header.kind is Control),
    ensures
        preamble_spec(header, None).len() == 9,
        DataHeader::parse((preamble_spec(header, None) + bytes).take(9)) == Ok::<
            DataHeader,
            StreamKindError,
        >(header),
        (preamble_spec(header, None) + bytes).skip(9) == bytes,
{
    law_data_header_roundtrip(header);
    let s = preamble_spec(header, None) + bytes;
    assert(s.take(9) =~= header.wire());
    assert(s.skip(9) =~= bytes);
}

/// A TCP visitor is announced exactly on a tunnel that asked for it, by its
/// address and the time, and by no host.
pub proof fn law_tcp_visitor_is_announced(secs: u64, peer: Seq<char>)
    ensures
        tcp_prelude_spec(false, secs, peer) is None,
        tcp_prelude_spec(true, secs, peer) is Some,
        (tcp_prelude_spec(true, secs, peer)->0).peer == peer,
        (tcp_prelude_spec(true, secs, peer)->0).accept_unix_secs == secs,
        (tcp_prelude_spec(true, secs, peer)->0).http is None,
{
}

/// A head is waited for up to 8192 bytes.
pub proof fn law_head_size_is_capped(p: RequestView, len: nat, r: HeadStep)
    requires
        p.status is Partial,
        head_judged(p, len, r),
    ensures
        r is More <==> len <= 8192,
        len > 8192 ==> r is InvalidData && r->InvalidData_0@ == "headers exceed cap"@,
{
}

} // verus!
