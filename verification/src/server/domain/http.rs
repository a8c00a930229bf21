//! Plain-HTTP router: ACME challenges, and tunnels by the `Host` header.

use crate::codec::utf8_text;
use crate::http_parse::{http_request, parse_request, HeaderView, ParseStatus, ParsedRequest, RequestView, StatusView};
use crate::proto::frames::{HttpMetadata, InspectionPrelude, InspectionPreludeView, WireValue};
use crate::proto::framing::{encode_frame, frame_bytes, frame_spec, law_frame_roundtrip, FramingError};
use crate::proto::ids::TunnelId;
use crate::proto::stream::{law_data_header_roundtrip, DataHeader, StreamKind, StreamKindError};
use crate::server::admin_api::header_text;
use crate::text::{
    dec, eq_ignore_ascii_case, lemma_first_at, lower, push_u64, same_str, split, split_spec, strip_prefix,
    strip_prefix_spec, strip_suffix, strip_suffix_spec, to_ascii_lowercase, trim, trim_spec, views,
};
use vstd::prelude::*;
use vstd::string::*;
use vstd::utf8::encode_utf8;

verus! {

/// How many bytes are buffered while looking for the end of the headers.
pub const MAX_HEADER_BYTES: usize = 8 * 1024;

/// How many headers a request may have.
pub const MAX_HEADERS: usize = 64;

/// Where ACME HTTP-01 challenges are asked for.
pub const ACME_PATH_PREFIX: &'static str = "/.well-known/acme-challenge/";

/// What comes of the bytes read so far.
pub enum HeadStep {
    /// Read on.
    More,
    /// The head is complete: the host that it names, and the path.
    Done { host: String, path: String },
    /// The head is malformed or too large; the reason.
    InvalidData(String),
}

/// The value of the first `Host` header; empty when there is none or it is not UTF-8.
pub open spec fn host_in(headers: Seq<HeaderView>) -> Seq<char>
    decreases headers.len(),
{
    if headers.len() == 0 {
        Seq::empty()
    } else if lower(headers[0].name) == lower("host"@) {
        header_text(headers[0].value)
    } else {
        host_in(headers.skip(1))
    }
}

/// What comes of `len` bytes that the parser makes `p` of.
pub open spec fn head_judged(p: RequestView, len: nat, r: HeadStep) -> bool {
    match p.status {
        StatusView::Complete(_) => {
            &&& r is Done
            &&& r->host@ == host_in(p.headers)
            &&& r->path@ == match p.path {
                Some(path) => path,
                None => "/"@,
            }
        },
        StatusView::Partial => if len > MAX_HEADER_BYTES {
            r is InvalidData && r->InvalidData_0@ == "headers exceed cap"@
        } else {
            r is More
        },
        StatusView::Invalid(m) => r is InvalidData && r->InvalidData_0@ == m,
    }
}

fn find_host(p: &ParsedRequest) -> (r: String)
    ensures
        r@ == host_in(p@.headers),
{
    let ghost all = p@.headers;
    assert(all.skip(0) =~= all);
    for i in 0..p.headers.len()
        invariant
            all == p@.headers,
            host_in(all.skip(i as int)) == host_in(all),
    {
        let h = &p.headers[i];
        assert(all.skip(i as int)[0] == h@);
        assert(all.skip(i as int).skip(1) =~= all.skip(i + 1));
        if eq_ignore_ascii_case(h.name.as_str(), "host") {
            return match utf8_text(h.value.as_slice()) {
                Some(t) => t.to_owned(),
                None => String::new(),
            };
        }
    }
    String::new()
}

/// Go on with what the parser made of `len` bytes.
pub fn judge_head(p: &ParsedRequest, len: usize) -> (r: HeadStep)
    ensures
        head_judged(p@, len as nat, r),
{
    match &p.status {
        ParseStatus::Complete(_) => {
            let host = find_host(p);
            let path = match &p.path {
                Some(path) => path.clone(),
                None => "/".to_owned(),
            };
            HeadStep::Done { host, path }
        },
        ParseStatus::Partial => if len > MAX_HEADER_BYTES {
            HeadStep::InvalidData("headers exceed cap".to_owned())
        } else {
            HeadStep::More
        },
        ParseStatus::Invalid(m) => HeadStep::InvalidData(m.clone()),
    }
}

/// What comes of the bytes read so far.
pub fn read_request(buf: &Vec<u8>) -> (r: HeadStep)
    ensures
        head_judged(http_request(buf@, MAX_HEADERS as nat), buf@.len(), r),
{
    let p = parse_request(buf.as_slice(), MAX_HEADERS);
    judge_head(&p, buf.len())
}

/// The label that a host name carries under an apex domain.
pub open spec fn label_spec(name: Seq<char>, apex: Seq<char>) -> Option<Seq<char>> {
    if lower(name) == lower(apex) {
        None
    } else {
        strip_suffix_spec(lower(name), "."@ + lower(apex))
    }
}

/// The label of a host name under an apex domain: what stands before
/// `.<apex>`, in lower case.
pub(crate) fn label_of(name: &str, apex: &str) -> (r: Option<String>)
    ensures
        crate::text::opt_view(r) == label_spec(name@, apex@),
{
    let n = to_ascii_lowercase(name);
    let a = to_ascii_lowercase(apex);
    if same_str(n.as_str(), a.as_str()) {
        return None;
    }
    let suffix = ".".to_owned().concat(a.as_str());
    strip_suffix(n.as_str(), suffix.as_str())
}

/// The host name in a `Host` header: without the port, trimmed.
pub open spec fn host_name(host_header: Seq<char>) -> Seq<char> {
    trim_spec(split_spec(host_header, ':')[0])
}

/// The label that a `Host` header names: `alice` for
/// `alice.krot.example[:port]` under the apex `krot.example`.
pub fn extract_label(host_header: &str, apex: &str) -> (r: Option<String>)
    ensures
        crate::text::opt_view(r) == label_spec(host_name(host_header@), apex@),
{
    let parts = split(host_header, ':');
    proof {
        lemma_first_at(host_header@, ':');
        assert(split_spec(host_header@, ':').len() >= 1);
        assert(views(parts@).len() == parts@.len());
        assert(views(parts@)[0] == parts@[0]@);
    }
    let host = trim(parts[0].as_str());
    label_of(host.as_str(), apex)
}

/// Where a request goes.
pub enum HttpRoute {
    /// Answer the ACME challenge with this token, whatever the host.
    Challenge { token: String },
    /// The tunnel with this label.
    Tunnel { label: String },
    /// No label of this relay is named.
    UnknownHost,
}

/// Whether `r` is where a request with this host and path goes.
pub open spec fn http_routed(host: Seq<char>, path: Seq<char>, apex: Seq<char>, r: HttpRoute) -> bool {
    match strip_prefix_spec(path, ACME_PATH_PREFIX@) {
        Some(token) => r is Challenge && r->token@ == token,
        None => match label_spec(host_name(host), apex) {
            Some(label) => r is Tunnel && r->label@ == label,
            None => r is UnknownHost,
        },
    }
}

/// Where a request with this host and path goes.
pub fn route_request(host: &str, path: &str, apex: &str) -> (r: HttpRoute)
    ensures
        http_routed(host@, path@, apex@, r),
{
    if let Some(token) = strip_prefix(path, ACME_PATH_PREFIX) {
        return HttpRoute::Challenge { token };
    }
    match extract_label(host, apex) {
        Some(label) => HttpRoute::Tunnel { label },
        None => HttpRoute::UnknownHost,
    }
}

/// A response of this kind and body.
pub open spec fn body_spec(status: Seq<char>, content_type: Seq<char>, body: Seq<u8>) -> Seq<u8> {
    encode_utf8(
        "HTTP/1.1 "@ + status + "\r\nContent-Type: "@ + content_type + "\r\nContent-Length: "@ + dec(
            body.len(),
        ) + "\r\nConnection: close\r\n\r\n"@,
    ) + body
}

/// A response of this kind and body.
pub fn write_body(status: &str, content_type: &str, body: &[u8]) -> (r: Vec<u8>)
    ensures
        r@ == body_spec(status@, content_type@, body@),
{
    let mut head = "HTTP/1.1 ".to_owned();
    head.append(status);
    head.append("\r\nContent-Type: ");
    head.append(content_type);
    head.append("\r\nContent-Length: ");
    push_u64(&mut head, body.len() as u64);
    head.append("\r\nConnection: close\r\n\r\n");
    let mut out = head.as_str().as_bytes_vec();
    out.extend_from_slice(body);
    assert(out@ =~= body_spec(status@, content_type@, body@));
    out
}

/// The answer to an ACME challenge, given what is stored for its token.
pub fn challenge_response(stored: Option<&str>) -> (r: Vec<u8>)
    ensures
        r@ == match stored {
            Some(text) => body_spec("200 OK"@, "text/plain"@, encode_utf8(text@)),
            None => body_spec("404 Not Found"@, "text/plain"@, encode_utf8("no such challenge"@)),
        },
{
    match stored {
        Some(text) => write_body("200 OK", "text/plain", text.as_bytes()),
        None => write_body("404 Not Found", "text/plain", "no such challenge".as_bytes()),
    }
}

/// The answer to a request for a host that is not under the apex.
pub fn unknown_host_response() -> (r: Vec<u8>)
    ensures
        r@ == body_spec("404 Not Found"@, "text/plain"@, encode_utf8("unknown host"@)),
{
    write_body("404 Not Found", "text/plain", "unknown host".as_bytes())
}

/// The answer to a request for a label without a tunnel.
pub fn unknown_tunnel_response() -> (r: Vec<u8>)
    ensures
        r@ == body_spec("404 Not Found"@, "text/plain"@, encode_utf8("unknown tunnel"@)),
{
    write_body("404 Not Found", "text/plain", "unknown tunnel".as_bytes())
}

/// What is sent on a Data stream before the bytes of the visitor: the header,
/// and the inspection prelude where the tunnel asked for it.
pub open spec fn preamble_spec(header: DataHeader, prelude: Option<InspectionPreludeView>) -> Seq<u8> {
    match prelude {
        None => header.wire(),
        Some(p) => header.wire() + frame_bytes::<InspectionPrelude>(p),
    }
}

/// What is sent on a Data stream: the preamble, then the bytes `buffered` that
/// were read from the visitor to find the route. Fails when the prelude does
/// not fit a frame.
pub fn open_stream(
    kind: StreamKind,
    tunnel_id: TunnelId,
    prelude: Option<&InspectionPrelude>,
    buffered: &[u8],
) -> (r: Result<Vec<u8>, FramingError>)
    ensures
        match prelude {
            None => r is Ok && r->Ok_0@ == preamble_spec(DataHeader { kind, tunnel_id }, None)
                + buffered@,
            Some(p) => if InspectionPrelude::wire(p@).len() <= crate::proto::consts::MAX_FRAME_SIZE {
                r is Ok && r->Ok_0@ == preamble_spec(DataHeader { kind, tunnel_id }, Some(p@))
                    + buffered@
            } else {
                r == Err::<Vec<u8>, _>(
                    FramingError::FrameTooLarge {
                        size: InspectionPrelude::wire(p@).len() as usize,
                        max: crate::proto::consts::MAX_FRAME_SIZE,
                    },
                )
            },
        },
{
    let header = DataHeader { kind, tunnel_id };
    let bytes = header.to_bytes();
    let mut out = vstd::slice::slice_to_vec(bytes.as_slice());
    if let Some(p) = prelude {
        match encode_frame(p, &mut out) {
            Ok(_) => {},
            Err(e) => return Err(e),
        }
    }
    let ghost head = out@;
    out.extend_from_slice(buffered);
    assert(out@ =~= head + buffered@);
    Ok(out)
}

/// The prelude of a plain-HTTP visitor: the host is known, there is no SNI.
pub fn http_prelude(accept_unix_secs: u64, peer: String, host: String) -> (r: InspectionPrelude)
    ensures
        r@.accept_unix_secs == accept_unix_secs,
        r@.peer == peer@,
        r@.http is Some,
        r@.http->0.host == host@,
        r@.http->0.sni is None,
{
    InspectionPrelude { accept_unix_secs, peer, http: Some(HttpMetadata { host, sni: None }) }
}

/// Whoever reads a Data stream finds the header, then the prelude, then the
/// visitor's bytes.
pub proof fn law_preamble_reads_back(header: DataHeader, prelude: InspectionPrelude, bytes: Seq<u8>)
    requires
        !(header.kind is Control),
        InspectionPrelude::wire(prelude@).len() <= crate::proto::consts::MAX_FRAME_SIZE,
    ensures
        ({
            let s = preamble_spec(header, Some(prelude@)) + bytes;
            let used = frame_bytes::<InspectionPrelude>(prelude@).len();
            &&& DataHeader::parse(s.take(9)) == Ok::<DataHeader, StreamKindError>(header)
            &&& frame_spec::<InspectionPrelude>(s.skip(9)) == Ok::<_, FramingError>((prelude@, used))
            &&& s.skip(9 + used as int) == bytes
        }),
{
    law_data_header_roundtrip(header);
    let f = frame_bytes::<InspectionPrelude>(prelude@);
    let s = preamble_spec(header, Some(prelude@)) + bytes;
    assert(s.take(9) =~= header.wire());
    assert(s.skip(9) =~= f + bytes);
    law_frame_roundtrip(prelude, bytes);
    assert(s.skip(9 + f.len() as int) =~= bytes);
}

/// A host made of a label and the apex gives the label back, in lower case.
pub proof fn law_label_of_host(label: Seq<char>, apex: Seq<char>)
    ensures
        label_spec(label + "."@ + apex, apex) == Some(lower(label)),
{
    reveal_strlit(".");
    let name = label + "."@ + apex;
    let suffix = "."@ + lower(apex);
    assert(lower(name).len() == lower(apex).len() + 1 + label.len());
    assert(lower(name) =~= lower(label) + suffix);
    assert(lower(name).skip(lower(name).len() - suffix.len()) =~= suffix);
    assert(lower(name).take(lower(name).len() - suffix.len()) =~= lower(label));
}

/// The apex itself, in any case, names no label.
pub proof fn law_apex_has_no_label(name: Seq<char>, apex: Seq<char>)
    requires
        lower(name) == lower(apex),
    ensures
        label_spec(name, apex) is None,
{
}

} // verus!
