//! HTTP/1 heads as the `httparse` crate reads them, in plain values.

use vstd::prelude::*;

verus! {

/// How far a head was parsed.
#[derive(Debug, Clone, PartialEq, Eq)]
pub enum ParseStatus {
    /// The head is complete and ends at this offset.
    Complete(usize),
    /// More bytes are needed.
    Partial,
    /// The head is malformed; the parser's message.
    Invalid(String),
}

/// A request head, as far as it was parsed.
#[derive(Debug, Clone, PartialEq, Eq)]
pub struct ParsedRequest {
    pub status: ParseStatus,
    pub method: Option<String>,
    pub path: Option<String>,
    pub headers: Vec<Header>,
}

/// One header: its name and its raw value.
#[derive(Debug, Clone, PartialEq, Eq)]
pub struct Header {
    pub name: String,
    pub value: Vec<u8>,
}

/// What a [`ParseStatus`] says.
pub enum StatusView {
    Complete(usize),
    Partial,
    Invalid(Seq<char>),
}

/// What a [`Header`] says.
pub struct HeaderView {
    pub name: Seq<char>,
    pub value: Seq<u8>,
}

/// What a [`ParsedRequest`] says.
pub struct RequestView {
    pub status: StatusView,
    pub method: Option<Seq<char>>,
    pub path: Option<Seq<char>>,
    pub headers: Seq<HeaderView>,
}

impl View for ParseStatus {
    type V = StatusView;

    open spec fn view(&self) -> StatusView {
        match *self {
            ParseStatus::Complete(n) => StatusView::Complete(n),
            ParseStatus::Partial => StatusView::Partial,
            ParseStatus::Invalid(m) => StatusView::Invalid(m@),
        }
    }
}

impl View for Header {
    type V = HeaderView;

    open spec fn view(&self) -> HeaderView {
        HeaderView { name: self.name@, value: self.value@ }
    }
}

/// The views of a list of headers.
pub open spec fn header_views(s: Seq<Header>) -> Seq<HeaderView> {
    Seq::new(s.len(), |i: int| s[i]@)
}

impl View for ParsedRequest {
    type V = RequestView;

    open spec fn view(&self) -> RequestView {
        RequestView {
            status: self.status@,
            method: crate::text::opt_view(self.method),
            path: crate::text::opt_view(self.path),
            headers: header_views(self.headers@),
        }
    }
}

/// What the parser makes of a request head, with room for `max` headers.
pub uninterp spec fn http_request(buf: Seq<u8>, max: nat) -> RequestView;

/// The status code that the parser finds in a response head, with room for
/// `max` headers, and how far it came.
pub uninterp spec fn http_response(buf: Seq<u8>, max: nat) -> (StatusView, Option<u16>);

/// `httparse::Request::parse`. A complete head ends within the buffer.
#[verifier::external_body]
pub(crate) fn parse_request(buf: &[u8], max: usize) -> (r: ParsedRequest)
    requires
        max <= 64,
    ensures
        r@ == http_request(buf@, max as nat),
        r.status matches ParseStatus::Complete(n) ==> n <= buf@.len(),
{
    let mut room = vec![httparse::EMPTY_HEADER; max];
    let mut req = httparse::Request::new(&mut room);
    let status = match req.parse(buf) {
        Ok(httparse::Status::Complete(n)) => ParseStatus::Complete(n),
        Ok(httparse::Status::Partial) => ParseStatus::Partial,
        Err(e) => ParseStatus::Invalid(e.to_string()),
    };
    let headers = req.headers.iter().map(
        |h| Header { name: h.name.to_string(), value: h.value.to_vec() },
    ).collect();
    let (method, path) = (req.method.map(str::to_string), req.path.map(str::to_string));
    ParsedRequest { status, method, path, headers }
}

/// `httparse::Response::parse`. A complete head ends within the buffer.
#[verifier::external_body]
pub(crate) fn parse_response(buf: &[u8], max: usize) -> (r: (ParseStatus, Option<u16>))
    requires
        max <= 64,
    ensures
        (r.0@, r.1) == http_response(buf@, max as nat),
        r.0 matches ParseStatus::Complete(n) ==> n <= buf@.len(),
{
    let mut room = vec![httparse::EMPTY_HEADER; max];
    let mut resp = httparse::Response::new(&mut room);
    let status = match resp.parse(buf) {
        Ok(httparse::Status::Complete(n)) => ParseStatus::Complete(n),
        Ok(httparse::Status::Partial) => ParseStatus::Partial,
        Err(e) => ParseStatus::Invalid(e.to_string()),
    };
    (status, resp.code)
}

/// Whether a blank line stands at the front: CR LF CR LF.
pub open spec fn blank_line(s: Seq<u8>) -> bool {
    s.len() >= 4 && s[0] == 0x0d && s[1] == 0x0a && s[2] == 0x0d && s[3] == 0x0a
}

/// Where the first blank line ends, and with it the head.
pub open spec fn head_end(s: Seq<u8>) -> Option<int>
    decreases s.len(),
{
    if s.len() < 4 {
        None
    } else if blank_line(s) {
        Some(4)
    } else {
        match head_end(s.skip(1)) {
            Some(n) => Some(n + 1),
            None => None,
        }
    }
}

/// Where the head in `buf` ends: behind the first blank line.
pub fn headers_end(buf: &[u8]) -> (r: Option<usize>)
    ensures
        match r {
            Some(n) => head_end(buf@) == Some(n as int) && 4 <= n <= buf@.len(),
            None => head_end(buf@) is None,
        },
{
    let ghost all = buf@;
    let mut i: usize = 0;
    assert(all.skip(0) =~= all);
    while buf.len() - i >= 4
        invariant
            all == buf@,
            i <= all.len(),
            head_end(all) == match head_end(all.skip(i as int)) {
                Some(n) => Some(n + i),
                None => None,
            },
        decreases all.len() - i,
    {
        assert(all.skip(i as int).skip(1) =~= all.skip(i + 1));
        if buf[i] == 0x0d && buf[i + 1] == 0x0a && buf[i + 2] == 0x0d && buf[i + 3] == 0x0a {
            assert(blank_line(all.skip(i as int)));
            return Some(i + 4);
        }
        assert(!blank_line(all.skip(i as int)));
        i += 1;
    }
    None
}

} // verus!
