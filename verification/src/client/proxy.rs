//! What a Data stream's machine asks of the bytes it has read: the header, the
//! end of a head, a request's method and path, a response's status, and what
//! the policy says of a request.

use crate::client::error::ClientError;
use crate::client::local_auth::{
    api_key_reject_response, api_key_reject_spec, api_key_spec, path_only, ActionView, AuthPolicy, Outcome,
    SessionAction,
};
use crate::client::login_page::{
    html_response_spec, http_html_response, http_redirect, page_spec, redirect_spec, render_login_page, LOGIN_BODY_CAP,
    LOGIN_PATH,
};
use crate::codec::utf8_text;
use crate::http_parse::{
    head_end, header_views, headers_end, http_request, http_response, parse_request, parse_response, Header, HeaderView,
    ParseStatus, ParsedRequest, RequestView, StatusView,
};
use crate::proto::ids::TunnelId;
use crate::proto::stream::DataHeader;
use crate::server::domain::http::{body_spec, write_body};
use crate::text::{
    chars_of, cut_first, dec_value, eq_ignore_ascii_case, has_prefix, is_digit_spec, lower, opt_view, parse_uint,
    same_str, split_once, starts_with, trim, trim_spec, uint_spec,
};
use vstd::prelude::*;
use vstd::string::*;
use vstd::utf8::{decode_utf8, encode_utf8, valid_utf8};

verus! {

/// How many bytes are buffered while looking for the end of the headers.
pub const INSPECT_HEADER_CAP: usize = 8 * 1024;

/// How many headers a request or a response may have.
pub const MAX_HEADERS: usize = 32;

/// Check the header of a Data stream: its kind, and that it is for the tunnel
/// that was registered.
pub fn check_header(bytes: &[u8; 9], expected: TunnelId) -> (r: Result<DataHeader, ClientError>)
    ensures
        r == match DataHeader::parse(bytes@) {
            Err(_) => Err::<DataHeader, ClientError>(
                ClientError::Protocol("bad DataHeader from server"),
            ),
            Ok(h) => if h.tunnel_id != expected {
                Err(ClientError::Protocol("wrong tunnel id on data stream"))
            } else {
                Ok(h)
            },
        },
{
    let header = match DataHeader::decode(bytes) {
        Ok(h) => h,
        Err(_) => return Err(ClientError::Protocol("bad DataHeader from server")),
    };
    if header.tunnel_id.0 != expected.0 {
        return Err(ClientError::Protocol("wrong tunnel id on data stream"));
    }
    Ok(header)
}

/// The value of three ASCII digits at the front of `s`, where the text ends or
/// goes on with another character than a digit.
pub open spec fn three_digits(s: Seq<char>) -> Option<nat> {
    if s.len() >= 3 && is_digit_spec(s[0]) && is_digit_spec(s[1]) && is_digit_spec(s[2]) && !(s.len()
        > 3 && is_digit_spec(s[3])) {
        Some(dec_value(s.take(3)))
    } else {
        None
    }
}

/// The code in the status line of an HTTP response, a number of three digits
/// behind the first space. Only the first 64 bytes are looked at.
pub open spec fn status_line(bytes: Seq<u8>) -> Option<nat> {
    let head = if bytes.len() <= 64 {
        bytes
    } else {
        bytes.take(64)
    };
    if !valid_utf8(head) || !has_prefix(decode_utf8(head), "HTTP/"@) {
        None
    } else {
        match cut_first(decode_utf8(head), ' ') {
            None => None,
            Some((_, rest)) => three_digits(rest),
        }
    }
}

fn digit(c: char) -> (r: bool)
    ensures
        r == is_digit_spec(c),
{
    '0' <= c && c <= '9'
}

/// The code in the status line of an HTTP response; `None` when the buffer does
/// not start with one, or the code is not a number of three digits.
pub fn parse_status_line(bytes: &[u8]) -> (r: Option<u16>)
    ensures
        match status_line(bytes@) {
            Some(n) => r == Some(n as u16) && n < 1000,
            None => r is None,
        },
{
    let n: usize = if bytes.len() <= 64 {
        bytes.len()
    } else {
        64
    };
    let head = vstd::slice::slice_subrange(bytes, 0, n);
    assert(head@ =~= if bytes@.len() <= 64 {
        bytes@
    } else {
        bytes@.take(64)
    });
    let s = match utf8_text(head) {
        Some(s) => s,
        None => return None,
    };
    if !starts_with(s, "HTTP/") {
        return None;
    }
    match split_once(s, ' ') {
        None => None,
        Some((_, rest)) => {
            let cs = chars_of(rest.as_str());
            if cs.len() < 3 || !digit(cs[0]) || !digit(cs[1]) || !digit(cs[2]) || (cs.len() > 3
                && digit(cs[3])) {
                return None;
            }
            proof {
                let d = rest@.take(3);
                assert(d.drop_last() =~= rest@.take(2));
                assert(d.drop_last().drop_last() =~= rest@.take(1));
                assert(d.drop_last().drop_last().drop_last() =~= Seq::empty());
                reveal_with_fuel(dec_value, 5);
            }
            let hundreds: u16 = cs[0] as u16 - 0x30;
            let tens: u16 = cs[1] as u16 - 0x30;
            let ones: u16 = cs[2] as u16 - 0x30;
            Some(hundreds * 100 + tens * 10 + ones)
        },
    }
}

/// The answer to a request that cannot be read.
pub open spec fn bad_request_spec() -> Seq<u8> {
    body_spec("400 Bad Request"@, "text/plain"@, encode_utf8("Bad Request"@))
}

/// The answer to a request that cannot be read.
pub fn bad_request_response() -> (r: Vec<u8>)
    ensures
        r@ == bad_request_spec(),
{
    write_body("400 Bad Request", "text/plain", "Bad Request".as_bytes())
}

/// How much of a chunk belongs to a body that ends at `target`.
pub open spec fn body_share(have: nat, target: int, chunk: Seq<u8>) -> Seq<u8> {
    if have + chunk.len() <= target {
        chunk
    } else if have >= target {
        Seq::empty()
    } else {
        chunk.take(target - have)
    }
}

/// Extend `buf` by a chunk, up to `target` bytes. Says whether nothing more is
/// to be read: the target is reached, or the chunk is the empty one of a
/// stream that has ended.
pub fn read_exact_into(buf: &mut Vec<u8>, target: usize, chunk: &[u8]) -> (done: bool)
    ensures
        final(buf)@ == old(buf)@ + body_share(old(buf)@.len(), target as int, chunk@),
        done == (chunk@.len() == 0 || final(buf)@.len() >= target),
{
    let have: usize = buf.len();
    let ghost pre = buf@;
    if have >= target {
        assert(buf@ =~= pre + body_share(pre.len(), target as int, chunk@));
        return true;
    }
    let room: usize = target - have;
    if chunk.len() <= room {
        buf.extend_from_slice(chunk);
        assert(buf@ =~= pre + chunk@);
    } else {
        let share = vstd::slice::slice_subrange(chunk, 0, room);
        buf.extend_from_slice(share);
        assert(buf@ =~= pre + body_share(pre.len(), target as int, chunk@));
    }
    chunk.len() == 0 || buf.len() >= target
}

/// What comes of looking for the end of the headers.
#[derive(Debug, Clone, Copy, PartialEq, Eq, Structural)]
pub enum HeadPeek {
    /// Read on.
    More,
    /// The head ends here.
    End(usize),
    /// There is no head: too many bytes without one, or the stream has ended.
    Malformed,
}

/// What comes of looking for the end of the headers in `buf`; `eof` when
/// nothing more will come.
pub open spec fn head_peeked(buf: Seq<u8>, cap: nat, eof: bool) -> HeadPeek {
    match head_end(buf) {
        Some(n) => HeadPeek::End(n as usize),
        None => if eof || buf.len() >= cap {
            HeadPeek::Malformed
        } else {
            HeadPeek::More
        },
    }
}

/// Look for the end of the headers in what was read so far; `eof` when nothing
/// more will come.
pub fn peek_until_headers(buf: &Vec<u8>, cap: usize, eof: bool) -> (r: HeadPeek)
    ensures
        r == head_peeked(buf@, cap as nat, eof),
        match head_end(buf@) {
            Some(n) => r is End && r->End_0 == n && 4 <= n <= buf@.len(),
            None => r == if eof || buf@.len() >= cap {
                HeadPeek::Malformed
            } else {
                HeadPeek::More
            },
        },
{
    match headers_end(buf.as_slice()) {
        Some(n) => HeadPeek::End(n),
        None => if eof || buf.len() >= cap {
            HeadPeek::Malformed
        } else {
            HeadPeek::More
        },
    }
}

/// Whether more of a head is to be read for the inspector.
pub open spec fn peeks_on(buf: Seq<u8>, eof: bool) -> bool {
    !eof && head_end(buf) is None && buf.len() <= INSPECT_HEADER_CAP
}

pub(crate) fn peek_more(buf: &Vec<u8>, eof: bool) -> (r: bool)
    ensures
        r == peeks_on(buf@, eof),
{
    !eof && headers_end(buf.as_slice()).is_none() && buf.len() <= INSPECT_HEADER_CAP
}

/// The method and the path that the inspector shows for a request: none when
/// it is malformed.
pub open spec fn shown_line(p: RequestView) -> (Option<Seq<char>>, Option<Seq<char>>) {
    if p.status is Invalid {
        (None, None)
    } else {
        (p.method, p.path)
    }
}

/// The status that the inspector shows for a response: none when it is malformed.
pub open spec fn shown_status(p: (StatusView, Option<u16>)) -> Option<u16> {
    if p.0 is Invalid {
        None
    } else {
        p.1
    }
}

fn copy_text(t: &Option<String>) -> (r: Option<String>)
    ensures
        opt_view(r) == opt_view(*t),
{
    match t {
        Some(s) => Some(s.clone()),
        None => None,
    }
}

/// The method and the path that the inspector shows for a request.
pub fn request_line(p: &ParsedRequest) -> (r: (Option<String>, Option<String>))
    ensures
        (opt_view(r.0), opt_view(r.1)) == shown_line(p@),
{
    match &p.status {
        ParseStatus::Invalid(_) => (None, None),
        _ => (copy_text(&p.method), copy_text(&p.path)),
    }
}

/// The method and the path of the request in `buf`, as far as it was read.
pub fn peek_request(buf: &Vec<u8>) -> (r: (Option<String>, Option<String>))
    ensures
        (opt_view(r.0), opt_view(r.1)) == shown_line(http_request(buf@, MAX_HEADERS as nat)),
{
    let p = parse_request(buf.as_slice(), MAX_HEADERS);
    request_line(&p)
}

/// The status that the inspector shows for a parsed response.
pub fn response_status(status: &ParseStatus, code: Option<u16>) -> (r: Option<u16>)
    ensures
        r == shown_status((status@, code)),
{
    match status {
        ParseStatus::Invalid(_) => None,
        _ => code,
    }
}

/// The status of the response in `buf`, as far as it was read.
pub fn peek_response(buf: &Vec<u8>) -> (r: Option<u16>)
    ensures
        r == shown_status(http_response(buf@, MAX_HEADERS as nat)),
{
    let (status, code) = parse_response(buf.as_slice(), MAX_HEADERS);
    response_status(&status, code)
}

/// The body length that the first `Content-Length` header announces: 0 when
/// there is none or it is no number.
pub open spec fn announced_length(headers: Seq<HeaderView>) -> nat
    decreases headers.len(),
{
    if headers.len() == 0 {
        0
    } else if lower(headers[0].name) == lower("content-length"@) {
        if valid_utf8(headers[0].value) {
            match uint_spec(trim_spec(decode_utf8(headers[0].value)), usize::MAX as nat) {
                Some(n) => n,
                None => 0,
            }
        } else {
            0
        }
    } else {
        announced_length(headers.skip(1))
    }
}

fn content_length(headers: &Vec<Header>) -> (r: usize)
    ensures
        r == announced_length(header_views(headers@)),
{
    let ghost all = header_views(headers@);
    assert(all.skip(0) =~= all);
    for i in 0..headers.len()
        invariant
            all == header_views(headers@),
            announced_length(all.skip(i as int)) == announced_length(all),
    {
        let h = &headers[i];
        assert(all.skip(i as int)[0] == h@);
        assert(all.skip(i as int).skip(1) =~= all.skip(i + 1));
        if eq_ignore_ascii_case(h.name.as_str(), "content-length") {
            return match utf8_text(h.value.as_slice()) {
                Some(t) => match parse_uint(trim(t).as_str(), usize::MAX as u64) {
                    Some(n) => n as usize,
                    None => 0,
                },
                None => 0,
            };
        }
    }
    0
}

/// The method of a request; empty when the head has none.
pub open spec fn method_of(p: RequestView) -> Seq<char> {
    match p.method {
        Some(m) => m,
        None => Seq::empty(),
    }
}

/// The path of a request; `/` when the head has none.
pub open spec fn path_of(p: RequestView) -> Seq<char> {
    match p.path {
        Some(s) => s,
        None => "/"@,
    }
}

/// Whether a request posts the login form.
pub open spec fn is_login_post(p: RequestView) -> bool {
    lower(method_of(p)) == lower("POST"@) && path_only(path_of(p)) == LOGIN_PATH@
}

/// How far a request is read before it is decided on: to the end of the head,
/// and for a login to the end of the form, up to a limit.
pub open spec fn read_target(p: RequestView, end: int) -> int {
    if is_login_post(p) {
        let n = announced_length(p.headers);
        let t = end + if n <= LOGIN_BODY_CAP {
            n as int
        } else {
            LOGIN_BODY_CAP as int
        };
        if t <= usize::MAX {
            t
        } else {
            usize::MAX as int
        }
    } else {
        end
    }
}

/// What a policy says of a request head.
pub enum AuthPlan {
    /// Let the request through.
    Forward,
    /// Answer with this response.
    Respond(Vec<u8>),
    /// Read up to here, then ask the session policy.
    Session { target: usize },
}

/// What an [`AuthPlan`] says.
pub enum PlanView {
    Forward,
    Respond(Seq<u8>),
    Session { target: int },
}

impl View for AuthPlan {
    type V = PlanView;

    open spec fn view(&self) -> PlanView {
        match *self {
            AuthPlan::Forward => PlanView::Forward,
            AuthPlan::Respond(b) => PlanView::Respond(b@),
            AuthPlan::Session { target } => PlanView::Session { target: target as int },
        }
    }
}

/// What a policy says of a request whose head ends at `end`. A malformed head
/// is never let through.
pub open spec fn plan_spec(policy: AuthPolicy, p: RequestView, end: int) -> PlanView {
    if p.status is Invalid {
        PlanView::Respond(bad_request_spec())
    } else {
        match policy {
            AuthPolicy::ApiKey { key } => if api_key_spec(key@, p.headers, false) == Outcome::Accepted {
                PlanView::Forward
            } else {
                PlanView::Respond(api_key_reject_spec())
            },
            AuthPolicy::Session { .. } => PlanView::Session { target: read_target(p, end) },
        }
    }
}

fn text_or(o: &Option<String>, default: &str) -> (r: String)
    ensures
        r@ == match *o {
            Some(s) => s@,
            None => default@,
        },
{
    match o {
        Some(s) => s.clone(),
        None => default.to_owned(),
    }
}

pub(crate) fn head_line(p: &ParsedRequest) -> (r: (String, String))
    ensures
        r.0@ == method_of(p@),
        r.1@ == path_of(p@),
{
    proof {
        reveal_strlit("");
        assert(""@ =~= Seq::<char>::empty());
    }
    (text_or(&p.method, ""), text_or(&p.path, "/"))
}

/// What a policy says of a request whose head ends at `end`.
pub fn plan_auth(policy: &AuthPolicy, p: &ParsedRequest, end: usize) -> (r: AuthPlan)
    ensures
        r@ == plan_spec(*policy, p@, end as int),
{
    if let ParseStatus::Invalid(_) = &p.status {
        return AuthPlan::Respond(bad_request_response());
    }
    match policy {
        AuthPolicy::ApiKey { .. } => match policy.check_api_key(&p.headers) {
            Outcome::Accepted => AuthPlan::Forward,
            _ => AuthPlan::Respond(api_key_reject_response()),
        },
        AuthPolicy::Session { .. } => {
            let (method, path) = head_line(p);
            let bare = match split_once(path.as_str(), '?') {
                Some((b, _)) => b,
                None => path,
            };
            if eq_ignore_ascii_case(method.as_str(), "POST") && same_str(bare.as_str(), LOGIN_PATH) {
                let announced = content_length(&p.headers);
                let n: usize = if announced <= LOGIN_BODY_CAP {
                    announced
                } else {
                    LOGIN_BODY_CAP
                };
                let target: usize = if n <= usize::MAX - end {
                    end + n
                } else {
                    usize::MAX
                };
                AuthPlan::Session { target }
            } else {
                AuthPlan::Session { target: end }
            }
        },
    }
}

/// The response that a session decision stands for; `None` when the request
/// goes through.
pub open spec fn reply_of(a: ActionView) -> Option<Seq<u8>> {
    match a {
        ActionView::Forward => None,
        ActionView::ServeLoginPage { next, error } => Some(html_response_spec(page_spec(next, error))),
        ActionView::Redirect { location, set_cookie } => Some(redirect_spec(location, set_cookie)),
    }
}

/// The response that a session decision stands for.
pub fn render_action(a: &SessionAction) -> (r: Option<Vec<u8>>)
    ensures
        match reply_of(a@) {
            Some(b) => r is Some && r->0@ == b,
            None => r is None,
        },
{
    match a {
        SessionAction::Forward => None,
        SessionAction::ServeLoginPage { next, error } => {
            let message = match error {
                Some(e) => Some(*e),
                None => None,
            };
            let html = render_login_page(next.as_str(), message);
            Some(http_html_response(html.as_str()))
        },
        SessionAction::Redirect { location, set_cookie } => {
            let cookie = match set_cookie {
                Some(c) => Some(c.as_str()),
                None => None,
            };
            Some(http_redirect(location.as_str(), cookie))
        },
    }
}

} // verus!
