//! TLS `ClientHello` reader: the server name and the ALPN identifiers.
//!
//! Only the first record is read, and it is kept unmodified so that it can be
//! replayed upstream.

use crate::codec::{no_ascii_capital, to_lowercase, unicode_lower, utf8_text};
use crate::text::lower;
use crate::server::error::ServerError;
use vstd::prelude::*;
use vstd::string::*;
use vstd::utf8::{decode_utf8, is_ascii_chars, valid_utf8};

verus! {

/// The longest TLS record.
pub const MAX_HELLO: usize = 16 * 1024;

/// What was read of a `ClientHello`.
#[derive(Debug, Clone, PartialEq, Eq)]
pub struct SniPeek {
    pub server_name: String,
    /// ALPN identifiers that the client offers, in order.
    pub alpn: Vec<Vec<u8>>,
    /// The bytes read so far, to be forwarded verbatim.
    pub buffered: Vec<u8>,
}

/// A value taken off the front of a byte sequence, or the reason why not.
pub type Taken<V> = Result<(V, Seq<u8>), Seq<char>>;

/// `n` bytes.
pub open spec fn take_bytes(s: Seq<u8>, n: nat) -> Taken<Seq<u8>> {
    if s.len() < n {
        Err("truncated ClientHello field"@)
    } else {
        Ok((s.take(n as int), s.skip(n as int)))
    }
}

/// A big-endian number.
pub open spec fn be_value(s: Seq<u8>) -> nat
    decreases s.len(),
{
    if s.len() == 0 {
        0
    } else {
        256 * be_value(s.drop_last()) + s.last() as nat
    }
}

/// A big-endian number of `k` bytes.
pub open spec fn take_num(s: Seq<u8>, k: nat) -> Taken<nat> {
    match take_bytes(s, k) {
        Ok((b, rest)) => Ok((be_value(b), rest)),
        Err(e) => Err(e),
    }
}

/// A byte string behind its length of `k` bytes.
pub open spec fn take_vec(s: Seq<u8>, k: nat) -> Taken<Seq<u8>> {
    match take_num(s, k) {
        Ok((n, rest)) => take_bytes(rest, n),
        Err(e) => Err(e),
    }
}

/// What is left after a byte string is shorter by its length field at least.
pub proof fn lemma_taken_shrinks(s: Seq<u8>, k: nat)
    ensures
        take_vec(s, k) matches Ok((_, rest)) ==> rest.len() + k <= s.len(),
{
}

/// The first host name in a list of server names, as the client wrote it.
pub open spec fn first_host(list: Seq<u8>) -> Result<Seq<char>, Seq<char>>
    decreases list.len(),
{
    if list.len() == 0 {
        Err("no host_name in SNI extension"@)
    } else {
        let kind = list[0];
        match take_vec(list.skip(1), 2) {
            Err(e) => Err(e),
            Ok((name, rest)) => if kind == 0 {
                if valid_utf8(name) {
                    Ok(decode_utf8(name))
                } else {
                    Err("non-utf8 SNI"@)
                }
            } else {
                proof {
                    lemma_taken_shrinks(list.skip(1), 2);
                }
                first_host(rest)
            },
        }
    }
}

/// The host name in the data of an SNI extension.
pub open spec fn sni_spec(data: Seq<u8>) -> Result<Seq<char>, Seq<char>> {
    match take_vec(data, 2) {
        Err(e) => Err(e),
        Ok((list, _)) => first_host(list),
    }
}

/// The identifiers in an ALPN list.
pub open spec fn alpn_list(list: Seq<u8>) -> Result<Seq<Seq<u8>>, Seq<char>>
    decreases list.len(),
{
    if list.len() == 0 {
        Ok(Seq::empty())
    } else {
        match take_vec(list, 1) {
            Err(e) => Err(e),
            Ok((name, rest)) => {
                proof {
                    lemma_taken_shrinks(list, 1);
                }
                match alpn_list(rest) {
                    Err(e) => Err(e),
                    Ok(names) => Ok(seq![name] + names),
                }
            },
        }
    }
}

/// The identifiers in the data of an ALPN extension.
pub open spec fn alpn_spec(data: Seq<u8>) -> Result<Seq<Seq<u8>>, Seq<char>> {
    match take_vec(data, 2) {
        Err(e) => Err(e),
        Ok((list, _)) => alpn_list(list),
    }
}

/// What the extensions say, when those read so far gave `name` and `alpn`. Of
/// two extensions of one kind the later counts.
pub open spec fn extensions_spec(
    s: Seq<u8>,
    name: Option<Seq<char>>,
    alpn: Seq<Seq<u8>>,
) -> Result<(Option<Seq<char>>, Seq<Seq<u8>>), Seq<char>>
    decreases s.len(),
{
    if s.len() == 0 {
        Ok((name, alpn))
    } else {
        match take_num(s, 2) {
            Err(e) => Err(e),
            Ok((kind, s1)) => match take_vec(s1, 2) {
                Err(e) => Err(e),
                Ok((data, rest)) => {
                    proof {
                        lemma_taken_shrinks(s1, 2);
                    }
                    if kind == 0x0000 {
                        match sni_spec(data) {
                            Err(e) => Err(e),
                            Ok(host) => extensions_spec(rest, Some(host), alpn),
                        }
                    } else if kind == 0x0010 {
                        match alpn_spec(data) {
                            Err(e) => Err(e),
                            Ok(ids) => extensions_spec(rest, name, ids),
                        }
                    } else {
                        extensions_spec(rest, name, alpn)
                    }
                },
            },
        }
    }
}

/// The extensions in the body of a `ClientHello`: behind the version and the
/// random, and the session id, cipher suites and compression methods.
pub open spec fn hello_extensions(body: Seq<u8>) -> Result<Seq<u8>, Seq<char>> {
    match take_bytes(body, 34) {
        Err(e) => Err(e),
        Ok((_, s)) => match take_vec(s, 1) {
            Err(e) => Err(e),
            Ok((_, s)) => match take_vec(s, 2) {
                Err(e) => Err(e),
                Ok((_, s)) => match take_vec(s, 1) {
                    Err(e) => Err(e),
                    Ok((_, s)) => match take_vec(s, 2) {
                        Err(e) => Err(e),
                        Ok((exts, _)) => Ok(exts),
                    },
                },
            },
        },
    }
}

/// The server name, as the client wrote it, and the ALPN identifiers of a
/// handshake message.
pub open spec fn hello_spec(fragment: Seq<u8>) -> Result<(Seq<char>, Seq<Seq<u8>>), Seq<char>> {
    if fragment.len() == 0 {
        Err("truncated ClientHello field"@)
    } else if fragment[0] != 0x01 {
        Err("not a ClientHello"@)
    } else {
        match take_vec(fragment.skip(1), 3) {
            Err(e) => Err(e),
            Ok((body, _)) => match hello_extensions(body) {
                Err(e) => Err(e),
                Ok(exts) => match extensions_spec(exts, None, Seq::empty()) {
                    Err(e) => Err(e),
                    Ok((None, _)) => Err("no SNI extension in ClientHello"@),
                    Ok((Some(name), alpn)) => Ok((name, alpn)),
                },
            },
        }
    }
}

/// Whether `name` is `host` in lower case: an ASCII name with its letters
/// lowered, any other by the Unicode mapping, and none with an ASCII capital.
pub open spec fn lowered(host: Seq<char>, name: Seq<char>) -> bool {
    &&& name == unicode_lower(host)
    &&& is_ascii_chars(host) ==> name == lower(host)
    &&& no_ascii_capital(name)
}

/// The views of a list of byte strings.
pub open spec fn byte_views(v: Seq<Vec<u8>>) -> Seq<Seq<u8>> {
    Seq::new(v.len(), |i: int| v[i]@)
}

/// Whether `e` is the protocol error with this message.
pub open spec fn is_protocol(e: ServerError, message: Seq<char>) -> bool {
    e matches ServerError::Protocol(m) && m@ == message
}

fn take<'a>(s: &'a [u8], n: usize) -> (r: Result<(&'a [u8], &'a [u8]), ServerError>)
    ensures
        match take_bytes(s@, n as nat) {
            Ok((b, rest)) => r is Ok && r->Ok_0.0@ == b && r->Ok_0.1@ == rest,
            Err(e) => r is Err && is_protocol(r->Err_0, e),
        },
{
    if s.len() < n {
        return Err(ServerError::Protocol("truncated ClientHello field"));
    }
    let b = vstd::slice::slice_subrange(s, 0, n);
    let rest = vstd::slice::slice_subrange(s, n, s.len());
    assert(b@ =~= s@.take(n as int));
    assert(rest@ =~= s@.skip(n as int));
    Ok((b, rest))
}

fn take_be<'a>(s: &'a [u8], k: usize) -> (r: Result<(usize, &'a [u8]), ServerError>)
    requires
        k <= 3,
    ensures
        match take_num(s@, k as nat) {
            Ok((n, rest)) => r is Ok && r->Ok_0.0 == n && r->Ok_0.1@ == rest,
            Err(e) => r is Err && is_protocol(r->Err_0, e),
        },
{
    let (b, rest) = match take(s, k) {
        Ok(p) => p,
        Err(e) => return Err(e),
    };
    let mut n: usize = 0;
    let ghost mut cap: nat = 1;
    assert(b@.take(0) =~= Seq::empty());
    for i in 0..k
        invariant
            k <= 3,
            b@.len() == k,
            n == be_value(b@.take(i as int)),
            i == 0 ==> n < 1,
            i == 1 ==> n < 256,
            i == 2 ==> n < 65536,
            i == 3 ==> n < 16777216,
    {
        assert(b@.take(i + 1).drop_last() =~= b@.take(i as int));
        n = 256 * n + b[i] as usize;
    }
    assert(b@.take(k as int) =~= b@);
    Ok((n, rest))
}

fn take_string<'a>(s: &'a [u8], k: usize) -> (r: Result<(&'a [u8], &'a [u8]), ServerError>)
    requires
        k <= 3,
    ensures
        match take_vec(s@, k as nat) {
            Ok((b, rest)) => r is Ok && r->Ok_0.0@ == b && r->Ok_0.1@ == rest,
            Err(e) => r is Err && is_protocol(r->Err_0, e),
        },
{
    let (n, rest) = match take_be(s, k) {
        Ok(p) => p,
        Err(e) => return Err(e),
    };
    take(rest, n)
}

fn parse_sni_extension(data: &[u8]) -> (r: Result<String, ServerError>)
    ensures
        match sni_spec(data@) {
            Ok(name) => r is Ok && r->Ok_0@ == name,
            Err(e) => r is Err && is_protocol(r->Err_0, e),
        },
{
    let (first, _rest) = match take_string(data, 2) {
        Ok(p) => p,
        Err(e) => return Err(e),
    };
    let mut list = first;
    while list.len() > 0
        invariant
            first_host(list@) == sni_spec(data@),
        decreases list@.len(),
    {
        let kind = list[0];
        let tail = vstd::slice::slice_subrange(list, 1, list.len());
        assert(tail@ =~= list@.skip(1));
        let (name, rest) = match take_string(tail, 2) {
            Ok(p) => p,
            Err(e) => return Err(e),
        };
        if kind == 0 {
            return match utf8_text(name) {
                Some(text) => Ok(text.to_owned()),
                None => Err(ServerError::Protocol("non-utf8 SNI")),
            };
        }
        list = rest;
    }
    Err(ServerError::Protocol("no host_name in SNI extension"))
}

/// `names` put before identifiers that are still to be read.
spec fn behind(
    names: Seq<Seq<u8>>,
    read: Result<Seq<Seq<u8>>, Seq<char>>,
) -> Result<Seq<Seq<u8>>, Seq<char>> {
    match read {
        Ok(more) => Ok(names + more),
        Err(e) => Err(e),
    }
}

fn parse_alpn_extension(data: &[u8]) -> (r: Result<Vec<Vec<u8>>, ServerError>)
    ensures
        match alpn_spec(data@) {
            Ok(ids) => r is Ok && byte_views(r->Ok_0@) == ids,
            Err(e) => r is Err && is_protocol(r->Err_0, e),
        },
{
    let (first, _rest) = match take_string(data, 2) {
        Ok(p) => p,
        Err(e) => return Err(e),
    };
    let mut list = first;
    let mut out: Vec<Vec<u8>> = Vec::new();
    proof {
        assert(byte_views(out@) =~= Seq::empty());
        let all = alpn_list(list@);
        if all is Ok {
            assert(Seq::<Seq<u8>>::empty() + all->Ok_0 =~= all->Ok_0);
        }
    }
    while list.len() > 0
        invariant
            behind(byte_views(out@), alpn_list(list@)) == alpn_spec(data@),
        decreases list@.len(),
    {
        let (name, rest) = match take_string(list, 1) {
            Ok(p) => p,
            Err(e) => return Err(e),
        };
        let id = vstd::slice::slice_to_vec(name);
        proof {
            let more = alpn_list(rest@);
            assert(byte_views(out@.push(id)) =~= byte_views(out@) + seq![name@]);
            if more is Ok {
                assert(byte_views(out@) + (seq![name@] + more->Ok_0) =~= (byte_views(out@)
                    + seq![name@]) + more->Ok_0);
            }
        }
        out.push(id);
        list = rest;
    }
    assert(byte_views(out@) + Seq::<Seq<u8>>::empty() =~= byte_views(out@));
    Ok(out)
}

fn find_extensions<'a>(body: &'a [u8]) -> (r: Result<&'a [u8], ServerError>)
    ensures
        match hello_extensions(body@) {
            Ok(exts) => r is Ok && r->Ok_0@ == exts,
            Err(e) => r is Err && is_protocol(r->Err_0, e),
        },
{
    // Version and random.
    let (_, s) = match take(body, 34) {
        Ok(p) => p,
        Err(e) => return Err(e),
    };
    // Session id.
    let (_, s) = match take_string(s, 1) {
        Ok(p) => p,
        Err(e) => return Err(e),
    };
    // Cipher suites.
    let (_, s) = match take_string(s, 2) {
        Ok(p) => p,
        Err(e) => return Err(e),
    };
    // Compression methods.
    let (_, s) = match take_string(s, 1) {
        Ok(p) => p,
        Err(e) => return Err(e),
    };
    match take_string(s, 2) {
        Ok((exts, _)) => Ok(exts),
        Err(e) => Err(e),
    }
}

fn parse_client_hello(fragment: &[u8]) -> (r: Result<(String, Vec<Vec<u8>>), ServerError>)
    ensures
        match hello_spec(fragment@) {
            Ok((host, alpn)) => {
                &&& r is Ok
                &&& lowered(host, r->Ok_0.0@)
                &&& byte_views(r->Ok_0.1@) == alpn
            },
            Err(e) => r is Err && is_protocol(r->Err_0, e),
        },
{
    if fragment.len() == 0 {
        return Err(ServerError::Protocol("truncated ClientHello field"));
    }
    if fragment[0] != 0x01 {
        return Err(ServerError::Protocol("not a ClientHello"));
    }
    let message = vstd::slice::slice_subrange(fragment, 1, fragment.len());
    assert(message@ =~= fragment@.skip(1));
    let (body, _rest) = match take_string(message, 3) {
        Ok(p) => p,
        Err(e) => return Err(e),
    };
    let all = match find_extensions(body) {
        Ok(exts) => exts,
        Err(e) => return Err(e),
    };
    let mut exts = all;
    let mut server_name: Option<String> = None;
    let mut alpn: Vec<Vec<u8>> = Vec::new();
    assert(byte_views(alpn@) =~= Seq::empty());
    while exts.len() > 0
        invariant
            extensions_spec(exts@, crate::text::opt_view(server_name), byte_views(alpn@))
                == extensions_spec(all@, None, Seq::empty()),
            match extensions_spec(all@, None, Seq::empty()) {
                Err(e) => hello_spec(fragment@) == Err::<(Seq<char>, Seq<Seq<u8>>), Seq<char>>(e),
                Ok(_) => true,
            },
        decreases exts@.len(),
    {
        let (kind, s1) = match take_be(exts, 2) {
            Ok(p) => p,
            Err(e) => return Err(e),
        };
        let (data, rest) = match take_string(s1, 2) {
            Ok(p) => p,
            Err(e) => return Err(e),
        };
        if kind == 0x0000 {
            match parse_sni_extension(data) {
                Ok(name) => {
                    server_name = Some(name);
                },
                Err(e) => return Err(e),
            }
        } else if kind == 0x0010 {
            match parse_alpn_extension(data) {
                Ok(ids) => {
                    alpn = ids;
                },
                Err(e) => return Err(e),
            }
        }
        exts = rest;
    }
    match server_name {
        Some(name) => Ok((to_lowercase(name.as_str()), alpn)),
        None => Err(ServerError::Protocol("no SNI extension in ClientHello")),
    }
}

/// The server name, in lower case, and ALPN identifiers of a handshake message.
pub fn parse_client_hello_for_fuzz(fragment: &[u8]) -> (r: Result<
    (String, Vec<Vec<u8>>),
    ServerError,
>)
    ensures
        match hello_spec(fragment@) {
            Ok((host, alpn)) => {
                &&& r is Ok
                &&& lowered(host, r->Ok_0.0@)
                &&& byte_views(r->Ok_0.1@) == alpn
            },
            Err(e) => r is Err && is_protocol(r->Err_0, e),
        },
{
    parse_client_hello(fragment)
}

/// How reading a `ClientHello` goes on.
pub enum PeekStep {
    /// Read until this many bytes are there.
    Need(usize),
    /// The hello is complete.
    Done(SniPeek),
    /// The connection is not routed; the reason.
    Fail(ServerError),
}

/// How reading goes on once `buf` has been read.
pub open spec fn peek_spec(buf: Seq<u8>, r: PeekStep) -> bool {
    if buf.len() < 5 {
        r == PeekStep::Need(5)
    } else if buf[0] != 0x16 {
        r matches PeekStep::Fail(e) && is_protocol(e, "not a TLS handshake record"@)
    } else {
        let record = be_value(buf.subrange(3, 5));
        if record == 0 || record > MAX_HELLO {
            r matches PeekStep::Fail(e) && is_protocol(e, "implausible TLS record length"@)
        } else if buf.len() < 5 + record {
            r == PeekStep::Need((5 + record) as usize)
        } else {
            match hello_spec(buf.subrange(5, 5 + record as int)) {
                Ok((host, alpn)) => r matches PeekStep::Done(p) && lowered(host, p.server_name@)
                    && byte_views(p.alpn@) == alpn && p.buffered@ == buf,
                Err(e) => r matches PeekStep::Fail(x) && is_protocol(x, e),
            }
        }
    }
}

/// How reading goes on once `buf` has been read. The buffer is handed on unmodified.
pub fn peek_sni(buf: &Vec<u8>) -> (r: PeekStep)
    ensures
        peek_spec(buf@, r),
{
    if buf.len() < 5 {
        return PeekStep::Need(5);
    }
    if buf[0] != 0x16 {
        return PeekStep::Fail(ServerError::Protocol("not a TLS handshake record"));
    }
    let record: usize = 256 * buf[3] as usize + buf[4] as usize;
    proof {
        let b = buf@.subrange(3, 5);
        assert(b.drop_last().drop_last() =~= Seq::empty());
        assert(be_value(b.drop_last().drop_last()) == 0);
        assert(be_value(b.drop_last()) == buf@[3]);
        assert(be_value(b) == record);
    }
    if record == 0 || record > MAX_HELLO {
        return PeekStep::Fail(ServerError::Protocol("implausible TLS record length"));
    }
    let needed: usize = 5 + record;
    if buf.len() < needed {
        return PeekStep::Need(needed);
    }
    let fragment = vstd::slice::slice_subrange(buf.as_slice(), 5, needed);
    match parse_client_hello(fragment) {
        Ok((server_name, alpn)) => PeekStep::Done(
            SniPeek {
                server_name,
                alpn,
                buffered: vstd::slice::slice_to_vec(buf.as_slice()),
            },
        ),
        Err(e) => PeekStep::Fail(e),
    }
}

/// The error of a connection that ends before its hello is complete.
pub fn peek_eof() -> (r: ServerError)
    ensures
        is_protocol(r, "eof while reading ClientHello"@),
{
    ServerError::Protocol("eof while reading ClientHello")
}

/// Bytes behind the first record change nothing but the buffer that is handed on.
pub proof fn law_trailing_bytes_ignored(buf: Seq<u8>, more: Seq<u8>, p: SniPeek, q: PeekStep)
    requires
        peek_spec(buf, PeekStep::Done(p)),
        peek_spec(buf + more, q),
    ensures
        q is Done,
        q->Done_0.server_name@ == p.server_name@,
        byte_views(q->Done_0.alpn@) == byte_views(p.alpn@),
        q->Done_0.buffered@ == p.buffered@ + more,
{
    assert((buf + more).subrange(3, 5) =~= buf.subrange(3, 5));
    let record = be_value(buf.subrange(3, 5));
    assert((buf + more).subrange(5, 5 + record as int) =~= buf.subrange(5, 5 + record as int));
}

/// Bytes behind a complete handshake message change nothing.
pub proof fn law_bytes_behind_hello_ignored(fragment: Seq<u8>, more: Seq<u8>)
    requires
        hello_spec(fragment) is Ok,
    ensures
        hello_spec(fragment + more) == hello_spec(fragment),
{
    let s = fragment.skip(1);
    let t = (fragment + more).skip(1);
    assert(t =~= s + more);
    assert(t.take(3) =~= s.take(3));
    let n = be_value(s.take(3));
    assert(t.skip(3).take(n as int) =~= s.skip(3).take(n as int));
}

/// A handshake message that is cut short anywhere is refused.
pub proof fn law_cut_hello_refused(fragment: Seq<u8>, n: int)
    requires
        fragment.len() >= 4,
        0 <= n <= fragment.len(),
        n < 4 + be_value(fragment.subrange(1, 4)),
    ensures
        hello_spec(fragment.take(n)) is Err,
{
    let cut = fragment.take(n);
    if n >= 4 {
        assert(cut.skip(1).take(3) =~= fragment.subrange(1, 4));
    }
}

/// A number in `k` big-endian bytes.
pub open spec fn be_bytes(n: nat, k: nat) -> Seq<u8>
    decreases k,
{
    if k == 0 {
        Seq::empty()
    } else {
        be_bytes(n / 256, (k - 1) as nat).push((n % 256) as u8)
    }
}

/// A byte string behind its length of `k` bytes.
pub open spec fn prefixed(b: Seq<u8>, k: nat) -> Seq<u8> {
    be_bytes(b.len(), k) + b
}

/// An extension.
pub open spec fn extension(kind: nat, data: Seq<u8>) -> Seq<u8> {
    be_bytes(kind, 2) + prefixed(data, 2)
}

/// The SNI extension for a host name.
pub open spec fn sni_extension(name: Seq<u8>) -> Seq<u8> {
    extension(0x0000, prefixed(seq![0u8] + prefixed(name, 2), 2))
}

/// An ALPN list.
pub open spec fn alpn_bytes(ids: Seq<Seq<u8>>) -> Seq<u8>
    decreases ids.len(),
{
    if ids.len() == 0 {
        Seq::empty()
    } else {
        prefixed(ids[0], 1) + alpn_bytes(ids.skip(1))
    }
}

/// The ALPN extension for a list of identifiers.
pub open spec fn alpn_extension(ids: Seq<Seq<u8>>) -> Seq<u8> {
    extension(0x0010, prefixed(alpn_bytes(ids), 2))
}

/// A `ClientHello` with these fields: version and random, session id, cipher
/// suites, compression methods and extensions.
pub open spec fn client_hello(
    front: Seq<u8>,
    sid: Seq<u8>,
    suites: Seq<u8>,
    methods: Seq<u8>,
    exts: Seq<u8>,
) -> Seq<u8> {
    seq![1u8] + prefixed(hello_body(front, sid, suites, methods, exts), 3)
}

/// The body of a `ClientHello`.
pub open spec fn hello_body(
    front: Seq<u8>,
    sid: Seq<u8>,
    suites: Seq<u8>,
    methods: Seq<u8>,
    exts: Seq<u8>,
) -> Seq<u8> {
    front + (prefixed(sid, 1) + (prefixed(suites, 2) + (prefixed(methods, 1) + prefixed(exts, 2))))
}

/// `256` to the power `k`.
pub open spec fn limit(k: nat) -> nat {
    crate::bytes::pow256(k)
}

/// A number that fits is the value of its bytes.
pub proof fn lemma_be_value(n: nat, k: nat)
    requires
        n < limit(k),
    ensures
        be_bytes(n, k).len() == k,
        be_value(be_bytes(n, k)) == n,
    decreases k,
{
    reveal_with_fuel(crate::bytes::pow256, 2);
    if k > 0 {
        lemma_be_value(n / 256, (k - 1) as nat);
        assert(be_bytes(n, k).drop_last() =~= be_bytes(n / 256, (k - 1) as nat));
    }
}

/// A number in `k` bytes takes `k` bytes.
pub proof fn lemma_be_len(n: nat, k: nat)
    ensures
        be_bytes(n, k).len() == k,
    decreases k,
{
    if k > 0 {
        lemma_be_len(n / 256, (k - 1) as nat);
    }
}

proof fn lemma_take_num(n: nat, k: nat, rest: Seq<u8>)
    requires
        n < limit(k),
    ensures
        take_num(be_bytes(n, k) + rest, k) == Ok::<(nat, Seq<u8>), Seq<char>>((n, rest)),
{
    lemma_be_value(n, k);
    let s = be_bytes(n, k) + rest;
    assert(s.take(k as int) =~= be_bytes(n, k));
    assert(s.skip(k as int) =~= rest);
}

/// A byte string is taken off behind its length.
pub proof fn lemma_take_vec(b: Seq<u8>, k: nat, rest: Seq<u8>)
    requires
        b.len() < limit(k),
    ensures
        take_vec(prefixed(b, k) + rest, k) == Ok::<(Seq<u8>, Seq<u8>), Seq<char>>((b, rest)),
{
    assert(prefixed(b, k) + rest =~= be_bytes(b.len(), k) + (b + rest));
    lemma_take_num(b.len(), k, b + rest);
    assert((b + rest).take(b.len() as int) =~= b);
    assert((b + rest).skip(b.len() as int) =~= rest);
}

proof fn lemma_alpn_list(ids: Seq<Seq<u8>>)
    requires
        forall|i: int| 0 <= i < ids.len() ==> (#[trigger] ids[i]).len() < 256,
    ensures
        alpn_list(alpn_bytes(ids)) == Ok::<Seq<Seq<u8>>, Seq<char>>(ids),
    decreases ids.len(),
{
    reveal_with_fuel(crate::bytes::pow256, 3);
    if ids.len() == 0 {
        assert(ids =~= Seq::empty());
    } else {
        let rest = alpn_bytes(ids.skip(1));
        assert(ids[0].len() < limit(1));
        lemma_take_vec(ids[0], 1, rest);
        lemma_be_value(ids[0].len(), 1);
        assert(alpn_bytes(ids).len() > 0);
        assert forall|i: int| 0 <= i < ids.skip(1).len() implies (#[trigger] ids.skip(1)[i]).len() < 256 by {
            assert(ids.skip(1)[i] == ids[i + 1]);
        }
        lemma_alpn_list(ids.skip(1));
        assert(seq![ids[0]] + ids.skip(1) =~= ids);
    }
}

/// The extensions that a hello carries are found in its body.
pub proof fn lemma_hello_body(
    front: Seq<u8>,
    sid: Seq<u8>,
    suites: Seq<u8>,
    methods: Seq<u8>,
    exts: Seq<u8>,
)
    requires
        front.len() == 34,
        sid.len() < 256,
        suites.len() < 65536,
        methods.len() < 256,
        exts.len() < 65536,
    ensures
        hello_extensions(hello_body(front, sid, suites, methods, exts)) == Ok::<Seq<u8>, Seq<char>>(
            exts,
        ),
        hello_body(front, sid, suites, methods, exts).len() < 0x100_0000,
{
    reveal_with_fuel(crate::bytes::pow256, 3);
    let none = Seq::<u8>::empty();
    let t4 = prefixed(exts, 2);
    let t3 = prefixed(methods, 1) + t4;
    let t2 = prefixed(suites, 2) + t3;
    let t1 = prefixed(sid, 1) + t2;
    let body = hello_body(front, sid, suites, methods, exts);
    lemma_be_value(sid.len(), 1);
    lemma_be_value(suites.len(), 2);
    lemma_be_value(methods.len(), 1);
    lemma_be_value(exts.len(), 2);
    assert(body == front + t1);
    assert(body.take(34) =~= front);
    assert(body.skip(34) =~= t1);
    lemma_take_vec(sid, 1, t2);
    lemma_take_vec(suites, 2, t3);
    lemma_take_vec(methods, 1, t4);
    assert(t4 + none =~= t4);
    lemma_take_vec(exts, 2, none);
}

/// An extension at the front is taken apart.
pub proof fn lemma_take_extension(kind: nat, data: Seq<u8>, rest: Seq<u8>)
    requires
        kind < 65536,
        data.len() < 65536,
    ensures
        (extension(kind, data) + rest).len() > 0,
        take_num(extension(kind, data) + rest, 2) == Ok::<(nat, Seq<u8>), Seq<char>>(
            (kind, prefixed(data, 2) + rest),
        ),
        take_vec(prefixed(data, 2) + rest, 2) == Ok::<(Seq<u8>, Seq<u8>), Seq<char>>((data, rest)),
{
    reveal_with_fuel(crate::bytes::pow256, 3);
    assert(extension(kind, data) + rest =~= be_bytes(kind, 2) + (prefixed(data, 2) + rest));
    lemma_be_value(kind, 2);
    lemma_take_num(kind, 2, prefixed(data, 2) + rest);
    lemma_take_vec(data, 2, rest);
}

/// The data of an SNI extension gives its name.
pub proof fn lemma_sni_data(name: Seq<u8>)
    requires
        name.len() + 3 < 65536,
        valid_utf8(name),
    ensures
        sni_spec(prefixed(seq![0u8] + prefixed(name, 2), 2)) == Ok::<Seq<char>, Seq<char>>(
            decode_utf8(name),
        ),
{
    reveal_with_fuel(crate::bytes::pow256, 3);
    let none = Seq::<u8>::empty();
    let list = seq![0u8] + prefixed(name, 2);
    lemma_be_value(name.len(), 2);
    assert(prefixed(list, 2) + none =~= prefixed(list, 2));
    lemma_take_vec(list, 2, none);
    assert(list.skip(1) =~= prefixed(name, 2) + none);
    lemma_take_vec(name, 2, none);
}

/// The data of an ALPN extension gives its identifiers.
pub proof fn lemma_alpn_data(ids: Seq<Seq<u8>>)
    requires
        forall|i: int| 0 <= i < ids.len() ==> (#[trigger] ids[i]).len() < 256,
        alpn_bytes(ids).len() < 65536,
    ensures
        alpn_spec(prefixed(alpn_bytes(ids), 2)) == Ok::<Seq<Seq<u8>>, Seq<char>>(ids),
{
    reveal_with_fuel(crate::bytes::pow256, 3);
    let none = Seq::<u8>::empty();
    assert(prefixed(alpn_bytes(ids), 2) + none =~= prefixed(alpn_bytes(ids), 2));
    lemma_take_vec(alpn_bytes(ids), 2, none);
    lemma_alpn_list(ids);
}

proof fn lemma_extensions_read(name: Seq<u8>, ids: Seq<Seq<u8>>)
    requires
        valid_utf8(name),
        forall|i: int| 0 <= i < ids.len() ==> (#[trigger] ids[i]).len() < 256,
        (sni_extension(name) + alpn_extension(ids)).len() < 65536,
    ensures
        extensions_spec(sni_extension(name) + alpn_extension(ids), None, Seq::empty()) == Ok::<
            (Option<Seq<char>>, Seq<Seq<u8>>),
            Seq<char>,
        >((Some(decode_utf8(name)), ids)),
{
    let none = Seq::<u8>::empty();
    let ax = alpn_extension(ids);
    let exts = sni_extension(name) + ax;
    let list = seq![0u8] + prefixed(name, 2);
    let adata = prefixed(alpn_bytes(ids), 2);
    lemma_be_len(0, 2);
    lemma_be_len(0x0010, 2);
    lemma_be_len(name.len(), 2);
    lemma_be_len(list.len(), 2);
    lemma_be_len(prefixed(list, 2).len(), 2);
    lemma_be_len(alpn_bytes(ids).len(), 2);
    lemma_be_len(adata.len(), 2);
    lemma_take_extension(0x0000, prefixed(list, 2), ax);
    lemma_sni_data(name);
    assert(ax + none =~= ax);
    lemma_take_extension(0x0010, adata, none);
    lemma_alpn_data(ids);
    let host = Some(decode_utf8(name));
    assert(extensions_spec(ax, host, Seq::empty()) == extensions_spec(none, host, ids));
    assert(extensions_spec(exts, None, Seq::empty()) == extensions_spec(ax, host, Seq::empty()));
}

/// A hello says what its extensions say.
pub proof fn lemma_hello_read(body: Seq<u8>, exts: Seq<u8>, name: Seq<char>, ids: Seq<Seq<u8>>)
    requires
        body.len() < 0x100_0000,
        hello_extensions(body) == Ok::<Seq<u8>, Seq<char>>(exts),
        extensions_spec(exts, None, Seq::empty()) == Ok::<
            (Option<Seq<char>>, Seq<Seq<u8>>),
            Seq<char>,
        >((Some(name), ids)),
    ensures
        hello_spec(seq![1u8] + prefixed(body, 3)) == Ok::<(Seq<char>, Seq<Seq<u8>>), Seq<char>>(
            (name, ids),
        ),
{
    reveal_with_fuel(crate::bytes::pow256, 4);
    let none = Seq::<u8>::empty();
    let whole = seq![1u8] + prefixed(body, 3);
    assert(whole.skip(1) =~= prefixed(body, 3) + none);
    lemma_take_vec(body, 3, none);
}

/// The name and the ALPN identifiers that a client puts into its hello are
/// read back; the name is then handed on in lower case.
pub proof fn law_hello_reads_back(
    front: Seq<u8>,
    sid: Seq<u8>,
    suites: Seq<u8>,
    methods: Seq<u8>,
    name: Seq<u8>,
    ids: Seq<Seq<u8>>,
)
    requires
        front.len() == 34,
        sid.len() < 256,
        suites.len() < 65536,
        methods.len() < 256,
        valid_utf8(name),
        forall|i: int| 0 <= i < ids.len() ==> (#[trigger] ids[i]).len() < 256,
        (sni_extension(name) + alpn_extension(ids)).len() < 65536,
    ensures
        hello_spec(
            client_hello(front, sid, suites, methods, sni_extension(name) + alpn_extension(ids)),
        ) == Ok::<(Seq<char>, Seq<Seq<u8>>), Seq<char>>((decode_utf8(name), ids)),
{
    let exts = sni_extension(name) + alpn_extension(ids);
    lemma_hello_body(front, sid, suites, methods, exts);
    lemma_extensions_read(name, ids);
    let body = hello_body(front, sid, suites, methods, exts);
    lemma_hello_read(body, exts, decode_utf8(name), ids);
}

} // verus!
