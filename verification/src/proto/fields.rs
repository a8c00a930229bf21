//! Encoding and decoding of the fields that frames carry, each built from the
//! primitives of [`crate::proto::wire`].

use crate::proto::ids::{SessionId, TunnelId};
use crate::proto::wire::{
    bool_to_wire, bytes16_from_wire, bytes16_to_wire, bytes32_from_wire, bytes32_to_wire, flag_byte, lemma_read_flag,
    lemma_read_num, lemma_read_text, num_to_wire, Read, read_raw, read_tag, read_text, read_u16, read_u64, read_usize,
    str_to_wire, string_from_wire, tag_from_wire, text_bytes, took, u16_from_wire, u64_from_wire, take_usize,
    varint, WireError,
};
use crate::text::{opt_view, views};
use vstd::prelude::*;
use vstd::utf8::encode_utf8;

verus! {

/// An optional value: its tag, then the value if there is one.
pub open spec fn opt_bytes<V>(o: Option<V>, w: spec_fn(V) -> Seq<u8>) -> Seq<u8> {
    match o {
        None => flag_byte(false),
        Some(v) => flag_byte(true) + w(v),
    }
}

/// Reads an optional value.
pub open spec fn read_opt<V>(s: Seq<u8>, r: spec_fn(Seq<u8>) -> Read<V>) -> Read<Option<V>> {
    match read_tag(s) {
        Err(e) => Err(e),
        Ok((false, rest)) => Ok((None, rest)),
        Ok((true, rest)) => match r(rest) {
            Err(e) => Err(e),
            Ok((v, rest)) => Ok((Some(v), rest)),
        },
    }
}

pub proof fn lemma_read_opt<V>(
    o: Option<V>,
    w: spec_fn(V) -> Seq<u8>,
    r: spec_fn(Seq<u8>) -> Read<V>,
    rest: Seq<u8>,
)
    requires
        o is Some ==> r(w(o->0) + rest) == Ok::<_, WireError>((o->0, rest)),
    ensures
        read_opt(opt_bytes(o, w) + rest, r) == Ok::<_, WireError>((o, rest)),
{
    match o {
        None => {
            lemma_read_flag(false, rest);
        },
        Some(v) => {
            assert(opt_bytes(o, w) + rest =~= flag_byte(true) + (w(v) + rest));
            lemma_read_flag(true, w(v) + rest);
        },
    }
}

/// How optional fields are written and read.
pub open spec fn num_writer() -> spec_fn(u64) -> Seq<u8> {
    |v: u64| varint(v as nat)
}

pub open spec fn num_reader() -> spec_fn(Seq<u8>) -> Read<u64> {
    |s: Seq<u8>| read_u64(s)
}

pub open spec fn port_writer() -> spec_fn(u16) -> Seq<u8> {
    |v: u16| varint(v as nat)
}

pub open spec fn port_reader() -> spec_fn(Seq<u8>) -> Read<u16> {
    |s: Seq<u8>| read_u16(s)
}

pub open spec fn raw_writer() -> spec_fn(Seq<u8>) -> Seq<u8> {
    |v: Seq<u8>| v
}

pub open spec fn id16_reader() -> spec_fn(Seq<u8>) -> Read<Seq<u8>> {
    |s: Seq<u8>| read_raw(s, 16)
}

pub open spec fn text_writer() -> spec_fn(Seq<char>) -> Seq<u8> {
    |t: Seq<char>| text_bytes(t)
}

pub open spec fn text_reader() -> spec_fn(Seq<u8>) -> Read<Seq<char>> {
    |s: Seq<u8>| read_text(s)
}

/// Two values read one after the other off sixty-four raw bytes are one run of bytes.
pub proof fn lemma_read_raw_halves(s: Seq<u8>)
    ensures
        match read_raw(s, 64) {
            Ok((b, rest)) => {
                &&& read_raw(s, 32) == Ok::<_, WireError>((b.take(32), s.skip(32)))
                &&& read_raw(s.skip(32), 32) == Ok::<_, WireError>((b.skip(32), rest))
            },
            Err(e) => e == WireError::UnexpectedEnd && (read_raw(s, 32) is Err || read_raw(
                s.skip(32),
                32,
            ) is Err),
        },
{
    if s.len() >= 64 {
        assert(s.take(64).take(32) =~= s.take(32));
        assert(s.take(64).skip(32) =~= s.skip(32).take(32));
        assert(s.skip(32).skip(32) =~= s.skip(64));
    }
}

/// The view of an optional session id.
pub open spec fn session_view(o: Option<SessionId>) -> Option<Seq<u8>> {
    match o {
        Some(id) => Some(id.0@),
        None => None,
    }
}

/// The view of an optional tunnel id.
pub open spec fn tunnel_view(o: Option<TunnelId>) -> Option<u64> {
    match o {
        Some(id) => Some(id.0),
        None => None,
    }
}

pub(crate) fn put_num(out: &mut Vec<u8>, n: u64)
    ensures
        final(out)@ == old(out)@ + varint(n as nat),
{
    let mut b = num_to_wire(n);
    out.append(&mut b);
}

pub(crate) fn put_bool(out: &mut Vec<u8>, v: bool)
    ensures
        final(out)@ == old(out)@ + flag_byte(v),
{
    let mut b = bool_to_wire(v);
    out.append(&mut b);
}

pub(crate) fn put_text(out: &mut Vec<u8>, t: &str)
    ensures
        final(out)@ == old(out)@ + text_bytes(t@),
{
    let mut b = str_to_wire(t);
    out.append(&mut b);
}

pub(crate) fn put_bytes16(out: &mut Vec<u8>, v: &[u8; 16])
    ensures
        final(out)@ == old(out)@ + v@,
{
    let mut b = bytes16_to_wire(v);
    out.append(&mut b);
}

pub(crate) fn put_bytes32(out: &mut Vec<u8>, v: &[u8; 32])
    ensures
        final(out)@ == old(out)@ + v@,
{
    let mut b = bytes32_to_wire(v);
    out.append(&mut b);
}

pub(crate) fn put_bytes64(out: &mut Vec<u8>, v: &[u8; 64])
    ensures
        final(out)@ == old(out)@ + v@,
{
    out.extend_from_slice(v.as_slice());
    assert(out@ =~= old(out)@ + v@);
}

pub(crate) fn put_opt_num(out: &mut Vec<u8>, o: &Option<TunnelId>)
    ensures
        final(out)@ == old(out)@ + opt_bytes(tunnel_view(*o), num_writer()),
{
    match o {
        None => put_bool(out, false),
        Some(id) => {
            put_bool(out, true);
            put_num(out, id.0);
            assert(out@ =~= old(out)@ + opt_bytes(tunnel_view(*o), num_writer()));
        },
    }
}

pub(crate) fn put_opt_port(out: &mut Vec<u8>, o: &Option<u16>)
    ensures
        final(out)@ == old(out)@ + opt_bytes(*o, port_writer()),
{
    match o {
        None => put_bool(out, false),
        Some(p) => {
            put_bool(out, true);
            put_num(out, *p as u64);
            assert(out@ =~= old(out)@ + opt_bytes(*o, port_writer()));
        },
    }
}

pub(crate) fn put_opt_session(out: &mut Vec<u8>, o: &Option<SessionId>)
    ensures
        final(out)@ == old(out)@ + opt_bytes(session_view(*o), raw_writer()),
{
    match o {
        None => put_bool(out, false),
        Some(id) => {
            put_bool(out, true);
            put_bytes16(out, &id.0);
            assert(out@ =~= old(out)@ + opt_bytes(session_view(*o), raw_writer()));
        },
    }
}

pub(crate) fn put_opt_text(out: &mut Vec<u8>, o: &Option<String>)
    ensures
        final(out)@ == old(out)@ + opt_bytes(opt_view(*o), text_writer()),
{
    match o {
        None => put_bool(out, false),
        Some(t) => {
            put_bool(out, true);
            put_text(out, t.as_str());
            assert(out@ =~= old(out)@ + opt_bytes(opt_view(*o), text_writer()));
        },
    }
}

pub(crate) fn take_bytes64(s: &[u8]) -> (r: Result<([u8; 64], &[u8]), WireError>)
    ensures
        match read_raw(s@, 64) {
            Ok((b, rest)) => r is Ok && r->Ok_0.0@ == b && r->Ok_0.1@ == rest,
            Err(e) => r is Err && r->Err_0 == e,
        },
{
    proof {
        lemma_read_raw_halves(s@);
    }
    let (a, s1) = match bytes32_from_wire(s) {
        Ok(p) => p,
        Err(e) => return Err(e),
    };
    let (b, s2) = match bytes32_from_wire(s1) {
        Ok(p) => p,
        Err(e) => return Err(e),
    };
    let mut out: [u8; 64] = [0u8; 64];
    for i in 0..32usize
        invariant
            forall|j: int| 0 <= j < i ==> out@[j] == a@[j],
            forall|j: int| 0 <= j < i ==> out@[32 + j] == b@[j],
    {
        out[i] = a[i];
        out[32 + i] = b[i];
    }
    assert(out@ =~= a@ + b@);
    proof {
        let whole = read_raw(s@, 64)->Ok_0.0;
        assert(whole =~= whole.take(32) + whole.skip(32));
    }
    Ok((out, s2))
}

pub(crate) fn take_opt_num(s: &[u8]) -> (r: Result<(Option<TunnelId>, &[u8]), WireError>)
    ensures
        match read_opt(s@, num_reader()) {
            Ok((o, rest)) => r is Ok && tunnel_view(r->Ok_0.0) == o && r->Ok_0.1@ == rest,
            Err(e) => r is Err && r->Err_0 == e,
        },
{
    match tag_from_wire(s) {
        Err(e) => Err(e),
        Ok((false, rest)) => Ok((None, rest)),
        Ok((true, rest)) => match u64_from_wire(rest) {
            Err(e) => Err(e),
            Ok((n, rest)) => Ok((Some(TunnelId(n)), rest)),
        },
    }
}

pub(crate) fn take_opt_port(s: &[u8]) -> (r: Result<(Option<u16>, &[u8]), WireError>)
    ensures
        took(r, read_opt(s@, port_reader())),
{
    match tag_from_wire(s) {
        Err(e) => Err(e),
        Ok((false, rest)) => Ok((None, rest)),
        Ok((true, rest)) => match u16_from_wire(rest) {
            Err(e) => Err(e),
            Ok((n, rest)) => Ok((Some(n), rest)),
        },
    }
}

pub(crate) fn take_opt_session(s: &[u8]) -> (r: Result<(Option<SessionId>, &[u8]), WireError>)
    ensures
        match read_opt(s@, id16_reader()) {
            Ok((o, rest)) => r is Ok && session_view(r->Ok_0.0) == o && r->Ok_0.1@ == rest,
            Err(e) => r is Err && r->Err_0 == e,
        },
{
    match tag_from_wire(s) {
        Err(e) => Err(e),
        Ok((false, rest)) => Ok((None, rest)),
        Ok((true, rest)) => match bytes16_from_wire(rest) {
            Err(e) => Err(e),
            Ok((b, rest)) => Ok((Some(SessionId(b)), rest)),
        },
    }
}

pub(crate) fn take_opt_text(s: &[u8]) -> (r: Result<(Option<String>, &[u8]), WireError>)
    ensures
        match read_opt(s@, text_reader()) {
            Ok((o, rest)) => r is Ok && opt_view(r->Ok_0.0) == o && r->Ok_0.1@ == rest,
            Err(e) => r is Err && r->Err_0 == e,
        },
{
    match tag_from_wire(s) {
        Err(e) => Err(e),
        Ok((false, rest)) => Ok((None, rest)),
        Ok((true, rest)) => match string_from_wire(rest) {
            Err(e) => Err(e),
            Ok((t, rest)) => Ok((Some(t), rest)),
        },
    }
}

/// The texts of a list, one after the other.
pub open spec fn texts_bytes(ts: Seq<Seq<char>>) -> Seq<u8>
    decreases ts.len(),
{
    if ts.len() == 0 {
        Seq::empty()
    } else {
        text_bytes(ts[0]) + texts_bytes(ts.skip(1))
    }
}

/// A list of texts: their number, then each of them.
pub open spec fn list_bytes(ts: Seq<Seq<char>>) -> Seq<u8> {
    varint(ts.len()) + texts_bytes(ts)
}

/// Reads `n` texts.
pub open spec fn read_texts(s: Seq<u8>, n: nat) -> Read<Seq<Seq<char>>>
    decreases n,
{
    if n == 0 {
        Ok((Seq::empty(), s))
    } else {
        match read_text(s) {
            Err(e) => Err(e),
            Ok((t, rest)) => match read_texts(rest, (n - 1) as nat) {
                Err(e) => Err(e),
                Ok((ts, rest)) => Ok((seq![t] + ts, rest)),
            },
        }
    }
}

/// Reads a list of texts.
pub open spec fn read_list(s: Seq<u8>) -> Read<Seq<Seq<char>>> {
    match read_usize(s) {
        Err(e) => Err(e),
        Ok((n, rest)) => read_texts(rest, n as nat),
    }
}

proof fn lemma_read_texts(ts: Seq<Seq<char>>, rest: Seq<u8>)
    requires
        forall|i: int| 0 <= i < ts.len() ==> encode_utf8(#[trigger] ts[i]).len() <= usize::MAX,
    ensures
        read_texts(texts_bytes(ts) + rest, ts.len()) == Ok::<_, WireError>((ts, rest)),
    decreases ts.len(),
{
    if ts.len() == 0 {
        assert(texts_bytes(ts) + rest =~= rest);
        assert(ts =~= Seq::empty());
    } else {
        let tail = ts.skip(1);
        assert(texts_bytes(ts) + rest =~= text_bytes(ts[0]) + (texts_bytes(tail) + rest));
        lemma_read_text(ts[0], texts_bytes(tail) + rest);
        lemma_read_texts(tail, rest);
        assert(seq![ts[0]] + tail =~= ts);
    }
}

/// A list takes at least one byte per text, and at least the bytes of each text.
proof fn lemma_texts_len(ts: Seq<Seq<char>>)
    ensures
        ts.len() <= texts_bytes(ts).len(),
        forall|i: int| 0 <= i < ts.len() ==> encode_utf8(#[trigger] ts[i]).len() <= texts_bytes(
            ts,
        ).len(),
    decreases ts.len(),
{
    if ts.len() > 0 {
        lemma_texts_len(ts.skip(1));
        assert(varint(encode_utf8(ts[0]).len()).len() >= 1);
        assert forall|i: int| 0 <= i < ts.len() implies encode_utf8(#[trigger] ts[i]).len()
            <= texts_bytes(ts).len() by {
            if i > 0 {
                assert(ts[i] == ts.skip(1)[i - 1]);
            }
        }
    }
}

pub proof fn lemma_read_list(ts: Seq<Seq<char>>, rest: Seq<u8>)
    requires
        list_bytes(ts).len() <= usize::MAX,
    ensures
        read_list(list_bytes(ts) + rest) == Ok::<_, WireError>((ts, rest)),
{
    lemma_texts_len(ts);
    assert(list_bytes(ts) + rest =~= varint(ts.len()) + (texts_bytes(ts) + rest));
    lemma_read_num(ts.len(), texts_bytes(ts) + rest);
    lemma_read_texts(ts, rest);
}

proof fn lemma_texts_push(ts: Seq<Seq<char>>, t: Seq<char>)
    ensures
        texts_bytes(ts.push(t)) == texts_bytes(ts) + text_bytes(t),
    decreases ts.len(),
{
    if ts.len() == 0 {
        assert(ts.push(t).skip(1).len() == 0);
        assert(texts_bytes(ts.push(t).skip(1)) =~= Seq::empty());
        assert(texts_bytes(ts.push(t)) =~= text_bytes(t));
        assert(texts_bytes(ts) + text_bytes(t) =~= text_bytes(t));
    } else {
        lemma_texts_push(ts.skip(1), t);
        assert(ts.push(t).skip(1) =~= ts.skip(1).push(t));
        assert(texts_bytes(ts.push(t)) =~= texts_bytes(ts) + text_bytes(t));
    }
}

pub(crate) fn put_list(out: &mut Vec<u8>, ts: &Vec<String>)
    ensures
        final(out)@ == old(out)@ + list_bytes(views(ts@)),
{
    put_num(out, ts.len() as u64);
    let ghost before = out@;
    let ghost all = views(ts@);
    assert(before + texts_bytes(all.take(0)) =~= before);
    for i in 0..ts.len()
        invariant
            all == views(ts@),
            out@ == before + texts_bytes(all.take(i as int)),
    {
        put_text(out, ts[i].as_str());
        proof {
            lemma_texts_push(all.take(i as int), ts@[i as int]@);
            assert(all.take(i + 1) =~= all.take(i as int).push(ts@[i as int]@));
            assert(out@ =~= before + texts_bytes(all.take(i + 1)));
        }
    }
    assert(all.take(all.len() as int) =~= all);
    assert(out@ =~= old(out)@ + list_bytes(views(ts@)));
}

/// `front` put before a list that is still to be read.
spec fn behind(front: Seq<Seq<char>>, read: Read<Seq<Seq<char>>>) -> Read<Seq<Seq<char>>> {
    match read {
        Err(e) => Err(e),
        Ok((ts, rest)) => Ok((front + ts, rest)),
    }
}

pub(crate) fn take_list(s: &[u8]) -> (r: Result<(Vec<String>, &[u8]), WireError>)
    ensures
        match read_list(s@) {
            Ok((ts, rest)) => r is Ok && views(r->Ok_0.0@) == ts && r->Ok_0.1@ == rest,
            Err(e) => r is Err && r->Err_0 == e,
        },
{
    let (n, mut rest) = match take_usize(s) {
        Err(e) => return Err(e),
        Ok(p) => p,
    };
    let ghost start = rest@;
    let mut out: Vec<String> = Vec::new();
    let mut i: usize = 0;
    proof {
        let r = read_texts(start, n as nat);
        if r is Ok {
            assert(views(out@) + r->Ok_0.0 =~= r->Ok_0.0);
        }
    }
    while i < n
        invariant
            i <= n,
            read_list(s@) == read_texts(start, n as nat),
            behind(views(out@), read_texts(rest@, (n - i) as nat)) == read_texts(start, n as nat),
        decreases n - i,
    {
        let (t, next) = match string_from_wire(rest) {
            Err(e) => return Err(e),
            Ok(p) => p,
        };
        proof {
            let r = read_texts(next@, (n - i - 1) as nat);
            assert(views(out@.push(t)) =~= views(out@) + seq![t@]);
            if r is Ok {
                assert(views(out@) + (seq![t@] + r->Ok_0.0) =~= (views(out@) + seq![t@])
                    + r->Ok_0.0);
            }
        }
        out.push(t);
        rest = next;
        i += 1;
    }
    assert(views(out@) + Seq::<Seq<char>>::empty() =~= views(out@));
    Ok((out, rest))
}

} // verus!
