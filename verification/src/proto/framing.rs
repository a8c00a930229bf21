//! Length-prefixed framing of Control-stream messages.
//!
//! A frame is the length of its payload as a LEB128 `u32`, one to five bytes,
//! followed by the payload.

use crate::proto::consts::MAX_FRAME_SIZE;
use crate::proto::frames::WireValue;
use crate::proto::wire::{leb_cap, leb_read, lemma_varint_read, read_num, varint, WireError, wire_error_text};
use crate::text::{dec, push_u64};
use vstd::prelude::*;
use vstd::string::*;

verus! {

/// Why a frame could not be encoded or decoded.
#[derive(Debug, Clone, Copy, PartialEq, Eq, Structural)]
pub enum FramingError {
    FrameTooLarge { size: usize, max: usize },
    BadVarint,
    Truncated { needed: usize, had: usize },
    Postcard(WireError),
}

impl FramingError {
    /// How the error is shown.
    pub open spec fn text(self) -> Seq<char> {
        match self {
            FramingError::FrameTooLarge { size, max } => "frame payload too large: "@ + dec(
                size as nat,
            ) + " bytes (max "@ + dec(max as nat) + ")"@,
            FramingError::BadVarint => "varint length prefix is malformed or truncated"@,
            FramingError::Truncated { needed, had } => "input truncated: needed "@ + dec(
                needed as nat,
            ) + " bytes, had "@ + dec(had as nat),
            FramingError::Postcard(e) => "postcard error: "@ + wire_error_text(e),
        }
    }

    /// How the error is shown.
    pub fn to_text(&self) -> (r: String)
        ensures
            r@ == self.text(),
    {
        match self {
            FramingError::FrameTooLarge { size, max } => {
                let mut out = "frame payload too large: ".to_owned();
                push_u64(&mut out, *size as u64);
                out.append(" bytes (max ");
                push_u64(&mut out, *max as u64);
                out.append(")");
                out
            },
            FramingError::BadVarint => "varint length prefix is malformed or truncated".to_owned(),
            FramingError::Truncated { needed, had } => {
                let mut out = "input truncated: needed ".to_owned();
                push_u64(&mut out, *needed as u64);
                out.append(" bytes, had ");
                push_u64(&mut out, *had as u64);
                out
            },
            FramingError::Postcard(e) => {
                let mut out = "postcard error: ".to_owned();
                out.append(e.message());
                out
            },
        }
    }
}

/// The length prefix at the front of `s`, and how many bytes it takes.
pub open spec fn prefix_spec(s: Seq<u8>) -> Result<(u32, nat), FramingError> {
    match read_num(s, 5, u32::MAX as nat) {
        Ok((n, rest)) => Ok((n as u32, (s.len() - rest.len()) as nat)),
        Err(_) => Err(FramingError::BadVarint),
    }
}

/// The bytes of the frame that carries `v`.
pub open spec fn frame_bytes<T: WireValue>(v: T::V) -> Seq<u8> {
    varint(T::wire(v).len()) + T::wire(v)
}

/// What the bytes `input` are decoded to: the value of the first frame and
/// the frame's length.
pub open spec fn frame_spec<T: WireValue>(input: Seq<u8>) -> Result<(T::V, nat), FramingError> {
    match prefix_spec(input) {
        Err(e) => Err(e),
        Ok((len, used)) => if len > MAX_FRAME_SIZE {
            Err(FramingError::FrameTooLarge { size: len as usize, max: MAX_FRAME_SIZE })
        } else if input.len() < used + len {
            Err(
                FramingError::Truncated {
                    needed: (used + len) as usize,
                    had: input.len() as usize,
                },
            )
        } else {
            match T::parse(input.subrange(used as int, used + len)) {
                Err(e) => Err(FramingError::Postcard(e)),
                Ok((v, _)) => Ok((v, used + len as nat)),
            }
        },
    }
}

/// Appends the LEB128 bytes of `v`.
pub fn write_varint_u32(v: u32, out: &mut Vec<u8>)
    ensures
        final(out)@ == old(out)@ + varint(v as nat),
{
    let mut v = v;
    let ghost start = out@;
    let ghost whole = varint(v as nat);
    while v >= 0x80
        invariant
            start == old(out)@,
            start + whole == out@ + varint(v as nat),
        decreases v,
    {
        let low: u8 = (v % 128) as u8;
        let ghost before = out@;
        out.push(low + 128);
        assert(before + varint(v as nat) =~= out@ + varint((v / 128) as nat));
        v = v / 128;
    }
    out.push(v as u8);
    assert(out@ =~= start + whole);
}

proof fn lemma_leb_read_len(s: Seq<u8>, limit: nat)
    ensures
        leb_read(s, limit) matches Ok((n, rest)) ==> rest.len() < s.len() && s.len() - rest.len()
            <= limit,
    decreases limit,
{
    if limit > 0 && s.len() > 0 && s[0] >= 128 {
        lemma_leb_read_len(s.skip(1), (limit - 1) as nat);
    }
}

/// The value of a number whose low part has been read.
spec fn above(low: nat, weight: nat, high: Result<(nat, Seq<u8>), WireError>) -> Result<
    (nat, Seq<u8>),
    WireError,
> {
    match high {
        Ok((n, rest)) => Ok((low + weight * n, rest)),
        Err(e) => Err(e),
    }
}

spec fn pow128(k: nat) -> nat
    decreases k,
{
    if k == 0 {
        1
    } else {
        128 * pow128((k - 1) as nat)
    }
}

/// Reads the LEB128 `u32` at the front of `input`; returns it with its length in bytes.
pub fn read_varint_u32(input: &[u8]) -> (r: Result<(u32, usize), FramingError>)
    ensures
        match prefix_spec(input@) {
            Ok((n, used)) => r == Ok::<_, FramingError>((n, used as usize)) && used <= 5 && used
                <= input@.len(),
            Err(e) => r == Err::<(u32, usize), _>(e),
        },
{
    let mut acc: u64 = 0;
    let mut weight: u64 = 1;
    let mut i: usize = 0;
    let ghost whole = leb_read(input@, 5);
    proof {
        lemma_leb_read_len(input@, 5);
        assert(input@.skip(0) =~= input@);
        assert(above(0, 1, whole) == whole);
    }
    while i < input.len() && i < 5
        invariant
            i <= 5,
            i <= input@.len(),
            whole == leb_read(input@, 5),
            whole matches Ok((n, rest)) ==> rest.len() < input@.len() && input@.len() - rest.len()
                <= 5,
            whole == above(acc as nat, weight as nat, leb_read(input@.skip(i as int), (5 - i) as nat)),
            weight == pow128(i as nat),
            acc < weight,
            acc <= u32::MAX,
        decreases 5 - i,
    {
        let b = input[i];
        let bits: u64 = (b % 128) as u64;
        let ghost rest = input@.skip(i as int);
        proof {
            reveal_with_fuel(pow128, 7);
            assert(rest.skip(1) =~= input@.skip(i + 1));
            assert(bits * weight <= 127 * weight) by (nonlinear_arith)
                requires
                    bits <= 127,
                    weight > 0,
            ;
            assert(weight * bits == bits * weight) by (nonlinear_arith);
        }
        let next: u64 = acc + bits * weight;
        proof {
            if b >= 128 {
                let tail = leb_read(rest.skip(1), (4 - i) as nat);
                if tail is Ok {
                    let high = tail->Ok_0.0;
                    assert(acc + weight * (bits + 128 * high) == next + (128 * weight) * high)
                        by (nonlinear_arith)
                        requires
                            next == acc + bits * weight,
                    ;
                    assert((128 * weight) * high >= 0) by (nonlinear_arith);
                }
            } else {
                assert(whole == Ok::<_, WireError>((next as nat, rest.skip(1))));
            }
        }
        // A byte whose bits do not fit in 32 is refused at once.
        if next > 0xFFFF_FFFF {
            return Err(FramingError::BadVarint);
        }
        if b < 128 {
            return Ok((next as u32, i + 1));
        }
        acc = next;
        weight = 128 * weight;
        i += 1;
    }
    Err(FramingError::BadVarint)
}

/// Encode `value` as a frame appended to `out`; returns the number of bytes written.
pub fn encode_frame<T: WireValue>(value: &T, out: &mut Vec<u8>) -> (r: Result<usize, FramingError>)
    ensures
        T::wire(value@).len() > MAX_FRAME_SIZE ==> {
            &&& r == Err::<usize, _>(
                FramingError::FrameTooLarge {
                    size: T::wire(value@).len() as usize,
                    max: MAX_FRAME_SIZE,
                },
            )
            &&& final(out)@ == old(out)@
        },
        T::wire(value@).len() <= MAX_FRAME_SIZE ==> {
            &&& r == Ok::<_, FramingError>(frame_bytes::<T>(value@).len() as usize)
            &&& final(out)@ == old(out)@ + frame_bytes::<T>(value@)
        },
{
    let start = out.len();
    let payload = value.encode_wire();
    if payload.len() > MAX_FRAME_SIZE {
        return Err(FramingError::FrameTooLarge { size: payload.len(), max: MAX_FRAME_SIZE });
    }
    write_varint_u32(payload.len() as u32, out);
    out.extend_from_slice(payload.as_slice());
    assert(out@ =~= old(out)@ + frame_bytes::<T>(value@));
    Ok(out.len() - start)
}

/// Decode a frame from the head of `input`; returns the value and the number
/// of bytes consumed.
pub fn decode_frame<T: WireValue>(input: &[u8]) -> (r: Result<(T, usize), FramingError>)
    ensures
        match frame_spec::<T>(input@) {
            Ok((v, used)) => r is Ok && r->Ok_0.0@ == v && r->Ok_0.1 == used && used <= input@.len(),
            Err(e) => r is Err && r->Err_0 == e,
        },
{
    let (len, prefix) = match read_varint_u32(input) {
        Ok(p) => p,
        Err(e) => return Err(e),
    };
    let len = len as usize;
    if len > MAX_FRAME_SIZE {
        return Err(FramingError::FrameTooLarge { size: len, max: MAX_FRAME_SIZE });
    }
    let end = prefix + len;
    if input.len() < end {
        return Err(FramingError::Truncated { needed: end, had: input.len() });
    }
    let payload = vstd::slice::slice_subrange(input, prefix, end);
    match T::decode_wire(payload) {
        Ok(value) => Ok((value, end)),
        Err(e) => Err(FramingError::Postcard(e)),
    }
}

/// How reading a frame goes on.
pub enum FrameStep<T> {
    /// Read until this many bytes are there.
    Need(usize),
    /// The frame is complete; what it carries.
    Done(T),
    /// The bytes are not a frame.
    Fail(FramingError),
}

/// Whether more bytes may complete a length prefix.
pub open spec fn prefix_open(s: Seq<u8>) -> bool {
    s.len() < 5 && forall|i: int| 0 <= i < s.len() ==> #[trigger] s[i] >= 128
}

/// How many bytes must be there before a frame of which `input` has been read
/// can be decoded, where more bytes can help.
pub open spec fn needed_spec<T: WireValue>(input: Seq<u8>) -> Option<nat> {
    match frame_spec::<T>(input) {
        Err(FramingError::Truncated { needed, had }) => Some(needed as nat),
        Err(FramingError::BadVarint) => if prefix_open(input) {
            Some(input.len() + 1)
        } else {
            None
        },
        _ => None,
    }
}

/// How reading a frame goes on once `buf` has been read.
pub fn read_step<T: WireValue>(buf: &[u8]) -> (r: FrameStep<T>)
    ensures
        match needed_spec::<T>(buf@) {
            Some(n) => r == FrameStep::<T>::Need(n as usize) && n > buf@.len(),
            None => match frame_spec::<T>(buf@) {
                Ok((v, _)) => r matches FrameStep::Done(x) && x@ == v,
                Err(e) => r == FrameStep::<T>::Fail(e),
            },
        },
{
    proof {
        lemma_leb_read_len(buf@, 5);
    }
    match decode_frame::<T>(buf) {
        Ok((value, _)) => FrameStep::Done(value),
        Err(FramingError::Truncated { needed, had: _ }) => FrameStep::Need(needed),
        Err(FramingError::BadVarint) => {
            if buf.len() >= 5 {
                return FrameStep::Fail(FramingError::BadVarint);
            }
            for i in 0..buf.len()
                invariant
                    frame_spec::<T>(buf@) == Err::<(T::V, nat), _>(FramingError::BadVarint),
                    forall|j: int| 0 <= j < i ==> #[trigger] buf@[j] >= 128,
            {
                if buf[i] < 128 {
                    return FrameStep::Fail(FramingError::BadVarint);
                }
            }
            FrameStep::Need(buf.len() + 1)
        },
        Err(e) => FrameStep::Fail(e),
    }
}

/// A length prefix is read back from its bytes, whatever follows them.
pub proof fn law_prefix_roundtrip(v: u32, rest: Seq<u8>)
    ensures
        prefix_spec(varint(v as nat) + rest) == Ok::<_, FramingError>((v, varint(v as nat).len())),
{
    reveal_with_fuel(leb_cap, 6);
    lemma_varint_read(v as nat, 5, rest);
}

/// A value is decoded from the frame that carries it, whatever follows the frame.
pub proof fn law_frame_roundtrip<T: WireValue>(v: T, rest: Seq<u8>)
    requires
        T::wire(v@).len() <= MAX_FRAME_SIZE,
    ensures
        frame_spec::<T>(frame_bytes::<T>(v@) + rest) == Ok::<_, FramingError>(
            (v@, frame_bytes::<T>(v@).len()),
        ),
{
    let p = T::wire(v@);
    let s = frame_bytes::<T>(v@) + rest;
    assert(s =~= varint(p.len()) + (p + rest));
    law_prefix_roundtrip(p.len() as u32, p + rest);
    let used = varint(p.len()).len();
    assert(s.subrange(used as int, (used + p.len()) as int) =~= p);
    T::wire_roundtrip(v);
}

/// Two frames written one after the other are decoded in that order, the
/// second where the first ends.
pub proof fn law_frames_back_to_back<T: WireValue>(a: T, b: T, rest: Seq<u8>)
    requires
        T::wire(a@).len() <= MAX_FRAME_SIZE,
        T::wire(b@).len() <= MAX_FRAME_SIZE,
    ensures
        ({
            let s = frame_bytes::<T>(a@) + frame_bytes::<T>(b@) + rest;
            let used = frame_bytes::<T>(a@).len();
            &&& frame_spec::<T>(s) == Ok::<_, FramingError>((a@, used))
            &&& frame_spec::<T>(s.skip(used as int)) == Ok::<_, FramingError>(
                (b@, frame_bytes::<T>(b@).len()),
            )
        }),
{
    let fa = frame_bytes::<T>(a@);
    let fb = frame_bytes::<T>(b@);
    assert(fa + fb + rest =~= fa + (fb + rest));
    law_frame_roundtrip(a, fb + rest);
    assert((fa + fb + rest).skip(fa.len() as int) =~= fb + rest);
    law_frame_roundtrip(b, rest);
}

/// A frame cut short is never decoded.
pub proof fn law_truncated_frame_refused<T: WireValue>(v: T, k: int)
    requires
        T::wire(v@).len() <= MAX_FRAME_SIZE,
        0 <= k < frame_bytes::<T>(v@).len(),
    ensures
        frame_spec::<T>(frame_bytes::<T>(v@).take(k)) is Err,
{
    let p = T::wire(v@);
    let n = p.len();
    let f = frame_bytes::<T>(v@);
    let s = f.take(k);
    let head = varint(n);
    if k < head.len() {
        lemma_varint_cut(n, 5, k);
        assert(s =~= head.take(k));
    } else {
        let rest = s.skip(head.len() as int);
        assert(s =~= head + rest);
        law_prefix_roundtrip(n as u32, rest);
    }
}

/// Reading a frame asks for bytes of that frame only: after any part of it,
/// for more, but never for a byte behind it, and after all of it, for none.
pub proof fn law_reading_stops_at_frame_end<T: WireValue>(v: T, k: int)
    requires
        T::wire(v@).len() <= MAX_FRAME_SIZE,
        0 <= k <= frame_bytes::<T>(v@).len(),
    ensures
        k < frame_bytes::<T>(v@).len() ==> needed_spec::<T>(frame_bytes::<T>(v@).take(k)) is Some
            && k < needed_spec::<T>(frame_bytes::<T>(v@).take(k))->0 <= frame_bytes::<T>(v@).len(),
        k == frame_bytes::<T>(v@).len() ==> needed_spec::<T>(frame_bytes::<T>(v@).take(k)) is None
            && frame_spec::<T>(frame_bytes::<T>(v@).take(k)) == Ok::<_, FramingError>((v@, k as nat)),
{
    let p = T::wire(v@);
    let n = p.len();
    let f = frame_bytes::<T>(v@);
    let s = f.take(k);
    let head = varint(n);
    law_prefix_roundtrip(n as u32, Seq::empty());
    assert(head + Seq::<u8>::empty() =~= head);
    assert(head.len() <= 5) by {
        reveal_with_fuel(leb_cap, 6);
        lemma_varint_len(n, 5);
    }
    if k == f.len() {
        assert(s =~= f + Seq::<u8>::empty());
        law_frame_roundtrip(v, Seq::empty());
    } else if k < head.len() {
        lemma_varint_cut(n, 5, k);
        lemma_varint_open(n);
        assert(s =~= head.take(k));
        assert forall|i: int| 0 <= i < s.len() implies #[trigger] s[i] >= 128 by {
            assert(s[i] == head[i]);
        }
    } else {
        let rest = s.skip(head.len() as int);
        assert(s =~= head + rest);
        law_prefix_roundtrip(n as u32, rest);
    }
}

proof fn lemma_varint_open(n: nat)
    ensures
        forall|i: int| 0 <= i < varint(n).len() - 1 ==> #[trigger] varint(n)[i] >= 128,
    decreases n,
{
    if n >= 128 {
        lemma_varint_open(n / 128);
        assert forall|i: int| 0 <= i < varint(n).len() - 1 implies #[trigger] varint(n)[i]
            >= 128 by {
            if i > 0 {
                assert(varint(n)[i] == varint(n / 128)[i - 1]);
            }
        }
    }
}

proof fn lemma_varint_len(n: nat, limit: nat)
    requires
        n < leb_cap(limit),
        limit > 0,
    ensures
        varint(n).len() <= limit,
    decreases limit,
{
    if n >= 128 {
        lemma_varint_len(n / 128, (limit - 1) as nat);
    }
}

proof fn lemma_varint_cut(n: nat, limit: nat, k: int)
    requires
        0 <= k < varint(n).len(),
    ensures
        leb_read(varint(n).take(k), limit) is Err,
    decreases n,
{
    let s = varint(n).take(k);
    if limit > 0 && k > 0 && n >= 128 {
        assert(s.skip(1) =~= varint(n / 128).take(k - 1));
        lemma_varint_cut(n / 128, (limit - 1) as nat, k - 1);
    }
}

} // verus!
