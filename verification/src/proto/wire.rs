//! The `postcard` encoding of the values that frames are made of: variable
//! length integers, flags, texts, byte arrays and option tags.
//!
//! The encoding itself is the `postcard` crate's. Each function here hands it
//! one plain value, and its contract says which bytes stand for that value.

use vstd::prelude::*;
use vstd::utf8::{decode_utf8, encode_utf8, valid_utf8};

verus! {

/// Why a payload could not be decoded.
#[derive(Copy, Clone, Debug, PartialEq, Eq, Structural)]
pub enum WireError {
    /// The payload ends inside a value.
    UnexpectedEnd,
    /// A variable length integer does not end in time or does not fit its type.
    BadVarint,
    /// A flag byte is neither 0 nor 1.
    BadBool,
    /// A text is not UTF-8.
    BadUtf8,
    /// An option tag is neither 0 nor 1.
    BadOption,
    /// An enum discriminant names no variant.
    UnknownVariant,
    /// Any other error of the encoding crate.
    Other,
}

impl WireError {
    /// The message of the encoding crate for this error.
    pub fn message(&self) -> (r: &'static str)
        ensures
            r@ == wire_error_text(*self),
    {
        match self {
            WireError::UnexpectedEnd => "Hit the end of buffer, expected more data",
            WireError::BadVarint =>
                "Found a varint that didn't terminate. Is the usize too big for this platform?",
            WireError::BadBool => "Found a bool that wasn't 0 or 1",
            WireError::BadUtf8 => "Tried to parse invalid utf-8",
            WireError::BadOption => "Found an Option discriminant that wasn't 0 or 1",
            WireError::UnknownVariant => "Serde Deserialization Error",
            WireError::Other => "postcard error",
        }
    }
}

/// The text of each decoding error.
pub open spec fn wire_error_text(e: WireError) -> Seq<char> {
    match e {
        WireError::UnexpectedEnd => "Hit the end of buffer, expected more data"@,
        WireError::BadVarint =>
            "Found a varint that didn't terminate. Is the usize too big for this platform?"@,
        WireError::BadBool => "Found a bool that wasn't 0 or 1"@,
        WireError::BadUtf8 => "Tried to parse invalid utf-8"@,
        WireError::BadOption => "Found an Option discriminant that wasn't 0 or 1"@,
        WireError::UnknownVariant => "Serde Deserialization Error"@,
        WireError::Other => "postcard error"@,
    }
}

/// The result of reading one value off the front of a byte sequence.
pub type Read<V> = Result<(V, Seq<u8>), WireError>;

/// `n` in LEB128: seven bits per byte, low bits first, the high bit set on all but the last.
pub open spec fn varint(n: nat) -> Seq<u8>
    decreases n,
{
    if n < 128 {
        seq![n as u8]
    } else {
        seq![(n % 128 + 128) as u8] + varint(n / 128)
    }
}

/// The LEB128 number at the front of `s`, if it ends within `limit` bytes.
pub open spec fn leb_read(s: Seq<u8>, limit: nat) -> Read<nat>
    decreases limit,
{
    if limit == 0 {
        Err(WireError::BadVarint)
    } else if s.len() == 0 {
        Err(WireError::UnexpectedEnd)
    } else if s[0] < 128 {
        Ok((s[0] as nat, s.skip(1)))
    } else {
        match leb_read(s.skip(1), (limit - 1) as nat) {
            Ok((high, rest)) => Ok(((s[0] - 128 + 128 * high) as nat, rest)),
            Err(e) => Err(e),
        }
    }
}

/// The LEB128 number of at most `limit` bytes and at most `max` at the front of `s`.
pub open spec fn read_num(s: Seq<u8>, limit: nat, max: nat) -> Read<nat> {
    match leb_read(s, limit) {
        Ok((n, rest)) => if n <= max {
            Ok((n, rest))
        } else {
            Err(WireError::BadVarint)
        },
        Err(e) => Err(e),
    }
}

/// A `u16`: at most three bytes.
pub open spec fn read_u16(s: Seq<u8>) -> Read<u16> {
    match read_num(s, 3, u16::MAX as nat) {
        Ok((n, rest)) => Ok((n as u16, rest)),
        Err(e) => Err(e),
    }
}

/// A `u32`: at most five bytes.
pub open spec fn read_u32(s: Seq<u8>) -> Read<u32> {
    match read_num(s, 5, u32::MAX as nat) {
        Ok((n, rest)) => Ok((n as u32, rest)),
        Err(e) => Err(e),
    }
}

/// A `u64`: at most ten bytes.
pub open spec fn read_u64(s: Seq<u8>) -> Read<u64> {
    match read_num(s, 10, u64::MAX as nat) {
        Ok((n, rest)) => Ok((n as u64, rest)),
        Err(e) => Err(e),
    }
}

/// A length, as wide as the machine's addresses.
pub open spec fn read_usize(s: Seq<u8>) -> Read<usize> {
    let limit: nat = if usize::MAX == u64::MAX {
        10
    } else {
        5
    };
    match read_num(s, limit, usize::MAX as nat) {
        Ok((n, rest)) => Ok((n as usize, rest)),
        Err(e) => Err(e),
    }
}

/// A flag: one byte, 0 or 1.
pub open spec fn read_bool(s: Seq<u8>) -> Read<bool> {
    if s.len() == 0 {
        Err(WireError::UnexpectedEnd)
    } else if s[0] > 1 {
        Err(WireError::BadBool)
    } else {
        Ok((s[0] == 1, s.skip(1)))
    }
}

/// The tag in front of an optional value: one byte, 0 or 1.
pub open spec fn read_tag(s: Seq<u8>) -> Read<bool> {
    if s.len() == 0 {
        Err(WireError::UnexpectedEnd)
    } else if s[0] > 1 {
        Err(WireError::BadOption)
    } else {
        Ok((s[0] == 1, s.skip(1)))
    }
}

/// `n` raw bytes.
pub open spec fn read_raw(s: Seq<u8>, n: nat) -> Read<Seq<u8>> {
    if s.len() < n {
        Err(WireError::UnexpectedEnd)
    } else {
        Ok((s.take(n as int), s.skip(n as int)))
    }
}

/// A text: its length in bytes, then its UTF-8 bytes.
pub open spec fn read_text(s: Seq<u8>) -> Read<Seq<char>> {
    match read_usize(s) {
        Ok((n, t)) => match read_raw(t, n as nat) {
            Ok((bytes, rest)) => if valid_utf8(bytes) {
                Ok((decode_utf8(bytes), rest))
            } else {
                Err(WireError::BadUtf8)
            },
            Err(e) => Err(e),
        },
        Err(e) => Err(e),
    }
}

/// A flag or option tag as a byte.
pub open spec fn flag_byte(b: bool) -> Seq<u8> {
    seq![
        if b {
            1u8
        } else {
            0u8
        },
    ]
}

/// The bytes of a text: its length, then its UTF-8 bytes.
pub open spec fn text_bytes(t: Seq<char>) -> Seq<u8> {
    varint(encode_utf8(t).len()) + encode_utf8(t)
}

/// The result `r` holds the value, or the error, that was read.
pub open spec fn took<T>(r: Result<(T, &[u8]), WireError>, read: Read<T>) -> bool {
    match read {
        Ok((v, rest)) => r is Ok && r->Ok_0.0 == v && r->Ok_0.1@ == rest,
        Err(e) => r is Err && r->Err_0 == e,
    }
}

/// `postcard::to_stdvec` of a `u64`; the narrower unsigned types give the same
/// bytes for the same number.
#[verifier::external_body]
pub(crate) fn num_to_wire(n: u64) -> (r: Vec<u8>)
    ensures
        r@ == varint(n as nat),
{
    postcard::to_stdvec(&n).unwrap()
}

/// `postcard::to_stdvec` of a `bool`.
#[verifier::external_body]
pub(crate) fn bool_to_wire(b: bool) -> (r: Vec<u8>)
    ensures
        r@ == flag_byte(b),
{
    postcard::to_stdvec(&b).unwrap()
}

/// `postcard::to_stdvec` of a text.
#[verifier::external_body]
pub(crate) fn str_to_wire(s: &str) -> (r: Vec<u8>)
    ensures
        r@ == text_bytes(s@),
{
    postcard::to_stdvec(s).unwrap()
}

/// `postcard::to_stdvec` of 16 bytes: the bytes themselves.
#[verifier::external_body]
pub(crate) fn bytes16_to_wire(b: &[u8; 16]) -> (r: Vec<u8>)
    ensures
        r@ == b@,
{
    postcard::to_stdvec(b).unwrap()
}

/// `postcard::to_stdvec` of 32 bytes: the bytes themselves.
#[verifier::external_body]
pub(crate) fn bytes32_to_wire(b: &[u8; 32]) -> (r: Vec<u8>)
    ensures
        r@ == b@,
{
    postcard::to_stdvec(b).unwrap()
}

/// `postcard::take_from_bytes` of a `u16`: at most three LEB128 bytes.
#[verifier::external_body]
pub(crate) fn u16_from_wire(s: &[u8]) -> (r: Result<(u16, &[u8]), WireError>)
    ensures
        took(r, read_u16(s@)),
{
    postcard::take_from_bytes::<u16>(s).map_err(|e| match e {
        postcard::Error::DeserializeUnexpectedEnd => WireError::UnexpectedEnd,
        postcard::Error::DeserializeBadVarint => WireError::BadVarint,
        _ => WireError::Other,
    })
}

/// `postcard::take_from_bytes` of a `u32`: at most five LEB128 bytes.
#[verifier::external_body]
pub(crate) fn u32_from_wire(s: &[u8]) -> (r: Result<(u32, &[u8]), WireError>)
    ensures
        took(r, read_u32(s@)),
{
    postcard::take_from_bytes::<u32>(s).map_err(|e| match e {
        postcard::Error::DeserializeUnexpectedEnd => WireError::UnexpectedEnd,
        postcard::Error::DeserializeBadVarint => WireError::BadVarint,
        _ => WireError::Other,
    })
}

/// `postcard::take_from_bytes` of a `u64`: at most ten LEB128 bytes.
#[verifier::external_body]
pub(crate) fn u64_from_wire(s: &[u8]) -> (r: Result<(u64, &[u8]), WireError>)
    ensures
        took(r, read_u64(s@)),
{
    postcard::take_from_bytes::<u64>(s).map_err(|e| match e {
        postcard::Error::DeserializeUnexpectedEnd => WireError::UnexpectedEnd,
        postcard::Error::DeserializeBadVarint => WireError::BadVarint,
        _ => WireError::Other,
    })
}

/// Reads a length: a `u64` or a `u32`, whichever is as wide as the machine's addresses.
pub(crate) fn take_usize(s: &[u8]) -> (r: Result<(usize, &[u8]), WireError>)
    ensures
        took(r, read_usize(s@)),
{
    if usize::MAX as u64 == u64::MAX {
        match u64_from_wire(s) {
            Ok((n, rest)) => Ok((n as usize, rest)),
            Err(e) => Err(e),
        }
    } else {
        match u32_from_wire(s) {
            Ok((n, rest)) => Ok((n as usize, rest)),
            Err(e) => Err(e),
        }
    }
}

/// `postcard::take_from_bytes` of a `bool`.
#[verifier::external_body]
pub(crate) fn bool_from_wire(s: &[u8]) -> (r: Result<(bool, &[u8]), WireError>)
    ensures
        took(r, read_bool(s@)),
{
    postcard::take_from_bytes::<bool>(s).map_err(|e| match e {
        postcard::Error::DeserializeUnexpectedEnd => WireError::UnexpectedEnd,
        postcard::Error::DeserializeBadBool => WireError::BadBool,
        _ => WireError::Other,
    })
}

/// `postcard::take_from_bytes` of an `Option<()>`: the tag of an optional
/// value alone, `true` when a value follows.
#[verifier::external_body]
pub(crate) fn tag_from_wire(s: &[u8]) -> (r: Result<(bool, &[u8]), WireError>)
    ensures
        took(r, read_tag(s@)),
{
    match postcard::take_from_bytes::<Option<()>>(s) {
        Ok((tag, rest)) => Ok((tag.is_some(), rest)),
        Err(postcard::Error::DeserializeUnexpectedEnd) => Err(WireError::UnexpectedEnd),
        Err(postcard::Error::DeserializeBadOption) => Err(WireError::BadOption),
        Err(_) => Err(WireError::Other),
    }
}

/// `postcard::take_from_bytes` of a `String`.
#[verifier::external_body]
pub(crate) fn string_from_wire(s: &[u8]) -> (r: Result<(String, &[u8]), WireError>)
    ensures
        match read_text(s@) {
            Ok((t, rest)) => r is Ok && r->Ok_0.0@ == t && r->Ok_0.1@ == rest,
            Err(e) => r is Err && r->Err_0 == e,
        },
{
    postcard::take_from_bytes::<String>(s).map_err(|e| match e {
        postcard::Error::DeserializeUnexpectedEnd => WireError::UnexpectedEnd,
        postcard::Error::DeserializeBadVarint => WireError::BadVarint,
        postcard::Error::DeserializeBadUtf8 => WireError::BadUtf8,
        _ => WireError::Other,
    })
}

/// `postcard::take_from_bytes` of `[u8; 16]`: sixteen raw bytes.
#[verifier::external_body]
pub(crate) fn bytes16_from_wire(s: &[u8]) -> (r: Result<([u8; 16], &[u8]), WireError>)
    ensures
        match read_raw(s@, 16) {
            Ok((b, rest)) => r is Ok && r->Ok_0.0@ == b && r->Ok_0.1@ == rest,
            Err(e) => r is Err && r->Err_0 == e,
        },
{
    postcard::take_from_bytes::<[u8; 16]>(s).map_err(|e| match e {
        postcard::Error::DeserializeUnexpectedEnd => WireError::UnexpectedEnd,
        _ => WireError::Other,
    })
}

/// `postcard::take_from_bytes` of `[u8; 32]`: thirty-two raw bytes.
#[verifier::external_body]
pub(crate) fn bytes32_from_wire(s: &[u8]) -> (r: Result<([u8; 32], &[u8]), WireError>)
    ensures
        match read_raw(s@, 32) {
            Ok((b, rest)) => r is Ok && r->Ok_0.0@ == b && r->Ok_0.1@ == rest,
            Err(e) => r is Err && r->Err_0 == e,
        },
{
    postcard::take_from_bytes::<[u8; 32]>(s).map_err(|e| match e {
        postcard::Error::DeserializeUnexpectedEnd => WireError::UnexpectedEnd,
        _ => WireError::Other,
    })
}

/// One more than the largest number that LEB128 writes in `limit` bytes.
pub open spec fn leb_cap(limit: nat) -> nat
    decreases limit,
{
    if limit == 0 {
        1
    } else {
        128 * leb_cap((limit - 1) as nat)
    }
}

/// A number is read back from its LEB128 bytes, whatever follows them.
pub proof fn lemma_varint_read(n: nat, limit: nat, rest: Seq<u8>)
    requires
        limit >= 1,
        n < leb_cap(limit),
    ensures
        leb_read(varint(n) + rest, limit) == Ok::<(nat, Seq<u8>), WireError>((n, rest)),
    decreases n,
{
    let s = varint(n) + rest;
    if n < 128 {
        assert(s.skip(1) =~= rest);
    } else {
        if limit == 1 {
            assert(leb_cap(0) == 1);
            assert(leb_cap(1) == 128);
        }
        assert(s.skip(1) =~= varint(n / 128) + rest);
        lemma_varint_read(n / 128, (limit - 1) as nat, rest);
    }
}

pub proof fn lemma_read_num(n: nat, rest: Seq<u8>)
    ensures
        n <= u16::MAX ==> read_u16(varint(n) + rest) == Ok::<_, WireError>((n as u16, rest)),
        n <= u32::MAX ==> read_u32(varint(n) + rest) == Ok::<_, WireError>((n as u32, rest)),
        n <= u64::MAX ==> read_u64(varint(n) + rest) == Ok::<_, WireError>((n as u64, rest)),
        n <= usize::MAX ==> read_usize(varint(n) + rest) == Ok::<_, WireError>((n as usize, rest)),
{
    reveal_with_fuel(leb_cap, 11);
    if n <= u16::MAX {
        lemma_varint_read(n, 3, rest);
    }
    if n <= u32::MAX {
        lemma_varint_read(n, 5, rest);
    }
    if n <= u64::MAX {
        lemma_varint_read(n, 10, rest);
    }
}

pub proof fn lemma_read_flag(b: bool, rest: Seq<u8>)
    ensures
        read_bool(flag_byte(b) + rest) == Ok::<(bool, Seq<u8>), WireError>((b, rest)),
        read_tag(flag_byte(b) + rest) == Ok::<(bool, Seq<u8>), WireError>((b, rest)),
{
    assert((flag_byte(b) + rest).skip(1) =~= rest);
}

pub proof fn lemma_read_raw(b: Seq<u8>, rest: Seq<u8>)
    ensures
        read_raw(b + rest, b.len()) == Ok::<(Seq<u8>, Seq<u8>), WireError>((b, rest)),
{
    assert((b + rest).take(b.len() as int) =~= b);
    assert((b + rest).skip(b.len() as int) =~= rest);
}

pub proof fn lemma_read_text(t: Seq<char>, rest: Seq<u8>)
    requires
        encode_utf8(t).len() <= usize::MAX,
    ensures
        read_text(text_bytes(t) + rest) == Ok::<(Seq<char>, Seq<u8>), WireError>((t, rest)),
{
    broadcast use vstd::utf8::encode_utf8_valid_utf8, vstd::utf8::encode_utf8_decode_utf8;

    let b = encode_utf8(t);
    assert(text_bytes(t) + rest =~= varint(b.len()) + (b + rest));
    lemma_read_num(b.len(), b + rest);
    lemma_read_raw(b, rest);
}

} // verus!
