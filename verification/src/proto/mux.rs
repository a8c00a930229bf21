//! Stream-multiplexing header of the `krot-tcp/1` transport.
//!
//! Every OPEN, DATA and FIN on a TCP-fallback control connection starts with
//! nine bytes: the flag, the stream id and the payload length, both integers
//! little-endian. Stream 0 is the Control stream; the ids from 1 on are minted
//! by the opener, even ones by the client and odd ones by the server.

use crate::bytes::{le, le32, le_value, lemma_le_value, pow256, read_le32};
use crate::text::{dec, lower_hex, lower_hex_digit, push_char, push_u64};
use vstd::prelude::*;
use vstd::std_specs::convert::TryFromSpecImpl;
use vstd::string::*;

verus! {

/// Fixed size of the mux frame header.
pub const MUX_HEADER_SIZE: usize = 9;

/// Reserved `stream_id` of the Control stream.
pub const CONTROL_STREAM_ID: u32 = 0;

/// Kind of mux frame.
#[derive(Debug, Clone, Copy, PartialEq, Eq, Structural)]
pub enum MuxFlag {
    /// The peer opens a new stream. The payload is the nine-byte Data-stream header.
    Open,
    /// Bytes for an open stream.
    Data,
    /// The peer has finished sending on this stream. The payload is empty.
    Fin,
}

impl MuxFlag {
    /// The byte that stands for this flag.
    pub open spec fn byte(self) -> u8 {
        match self {
            MuxFlag::Open => 1,
            MuxFlag::Data => 2,
            MuxFlag::Fin => 3,
        }
    }

    /// The byte that stands for this flag.
    pub fn as_byte(self) -> (b: u8)
        ensures
            b == self.byte(),
    {
        match self {
            MuxFlag::Open => 1,
            MuxFlag::Data => 2,
            MuxFlag::Fin => 3,
        }
    }
}

/// The flag that a byte stands for.
pub open spec fn flag_of(byte: u8) -> Result<MuxFlag, MuxHeaderError> {
    if byte == 1 {
        Ok(MuxFlag::Open)
    } else if byte == 2 {
        Ok(MuxFlag::Data)
    } else if byte == 3 {
        Ok(MuxFlag::Fin)
    } else {
        Err(MuxHeaderError::UnknownFlag(byte))
    }
}

impl TryFrom<u8> for MuxFlag {
    type Error = MuxHeaderError;

    fn try_from(byte: u8) -> (r: Result<MuxFlag, MuxHeaderError>) {
        match byte {
            1 => Ok(MuxFlag::Open),
            2 => Ok(MuxFlag::Data),
            3 => Ok(MuxFlag::Fin),
            _ => Err(MuxHeaderError::UnknownFlag(byte)),
        }
    }
}

impl TryFromSpecImpl<u8> for MuxFlag {
    open spec fn obeys_try_from_spec() -> bool {
        true
    }

    open spec fn try_from_spec(byte: u8) -> Result<MuxFlag, MuxHeaderError> {
        flag_of(byte)
    }
}

/// Parsed mux frame header.
#[derive(Debug, Clone, Copy, PartialEq, Eq, Structural)]
pub struct MuxHeader {
    pub flag: MuxFlag,
    pub stream_id: u32,
    pub payload_len: u32,
}

/// Why a mux header was refused.
#[derive(Debug, Clone, Copy, PartialEq, Eq, Structural)]
pub enum MuxHeaderError {
    TooShort,
    UnknownFlag(u8),
    FinWithPayload(u32),
    OpenBadPayload(u32),
}

impl MuxHeader {
    /// The nine bytes of a header.
    pub open spec fn wire(self) -> Seq<u8> {
        seq![self.flag.byte()] + le(self.stream_id as nat, 4) + le(self.payload_len as nat, 4)
    }

    /// The headers that a peer may send: FIN carries nothing, and OPEN exactly
    /// the Data-stream header.
    pub open spec fn well_formed(self) -> bool {
        &&& self.flag is Fin ==> self.payload_len == 0
        &&& self.flag is Open ==> self.payload_len == 9
    }

    /// What the bytes `s` are decoded to.
    pub open spec fn parse(s: Seq<u8>) -> Result<MuxHeader, MuxHeaderError> {
        if s.len() < MUX_HEADER_SIZE {
            Err(MuxHeaderError::TooShort)
        } else {
            match flag_of(s[0]) {
                Err(e) => Err(e),
                Ok(flag) => {
                    let stream_id = le_value(s.subrange(1, 5)) as u32;
                    let payload_len = le_value(s.subrange(5, 9)) as u32;
                    if flag is Fin && payload_len != 0 {
                        Err(MuxHeaderError::FinWithPayload(payload_len))
                    } else if flag is Open && payload_len != 9 {
                        Err(MuxHeaderError::OpenBadPayload(payload_len))
                    } else {
                        Ok(MuxHeader { flag, stream_id, payload_len })
                    }
                },
            }
        }
    }

    /// Serialize to a fixed-size byte array.
    pub fn to_bytes(&self) -> (out: [u8; 9])
        ensures
            out@ == self.wire(),
    {
        let id = le32(self.stream_id);
        let len = le32(self.payload_len);
        let out = [
            self.flag.as_byte(),
            id[0],
            id[1],
            id[2],
            id[3],
            len[0],
            len[1],
            len[2],
            len[3],
        ];
        assert(id@.len() == 4 && len@.len() == 4);
        assert(out@ =~= self.wire());
        out
    }

    /// Parse from a byte slice; what follows the nine header bytes is not read.
    pub fn decode(bytes: &[u8]) -> (r: Result<MuxHeader, MuxHeaderError>)
        ensures
            r == MuxHeader::parse(bytes@),
    {
        if bytes.len() < MUX_HEADER_SIZE {
            return Err(MuxHeaderError::TooShort);
        }
        let flag = match MuxFlag::try_from(bytes[0]) {
            Ok(flag) => flag,
            Err(e) => return Err(e),
        };
        let stream_id = read_le32(bytes, 1);
        let payload_len = read_le32(bytes, 5);
        if matches!(flag, MuxFlag::Fin) && payload_len != 0 {
            return Err(MuxHeaderError::FinWithPayload(payload_len));
        }
        if matches!(flag, MuxFlag::Open) && payload_len != 9 {
            return Err(MuxHeaderError::OpenBadPayload(payload_len));
        }
        Ok(MuxHeader { flag, stream_id, payload_len })
    }
}

/// A well-formed header is decoded from its own bytes, whatever follows them.
pub proof fn law_mux_header_roundtrip(h: MuxHeader, rest: Seq<u8>)
    requires
        h.well_formed(),
    ensures
        h.wire().len() == MUX_HEADER_SIZE,
        MuxHeader::parse(h.wire() + rest) == Ok::<MuxHeader, MuxHeaderError>(h),
{
    reveal_with_fuel(pow256, 5);
    lemma_le_value(h.stream_id as nat, 4);
    lemma_le_value(h.payload_len as nat, 4);
    let s = h.wire() + rest;
    assert(s.subrange(1, 5) =~= le(h.stream_id as nat, 4));
    assert(s.subrange(5, 9) =~= le(h.payload_len as nat, 4));
}

/// Only well-formed headers are ever decoded.
pub proof fn law_mux_decode_well_formed(s: Seq<u8>)
    ensures
        MuxHeader::parse(s) is Ok ==> MuxHeader::parse(s)->Ok_0.well_formed(),
{
}

/// Encoding a header that is not well formed gives bytes that are refused,
/// with the error that names its payload length.
pub proof fn law_mux_ill_formed_refused(h: MuxHeader, rest: Seq<u8>)
    requires
        !h.well_formed(),
    ensures
        MuxHeader::parse(h.wire() + rest) == Err::<MuxHeader, MuxHeaderError>(
            if h.flag is Fin {
                MuxHeaderError::FinWithPayload(h.payload_len)
            } else {
                MuxHeaderError::OpenBadPayload(h.payload_len)
            },
        ),
{
    reveal_with_fuel(pow256, 5);
    lemma_le_value(h.stream_id as nat, 4);
    lemma_le_value(h.payload_len as nat, 4);
    let s = h.wire() + rest;
    assert(s.subrange(5, 9) =~= le(h.payload_len as nat, 4));
}

impl MuxHeaderError {
    /// How the error is shown.
    pub open spec fn text(self) -> Seq<char> {
        match self {
            MuxHeaderError::TooShort => "mux header too short"@,
            MuxHeaderError::UnknownFlag(b) => "unknown mux flag byte: 0x"@ + seq![
                lower_hex(b as int / 16),
                lower_hex(b as int % 16),
            ],
            MuxHeaderError::FinWithPayload(n) => "FIN carries "@ + dec(n as nat)
                + " bytes, must be 0"@,
            MuxHeaderError::OpenBadPayload(n) => "OPEN carries "@ + dec(n as nat)
                + " bytes, must be 9"@,
        }
    }

    /// How the error is shown.
    pub fn to_text(&self) -> (r: String)
        ensures
            r@ == self.text(),
    {
        match self {
            MuxHeaderError::TooShort => "mux header too short".to_owned(),
            MuxHeaderError::UnknownFlag(b) => {
                let mut out = "unknown mux flag byte: 0x".to_owned();
                push_char(&mut out, lower_hex_digit(*b / 16));
                push_char(&mut out, lower_hex_digit(*b % 16));
                assert(out@ =~= self.text());
                out
            },
            MuxHeaderError::FinWithPayload(n) => {
                let mut out = "FIN carries ".to_owned();
                push_u64(&mut out, *n as u64);
                out.append(" bytes, must be 0");
                out
            },
            MuxHeaderError::OpenBadPayload(n) => {
                let mut out = "OPEN carries ".to_owned();
                push_u64(&mut out, *n as u64);
                out.append(" bytes, must be 9");
                out
            },
        }
    }
}

/// Whether `stream_id` belongs to the client half of the mux.
pub open spec fn client_opened(stream_id: u32) -> bool {
    stream_id != CONTROL_STREAM_ID && stream_id % 2 == 0
}

/// Whether `stream_id` belongs to the server half of the mux.
pub open spec fn server_opened(stream_id: u32) -> bool {
    stream_id != CONTROL_STREAM_ID && stream_id % 2 != 0
}

/// Whether `stream_id` was minted by the client half of the mux.
pub fn is_client_opened(stream_id: u32) -> (r: bool)
    ensures
        r == client_opened(stream_id),
{
    stream_id != CONTROL_STREAM_ID && stream_id % 2 == 0
}

/// Whether `stream_id` was minted by the server half of the mux.
pub fn is_server_opened(stream_id: u32) -> (r: bool)
    ensures
        r == server_opened(stream_id),
{
    stream_id != CONTROL_STREAM_ID && stream_id % 2 != 0
}

/// Every stream id is the Control stream's, a client's or a server's, and only one of these.
pub proof fn law_stream_ids_partitioned(stream_id: u32)
    ensures
        stream_id == CONTROL_STREAM_ID || client_opened(stream_id) || server_opened(stream_id),
        !(client_opened(stream_id) && server_opened(stream_id)),
        stream_id == CONTROL_STREAM_ID ==> !client_opened(stream_id) && !server_opened(stream_id),
{
}

} // verus!
