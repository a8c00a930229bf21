//! Stream discriminator and Data-stream header.
//!
//! Neither takes part in frame encoding: both stand at the raw byte level of
//! a stream. The kind is the first byte of every stream; on a Data stream the
//! nine-byte header holds that kind and the tunnel id, little-endian.

use crate::bytes::{le, le64, le_value, lemma_le_value, pow256, read_le64};
use crate::proto::consts::DATA_HEADER_SIZE;
use crate::proto::ids::TunnelId;
use crate::text::{push_char, upper_hex, upper_hex_digit};
use vstd::prelude::*;
use vstd::std_specs::convert::TryFromSpecImpl;
use vstd::string::*;

verus! {

/// First byte of every stream opened over a KROT connection.
#[derive(Copy, Clone, Debug, PartialEq, Eq, Structural)]
pub enum StreamKind {
    /// Bidirectional control stream, opened by the client.
    Control,
    /// Bidirectional data stream carrying one inbound HTTP connection.
    DataHttp,
    /// Bidirectional data stream carrying one inbound raw TCP connection.
    DataTcp,
}

impl StreamKind {
    /// The byte that stands for this kind.
    pub open spec fn byte(self) -> u8 {
        match self {
            StreamKind::Control => 1,
            StreamKind::DataHttp => 2,
            StreamKind::DataTcp => 3,
        }
    }

    /// The byte that stands for this kind.
    pub fn as_byte(self) -> (b: u8)
        ensures
            b == self.byte(),
    {
        match self {
            StreamKind::Control => 1,
            StreamKind::DataHttp => 2,
            StreamKind::DataTcp => 3,
        }
    }
}

/// A byte that names no stream kind, or none that may stand where it was found.
#[derive(Copy, Clone, Debug, PartialEq, Eq, Structural)]
pub struct StreamKindError(pub u8);

impl StreamKindError {
    /// How the error is shown.
    pub fn to_text(&self) -> (r: String)
        ensures
            r@ == "unknown stream kind 0x"@ + seq![
                upper_hex(self.0 as int / 16),
                upper_hex(self.0 as int % 16),
            ],
    {
        let mut out = "unknown stream kind 0x".to_owned();
        push_char(&mut out, upper_hex_digit(self.0 / 16));
        push_char(&mut out, upper_hex_digit(self.0 % 16));
        assert(out@ =~= "unknown stream kind 0x"@ + seq![
            upper_hex(self.0 as int / 16),
            upper_hex(self.0 as int % 16),
        ]);
        out
    }
}

/// The kind that a byte stands for.
pub open spec fn kind_of(v: u8) -> Result<StreamKind, StreamKindError> {
    if v == 1 {
        Ok(StreamKind::Control)
    } else if v == 2 {
        Ok(StreamKind::DataHttp)
    } else if v == 3 {
        Ok(StreamKind::DataTcp)
    } else {
        Err(StreamKindError(v))
    }
}

impl TryFrom<u8> for StreamKind {
    type Error = StreamKindError;

    fn try_from(v: u8) -> (r: Result<StreamKind, StreamKindError>) {
        match v {
            1 => Ok(StreamKind::Control),
            2 => Ok(StreamKind::DataHttp),
            3 => Ok(StreamKind::DataTcp),
            other => Err(StreamKindError(other)),
        }
    }
}

impl TryFromSpecImpl<u8> for StreamKind {
    open spec fn obeys_try_from_spec() -> bool {
        true
    }

    open spec fn try_from_spec(v: u8) -> Result<StreamKind, StreamKindError> {
        kind_of(v)
    }
}

/// Fixed nine-byte header that the server writes at the start of every Data stream.
#[derive(Copy, Clone, Debug, PartialEq, Eq, Structural)]
pub struct DataHeader {
    pub kind: StreamKind,
    pub tunnel_id: TunnelId,
}

impl DataHeader {
    /// The nine bytes of a header.
    pub open spec fn wire(self) -> Seq<u8> {
        seq![self.kind.byte()] + le(self.tunnel_id.0 as nat, 8)
    }

    /// What nine bytes are decoded to.
    pub open spec fn parse(s: Seq<u8>) -> Result<DataHeader, StreamKindError> {
        match kind_of(s[0]) {
            Err(e) => Err(e),
            Ok(StreamKind::Control) => Err(StreamKindError(s[0])),
            Ok(kind) => Ok(
                DataHeader { kind, tunnel_id: TunnelId(le_value(s.subrange(1, 9)) as u64) },
            ),
        }
    }

    /// Encode into a caller-provided nine-byte buffer.
    pub fn encode(self, out: &mut [u8; 9])
        ensures
            final(out)@ == self.wire(),
    {
        *out = self.to_bytes();
    }

    /// Encode into a fresh array.
    pub fn to_bytes(self) -> (buf: [u8; 9])
        ensures
            buf@ == self.wire(),
    {
        let id = le64(self.tunnel_id.0);
        let buf = [
            self.kind.as_byte(),
            id[0],
            id[1],
            id[2],
            id[3],
            id[4],
            id[5],
            id[6],
            id[7],
        ];
        assert(id@.len() == 8);
        assert(buf@ =~= self.wire());
        buf
    }

    /// Decode a Data-stream header. Only the data-carrying kinds are accepted.
    pub fn decode(bytes: &[u8; 9]) -> (r: Result<DataHeader, StreamKindError>)
        ensures
            r == DataHeader::parse(bytes@),
    {
        let kind = match StreamKind::try_from(bytes[0]) {
            Ok(kind) => kind,
            Err(e) => return Err(e),
        };
        if matches!(kind, StreamKind::Control) {
            return Err(StreamKindError(bytes[0]));
        }
        Ok(DataHeader { kind, tunnel_id: TunnelId(read_le64(bytes.as_slice(), 1)) })
    }
}

/// A data-carrying header is decoded from its own nine bytes.
pub proof fn law_data_header_roundtrip(h: DataHeader)
    requires
        !(h.kind is Control),
    ensures
        h.wire().len() == DATA_HEADER_SIZE,
        DataHeader::parse(h.wire()) == Ok::<DataHeader, StreamKindError>(h),
{
    reveal_with_fuel(pow256, 9);
    lemma_le_value(h.tunnel_id.0 as nat, 8);
    assert(h.wire().subrange(1, 9) =~= le(h.tunnel_id.0 as nat, 8));
}

/// A header of the Control kind, or of no kind, is never decoded.
pub proof fn law_data_header_refuses_other_kinds(s: Seq<u8>)
    requires
        s.len() == DATA_HEADER_SIZE,
        s[0] != 2 && s[0] != 3,
    ensures
        DataHeader::parse(s) == Err::<DataHeader, StreamKindError>(StreamKindError(s[0])),
{
}

} // verus!
