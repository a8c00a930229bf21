//! Inbound connections of a raw TCP tunnel.

use crate::proto::consts::MAX_FRAME_SIZE;
use crate::proto::frames::{InspectionPrelude, InspectionPreludeView, WireValue};
use crate::proto::framing::FramingError;
use crate::proto::ids::TunnelId;
use crate::proto::stream::{DataHeader, StreamKind};
use crate::server::domain::http::{open_stream, preamble_spec};
use vstd::prelude::*;

verus! {

/// The prelude of a TCP visitor, where the tunnel asked for one: there is no
/// HTTP metadata.
pub open spec fn tcp_prelude_spec(inspect: bool, accept_unix_secs: u64, peer: Seq<char>) -> Option<
    InspectionPreludeView,
> {
    if inspect {
        Some(InspectionPreludeView { accept_unix_secs, peer, http: None })
    } else {
        None
    }
}

/// What is sent on the Data stream of a TCP visitor before the visitor's
/// bytes. Fails when the prelude does not fit a frame.
pub fn handle_incoming(tunnel_id: TunnelId, inspect: bool, accept_unix_secs: u64, peer: String) -> (r:
    Result<Vec<u8>, FramingError>)
    ensures
        match tcp_prelude_spec(inspect, accept_unix_secs, peer@) {
            Some(p) if InspectionPrelude::wire(p).len() > MAX_FRAME_SIZE => r == Err::<Vec<u8>, _>(
                FramingError::FrameTooLarge {
                    size: InspectionPrelude::wire(p).len() as usize,
                    max: MAX_FRAME_SIZE,
                },
            ),
            prelude => r is Ok && r->Ok_0@ == preamble_spec(
                DataHeader { kind: StreamKind::DataTcp, tunnel_id },
                prelude,
            ),
        },
{
    let nothing: Vec<u8> = Vec::new();
    let r = if inspect {
        let prelude = InspectionPrelude { accept_unix_secs, peer, http: None };
        open_stream(StreamKind::DataTcp, tunnel_id, Some(&prelude), nothing.as_slice())
    } else {
        open_stream(StreamKind::DataTcp, tunnel_id, None, nothing.as_slice())
    };
    proof {
        if r is Ok {
            assert(forall|s: Seq<u8>| #[trigger] (s + nothing@) =~= s);
        }
    }
    r
}

} // verus!
