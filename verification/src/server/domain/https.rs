//! HTTPS router: control connections by ALPN, tunnels by SNI.

use crate::proto::consts::ALPN_TCP;
use crate::proto::frames::{HttpMetadata, InspectionPrelude};
use crate::proto::ids::same_bytes;
use crate::server::domain::http::{label_of, label_spec};
use crate::server::domain::sni::{byte_views, SniPeek};
use vstd::prelude::*;

verus! {

/// Where a TLS connection goes.
pub enum HttpsRoute {
    /// Terminate TLS here and speak `krot-tcp/1`, with the hello replayed.
    ControlMux,
    /// Pass the bytes through to the tunnel with this label.
    Tunnel { label: String },
    /// Drop the connection: its name is not under the apex.
    Drop,
}

/// Whether a client offers the control protocol.
pub open spec fn offers_control(alpn: Seq<Seq<u8>>) -> bool {
    exists|i: int| 0 <= i < alpn.len() && #[trigger] alpn[i] == ALPN_TCP@
}

fn has_control(alpn: &Vec<Vec<u8>>) -> (r: bool)
    ensures
        r == offers_control(byte_views(alpn@)),
{
    let control = ALPN_TCP;
    for i in 0..alpn.len()
        invariant
            control == ALPN_TCP,
            forall|j: int| 0 <= j < i ==> (#[trigger] alpn@[j])@ != ALPN_TCP@,
    {
        if same_bytes(alpn[i].as_slice(), control.as_slice()) {
            assert(byte_views(alpn@)[i as int] == ALPN_TCP@);
            return true;
        }
    }
    assert forall|j: int| 0 <= j < byte_views(alpn@).len() implies #[trigger] byte_views(alpn@)[j]
        != ALPN_TCP@ by {
        assert(alpn@[j]@ != ALPN_TCP@);
    }
    false
}

/// The label that a server name carries under an apex domain.
pub fn extract_label(server_name: &str, apex: &str) -> (r: Option<String>)
    ensures
        crate::text::opt_view(r) == label_spec(server_name@, apex@),
{
    label_of(server_name, apex)
}

/// Whether `r` is where a TLS connection with this name and these ALPN
/// identifiers goes.
pub open spec fn https_routed(
    name: Seq<char>,
    alpn: Seq<Seq<u8>>,
    apex: Seq<char>,
    r: HttpsRoute,
) -> bool {
    if offers_control(alpn) {
        r is ControlMux
    } else {
        match label_spec(name, apex) {
            Some(label) => r is Tunnel && r->label@ == label,
            None => r is Drop,
        }
    }
}

/// Where a TLS connection goes that began with this hello.
pub fn route_hello(peeked: &SniPeek, apex: &str) -> (r: HttpsRoute)
    ensures
        https_routed(peeked.server_name@, byte_views(peeked.alpn@), apex@, r),
{
    if has_control(&peeked.alpn) {
        return HttpsRoute::ControlMux;
    }
    match extract_label(peeked.server_name.as_str(), apex) {
        Some(label) => HttpsRoute::Tunnel { label },
        None => HttpsRoute::Drop,
    }
}

/// The prelude of an HTTPS visitor: the SNI stands for the host too.
pub fn https_prelude(accept_unix_secs: u64, peer: String, server_name: &String) -> (r:
    InspectionPrelude)
    ensures
        r@.accept_unix_secs == accept_unix_secs,
        r@.peer == peer@,
        r@.http is Some,
        r@.http->0.host == server_name@,
        r@.http->0.sni == Some(server_name@),
{
    InspectionPrelude {
        accept_unix_secs,
        peer,
        http: Some(
            HttpMetadata { host: server_name.clone(), sni: Some(server_name.clone()) },
        ),
    }
}

} // verus!
