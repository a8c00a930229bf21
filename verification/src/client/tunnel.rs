//! Publishing a tunnel: the frame that registers it, and the server's reply.

use crate::client::error::ClientError;
use crate::proto::frames::{ClientFrame, ClientFrameView, ServerFrame, TunnelKind};
use crate::proto::ids::{SessionId, TunnelId};
use vstd::prelude::*;
use vstd::string::*;

verus! {

/// What the server assigned to a registered tunnel.
#[derive(Debug, Clone)]
pub struct PublishedTunnel {
    pub tunnel_id: TunnelId,
    pub public_url: String,
    pub public_port: Option<u16>,
}

/// The registration of a tunnel. The inspection prelude is asked for exactly
/// when there is an inspector to show it.
pub open spec fn registration(
    label: Seq<char>,
    kind: TunnelKind,
    has_inspector: bool,
    resume: Option<SessionId>,
) -> ClientFrameView {
    ClientFrameView::RegisterTunnel {
        label,
        kind,
        resume_session_id: match resume {
            Some(id) => Some(id.0@),
            None => None,
        },
        inspect: has_inspector,
    }
}

/// The frame that registers a tunnel.
pub fn publish(
    label: &str,
    kind: TunnelKind,
    has_inspector: bool,
    resume_session_id: Option<SessionId>,
) -> (r: ClientFrame)
    ensures
        r@ == registration(label@, kind, has_inspector, resume_session_id),
{
    ClientFrame::RegisterTunnel {
        label: label.to_owned(),
        kind,
        resume_session_id,
        inspect: has_inspector,
    }
}

/// The frame that registers a TCP tunnel, on a port of the server's choice.
pub fn publish_tcp(label: &str) -> (r: ClientFrame)
    ensures
        r@ == registration(label@, TunnelKind::Tcp { remote_port: None }, false, None),
{
    publish(label, TunnelKind::Tcp { remote_port: None }, false, None)
}

/// The frame that takes a TCP tunnel of an earlier session over.
pub fn publish_tcp_resume(label: &str, resume_session_id: SessionId) -> (r: ClientFrame)
    ensures
        r@ == registration(
            label@,
            TunnelKind::Tcp { remote_port: None },
            false,
            Some(resume_session_id),
        ),
{
    publish(label, TunnelKind::Tcp { remote_port: None }, false, Some(resume_session_id))
}

/// The frame that registers an HTTP tunnel. With an authentication policy of
/// the client's own it is the same: the server has no part in that.
pub fn publish_http(label: &str, has_inspector: bool) -> (r: ClientFrame)
    ensures
        r@ == registration(label@, TunnelKind::Http, has_inspector, None),
{
    publish(label, TunnelKind::Http, has_inspector, None)
}

/// The frame that takes an HTTP tunnel of an earlier session over.
pub fn publish_http_resume(label: &str, has_inspector: bool, resume_session_id: SessionId) -> (r:
    ClientFrame)
    ensures
        r@ == registration(label@, TunnelKind::Http, has_inspector, Some(resume_session_id)),
{
    publish(label, TunnelKind::Http, has_inspector, Some(resume_session_id))
}

/// What came of a registration with this reply, or with none in time.
pub open spec fn registered_spec(reply: Option<ServerFrame>) -> Result<PublishedTunnel, ClientError> {
    match reply {
        None => Err(ClientError::RegistrationTimeout),
        Some(ServerFrame::TunnelRegistered { tunnel_id, public_url, public_port }) => Ok(
            PublishedTunnel { tunnel_id, public_url, public_port },
        ),
        Some(ServerFrame::TunnelRejected { code, detail }) => Err(
            ClientError::TunnelRejected(code, detail),
        ),
        Some(_) => Err(ClientError::Protocol("expected TunnelRegistered")),
    }
}

/// What came of a registration, given the server's reply, or `None` when it
/// did not come before the deadline.
pub fn on_registered(reply: Option<ServerFrame>) -> (r: Result<PublishedTunnel, ClientError>)
    ensures
        r == registered_spec(reply),
        r == match reply {
            None => Err::<PublishedTunnel, ClientError>(ClientError::RegistrationTimeout),
            Some(ServerFrame::TunnelRegistered { tunnel_id, public_url, public_port }) => Ok(
                PublishedTunnel { tunnel_id, public_url, public_port },
            ),
            Some(ServerFrame::TunnelRejected { code, detail }) => Err(
                ClientError::TunnelRejected(code, detail),
            ),
            Some(_) => Err(ClientError::Protocol("expected TunnelRegistered")),
        },
{
    match reply {
        None => Err(ClientError::RegistrationTimeout),
        Some(ServerFrame::TunnelRegistered { tunnel_id, public_url, public_port }) => Ok(
            PublishedTunnel { tunnel_id, public_url, public_port },
        ),
        Some(ServerFrame::TunnelRejected { code, detail }) => Err(
            ClientError::TunnelRejected(code, detail),
        ),
        Some(_) => Err(ClientError::Protocol("expected TunnelRegistered")),
    }
}

/// A tunnel is published exactly when the server confirms it, under the id,
/// address and port that the server names; a refusal keeps its code and
/// detail, and silence is a time-out.
pub proof fn law_server_confirms_a_tunnel(frame: ServerFrame)
    ensures
        registered_spec(None) == Err::<PublishedTunnel, ClientError>(ClientError::RegistrationTimeout),
        registered_spec(Some(frame)) is Ok <==> frame is TunnelRegistered,
        frame is TunnelRegistered ==> {
            let t = registered_spec(Some(frame))->Ok_0;
            t.tunnel_id == frame->TunnelRegistered_tunnel_id && t.public_url == frame->public_url
                && t.public_port == frame->public_port
        },
        frame is TunnelRejected ==> registered_spec(Some(frame)) == Err::<PublishedTunnel, ClientError>(
            ClientError::TunnelRejected(frame->TunnelRejected_code, frame->detail),
        ),
{
}

} // verus!
