//! One server-initiated Data stream, as a machine.
//!
//! Whoever owns the sockets hands each event to [`BiStream`] and carries out
//! the [`BiAction`] that comes back. Plain HTTP is let through to the local
//! target only when the tunnel's policy allows it; TCP tunnels and TLS
//! passthrough have no headers to look at and are relayed as they are.

use crate::client::error::ClientError;
use crate::client::inspector::{EntryId, Inspector, InspectorView};
use crate::client::local_auth::{
    api_key_spec, looks_like_tls, token_in, ActionView, AuthConfig, AuthPolicy, Moment, Outcome, SessionAction,
};
use crate::client::proxy::{
    bad_request_response, bad_request_spec, body_share, check_header, head_line, is_login_post, method_of,
    parse_status_line, path_of, peek_more, peek_request, peek_response, peek_until_headers, peeks_on, plan_auth,
    plan_spec, read_exact_into, render_action, reply_of, request_line, shown_line, shown_status, status_line, AuthPlan,
    HeadPeek, PlanView, INSPECT_HEADER_CAP, MAX_HEADERS,
};
use crate::clock::{is_unix_time, max_millis, max_nanos, millis_spec, nanos_since, unix_millis};
use crate::codec::random32;
use crate::http_parse::{
    blank_line, head_end, http_request, http_response, parse_request, ParseStatus, ParsedRequest, RequestView,
};
use crate::proto::frames::{InspectionPrelude, InspectionPreludeView};
use crate::proto::ids::TunnelId;
use crate::proto::stream::{DataHeader, StreamKind};
use vstd::prelude::*;

verus! {

/// What the streams of a tunnel share.
pub struct TunnelState {
    pub inspector: Option<Inspector>,
    pub auth: Option<AuthConfig>,
}

impl TunnelState {
    /// The inspector and the policy are well-formed.
    pub open spec fn wf(self) -> bool {
        &&& self.inspector is Some ==> self.inspector->0.wf()
        &&& self.auth is Some ==> self.auth->0.policy.wf()
    }

    /// What the inspector holds, if there is one.
    pub open spec fn log(self) -> Option<InspectorView> {
        match self.inspector {
            Some(i) => Some(i@),
            None => None,
        }
    }

    /// The instant from which the inspector counts the time, which nothing here changes.
    pub open spec fn origin(self) -> Option<std::time::Instant> {
        match self.inspector {
            Some(i) => Some(i.origin()),
            None => None,
        }
    }

    /// The policy, if there is one.
    pub open spec fn policy(self) -> Option<AuthPolicy> {
        match self.auth {
            Some(a) => Some(a.policy),
            None => None,
        }
    }

    /// The realm, which nothing here changes.
    pub open spec fn realm(self) -> Option<Seq<char>> {
        match self.auth {
            Some(a) => Some(a.realm@),
            None => None,
        }
    }
}

/// Where a stream stands.
#[derive(Debug, Clone, Copy, PartialEq, Eq, Structural)]
pub enum Phase {
    /// The header is to be read.
    Header,
    /// The inspection prelude is to be read.
    Prelude,
    /// The first bytes of the visitor are to be read, to tell TLS from HTTP.
    First,
    /// The request head is to be read, to authenticate it.
    Head,
    /// The login form is to be read.
    Body { complete_at: usize, target: usize },
    /// The local target is to be dialed.
    Dialing,
    /// The request head is to be read, for the inspector.
    StreamHead,
    /// The response head is to be read, for the inspector.
    LocalHead,
    /// The rest is relayed both ways.
    Relaying,
    /// The stream was answered here, or refused.
    Closed,
}

/// What to do next.
pub enum BiAction {
    /// Read the inspection prelude.
    ReadPrelude,
    /// Read a chunk from the stream.
    ReadStream,
    /// Write this to the stream and finish it.
    Respond(Vec<u8>),
    /// Connect to the local target and write this to it.
    Dial(Vec<u8>),
    /// Write this to the local target, then read a chunk from it.
    SendLocal(Vec<u8>),
    /// Read a chunk from the local target.
    ReadLocal,
    /// Write this to the stream, then relay both ways.
    Relay(Vec<u8>),
    /// Give up.
    Fail(ClientError),
}

/// What a [`BiAction`] says.
pub enum StepView {
    ReadPrelude,
    ReadStream,
    Respond(Seq<u8>),
    Dial(Seq<u8>),
    SendLocal(Seq<u8>),
    ReadLocal,
    Relay(Seq<u8>),
    Fail(ClientError),
}

impl View for BiAction {
    type V = StepView;

    open spec fn view(&self) -> StepView {
        match *self {
            BiAction::ReadPrelude => StepView::ReadPrelude,
            BiAction::ReadStream => StepView::ReadStream,
            BiAction::Respond(b) => StepView::Respond(b@),
            BiAction::Dial(b) => StepView::Dial(b@),
            BiAction::SendLocal(b) => StepView::SendLocal(b@),
            BiAction::ReadLocal => StepView::ReadLocal,
            BiAction::Relay(b) => StepView::Relay(b@),
            BiAction::Fail(e) => StepView::Fail(e),
        }
    }
}

/// One Data stream.
pub struct BiStream {
    /// The tunnel that it must belong to.
    pub expected: TunnelId,
    /// Whether the server sends an inspection prelude.
    pub inspect: bool,
    pub kind: StreamKind,
    pub phase: Phase,
    pub prelude: Option<InspectionPrelude>,
    /// What was read of the request.
    pub request: Vec<u8>,
    /// What was read of the response.
    pub response: Vec<u8>,
    /// The entry of the request in the inspector.
    pub entry: Option<EntryId>,
}

/// What a [`BiStream`] holds.
pub struct BiView {
    pub expected: TunnelId,
    pub inspect: bool,
    pub kind: StreamKind,
    pub phase: Phase,
    pub prelude: Option<InspectionPreludeView>,
    pub request: Seq<u8>,
    pub response: Seq<u8>,
    pub entry: Option<u64>,
}

/// The view of an optional prelude.
pub open spec fn prelude_view(o: Option<InspectionPrelude>) -> Option<InspectionPreludeView> {
    match o {
        Some(p) => Some(p@),
        None => None,
    }
}

impl View for BiStream {
    type V = BiView;

    open spec fn view(&self) -> BiView {
        BiView {
            expected: self.expected,
            inspect: self.inspect,
            kind: self.kind,
            phase: self.phase,
            prelude: prelude_view(self.prelude),
            request: self.request@,
            response: self.response@,
            entry: self.entry,
        }
    }
}

/// The inputs of a step that no event carries: a moment for the session
/// policy, and two readings of the clock for the inspector.
pub struct Tick {
    pub moment: Moment,
    pub now_ms: u128,
    pub now: u128,
}

impl Tick {
    /// The session policy can express its deadlines.
    pub open spec fn wf(self) -> bool {
        self.moment.t2 <= max_nanos()
    }

    /// Whether the clocks can give these readings.
    pub open spec fn is_reading(self) -> bool {
        &&& self.moment.t1 <= max_nanos()
        &&& self.moment.t2 <= max_nanos()
        &&& self.now <= max_nanos()
        &&& self.now_ms <= max_millis()
    }
}

impl BiView {
    /// A login form is read behind the end of the head, and only a request that
    /// was recorded waits for its response.
    pub open spec fn wf(self) -> bool {
        &&& self.phase matches Phase::Body { complete_at, target } ==> {
            &&& head_end(self.request) == Some(complete_at as int)
            &&& complete_at <= self.request.len()
            &&& complete_at <= target
        }
        &&& self.phase is LocalHead ==> self.entry is Some
    }

    /// This stream in another phase.
    pub open spec fn at(self, phase: Phase) -> BiView {
        BiView { phase, ..self }
    }

    /// After the preamble: the request of an HTTP tunnel with a policy is
    /// looked at first, anything else goes to the local target.
    pub open spec fn begun(self, has_policy: bool) -> (BiView, StepView) {
        if has_policy && self.kind is DataHttp {
            (self.at(Phase::First), StepView::ReadStream)
        } else {
            (self.at(Phase::Dialing), StepView::Dial(Seq::empty()))
        }
    }

    /// After the header.
    pub open spec fn headed(self, bytes: Seq<u8>, has_policy: bool) -> (BiView, StepView) {
        match DataHeader::parse(bytes) {
            Err(_) => (
                self.at(Phase::Closed),
                StepView::Fail(ClientError::Protocol("bad DataHeader from server")),
            ),
            Ok(h) => if h.tunnel_id != self.expected {
                (
                    self.at(Phase::Closed),
                    StepView::Fail(ClientError::Protocol("wrong tunnel id on data stream")),
                )
            } else {
                let next = BiView { kind: h.kind, ..self };
                if self.inspect {
                    (next.at(Phase::Prelude), StepView::ReadPrelude)
                } else {
                    next.begun(has_policy)
                }
            },
        }
    }
}

/// What was read of a login form that stands between `end` and `target`.
pub open spec fn form_of(request: Seq<u8>, end: int, target: int) -> Seq<u8> {
    if target <= request.len() {
        request.subrange(end, target)
    } else {
        request.skip(end)
    }
}

/// The stream and the state of its tunnel.
pub struct Situation {
    pub stream: BiView,
    pub log: Option<InspectorView>,
    pub policy: Option<AuthPolicy>,
}

impl Situation {
    /// The request goes to the local target, with all that was read of it.
    pub open spec fn forwarded(self, post: Situation, step: StepView) -> bool {
        &&& post == (Situation { stream: self.stream.at(Phase::Dialing), ..self })
        &&& step == StepView::Dial(self.stream.request)
    }

    /// The request is answered here; the inspector learns the status.
    pub open spec fn replied(self, reply: Seq<u8>, tick: Tick, post: Situation, step: StepView) -> bool {
        &&& post.stream == self.stream.at(Phase::Closed)
        &&& post.policy == self.policy
        &&& post.log == match (self.log, self.stream.entry, status_line(reply)) {
            (Some(log), Some(id), Some(status)) => Some(log.responded(id, status as u16, tick.now)),
            _ => self.log,
        }
        &&& step == StepView::Respond(reply)
    }

    /// The session policy decides on the request with this head.
    pub open spec fn session_decides(
        self,
        p: RequestView,
        end: int,
        target: int,
        tick: Tick,
        post: Situation,
        step: StepView,
    ) -> bool {
        exists|a: ActionView| #[trigger]
            self.session_answers(p, form_of(self.stream.request, end, target), a, tick, post, step)
    }

    /// The session policy takes the decision `a`.
    pub open spec fn session_answers(
        self,
        p: RequestView,
        body: Seq<u8>,
        a: ActionView,
        tick: Tick,
        post: Situation,
        step: StepView,
    ) -> bool {
        let decided = Situation { policy: post.policy, ..self };
        &&& self.policy is Some
        &&& post.policy is Some
        &&& self.policy->0.decided(
            post.policy->0,
            method_of(p),
            path_of(p),
            p.headers,
            body,
            tick.moment,
            a,
        )
        &&& match reply_of(a) {
            None => decided.forwarded(post, step),
            Some(reply) => decided.replied(reply, tick, post, step),
        }
    }

    /// The inspector records the request, unless it is malformed.
    pub open spec fn noted(self, p: RequestView, tick: Tick) -> Situation {
        match self.log {
            Some(log) => if p.status is Invalid {
                self
            } else {
                Situation {
                    stream: BiView { entry: Some(log.next_id), ..self.stream },
                    log: Some(log.requested(p.method, p.path, tick.now_ms, tick.now)),
                    ..self
                }
            },
            None => self,
        }
    }

    /// The request with this head, which ends at `end`, is judged.
    pub open spec fn judged(
        self,
        p: RequestView,
        end: int,
        tick: Tick,
        post: Situation,
        step: StepView,
    ) -> bool {
        let noted = self.noted(p, tick);
        &&& self.policy is Some
        &&& match plan_spec(self.policy->0, p, end) {
            PlanView::Forward => noted.forwarded(post, step),
            PlanView::Respond(reply) => noted.replied(reply, tick, post, step),
            PlanView::Session { target } => if noted.stream.request.len() < target {
                &&& post == (Situation {
                    stream: noted.stream.at(
                        Phase::Body { complete_at: end as usize, target: target as usize },
                    ),
                    ..noted
                })
                &&& step == StepView::ReadStream
            } else {
                noted.session_decides(p, end, target, tick, post, step)
            },
        }
    }

    /// The head of the request is looked for in what was read.
    pub open spec fn head_sought(self, eof: bool, tick: Tick, post: Situation, step: StepView) -> bool {
        match head_end(self.stream.request) {
            Some(end) => self.judged(
                http_request(self.stream.request.take(end), MAX_HEADERS as nat),
                end,
                tick,
                post,
                step,
            ),
            None => if eof || self.stream.request.len() >= INSPECT_HEADER_CAP {
                self.replied(bad_request_spec(), tick, post, step)
            } else {
                &&& post == (Situation { stream: self.stream.at(Phase::Head), ..self })
                &&& step == StepView::ReadStream
            },
        }
    }

    /// The head of the request is looked for, for the inspector alone.
    pub open spec fn request_peeked(self, eof: bool, tick: Tick, post: Situation, step: StepView) -> bool {
        if peeks_on(self.stream.request, eof) {
            post == self && step == StepView::ReadStream
        } else {
            let line = shown_line(http_request(self.stream.request, MAX_HEADERS as nat));
            &&& self.log is Some
            &&& post == (Situation {
                stream: BiView {
                    entry: Some(self.log->0.next_id),
                    phase: Phase::LocalHead,
                    ..self.stream
                },
                log: Some(self.log->0.requested(line.0, line.1, tick.now_ms, tick.now)),
                ..self
            })
            &&& step == StepView::SendLocal(self.stream.request)
        }
    }

    /// After a chunk of the stream; an empty one when it has ended.
    pub open spec fn chunk_read(self, chunk: Seq<u8>, tick: Tick, post: Situation, step: StepView) -> bool {
        let next = Situation {
            stream: BiView { request: self.stream.request + chunk, ..self.stream },
            ..self
        };
        match self.stream.phase {
            Phase::First => if chunk.len() > 0 && chunk[0] == 0x16 {
                next.forwarded(post, step)
            } else {
                next.head_sought(false, tick, post, step)
            },
            Phase::Head => next.head_sought(chunk.len() == 0, tick, post, step),
            Phase::Body { complete_at, target } => {
                let share = body_share(self.stream.request.len(), target as int, chunk);
                let more = Situation {
                    stream: BiView { request: self.stream.request + share, ..self.stream },
                    ..self
                };
                if chunk.len() > 0 && more.stream.request.len() < target {
                    post == more && step == StepView::ReadStream
                } else {
                    more.session_decides(
                        http_request(
                            self.stream.request.take(complete_at as int),
                            MAX_HEADERS as nat,
                        ),
                        complete_at as int,
                        target as int,
                        tick,
                        post,
                        step,
                    )
                }
            },
            Phase::StreamHead => next.request_peeked(chunk.len() == 0, tick, post, step),
            _ => false,
        }
    }

    /// After the local target was dialed and got what was read.
    pub open spec fn dialed(self, tick: Tick) -> (Situation, StepView) {
        let told = match (self.log, self.stream.prelude) {
            (Some(log), Some(p)) => Situation { log: Some(log.accepted(p, tick.now_ms)), ..self },
            _ => self,
        };
        if self.stream.kind is DataHttp && self.log is Some && self.stream.entry is Some {
            (Situation { stream: self.stream.at(Phase::LocalHead), ..told }, StepView::ReadLocal)
        } else if self.stream.kind is DataHttp && self.log is Some && self.stream.request.len() == 0 {
            (Situation { stream: self.stream.at(Phase::StreamHead), ..told }, StepView::ReadStream)
        } else {
            (Situation { stream: self.stream.at(Phase::Relaying), ..told }, StepView::Relay(Seq::empty()))
        }
    }

    /// After a chunk of the local target; an empty one when it has ended.
    pub open spec fn local_read(self, chunk: Seq<u8>, tick: Tick) -> (Situation, StepView) {
        let next = Situation {
            stream: BiView { response: self.stream.response + chunk, ..self.stream },
            ..self
        };
        if peeks_on(next.stream.response, chunk.len() == 0) {
            (next, StepView::ReadLocal)
        } else {
            (
                Situation {
                    stream: next.stream.at(Phase::Relaying),
                    log: match (
                        self.log,
                        self.stream.entry,
                        shown_status(http_response(next.stream.response, MAX_HEADERS as nat)),
                    ) {
                        (Some(log), Some(id), Some(status)) => Some(
                            log.responded(id, status, tick.now),
                        ),
                        _ => self.log,
                    },
                    ..self
                },
                StepView::Relay(next.stream.response),
            )
        }
    }
}

/// The stream and the state of its tunnel.
pub open spec fn situation(stream: BiStream, state: TunnelState) -> Situation {
    Situation { stream: stream@, log: state.log(), policy: state.policy() }
}

impl TunnelState {
    /// The inputs of a step that no event carries, as they are now. Without a
    /// session policy, or without an inspector, there is no clock of theirs to
    /// read, and 0 stands in its place.
    pub fn tick(&self) -> (r: Tick)
        ensures
            r.is_reading(),
            !(self.policy() matches Some(AuthPolicy::Session { .. })) ==> r.moment.t1 == 0
                && r.moment.t2 == 0,
            self.inspector is None ==> r.now == 0,
            exists|t: Option<(u64, u32)>| is_unix_time(t) && r.now_ms == #[trigger] millis_spec(t),
    {
        let (t1, t2) = match &self.auth {
            Some(AuthConfig { policy: AuthPolicy::Session { store, .. }, .. }) => (
                nanos_since(&store.origin),
                nanos_since(&store.origin),
            ),
            _ => (0, 0),
        };
        let now = match &self.inspector {
            Some(i) => i.elapsed(),
            None => 0,
        };
        Tick { moment: Moment { raw: random32(), t1, t2 }, now_ms: unix_millis(), now }
    }
}

impl BiStream {
    /// A stream that was just accepted.
    pub fn new(expected: TunnelId, inspect: bool) -> (r: BiStream)
        ensures
            r@ == (BiView {
                expected,
                inspect,
                kind: StreamKind::DataTcp,
                phase: Phase::Header,
                prelude: None,
                request: Seq::empty(),
                response: Seq::empty(),
                entry: None,
            }),
            r@.wf(),
    {
        let r = BiStream {
            expected,
            inspect,
            kind: StreamKind::DataTcp,
            phase: Phase::Header,
            prelude: None,
            request: Vec::new(),
            response: Vec::new(),
            entry: None,
        };
        assert(r@.request =~= Seq::empty());
        assert(r@.response =~= Seq::empty());
        r
    }

    fn begin(&mut self, has_policy: bool) -> (r: BiAction)
        ensures
            (final(self)@, r@) == old(self)@.begun(has_policy),
    {
        if has_policy && matches!(self.kind, StreamKind::DataHttp) {
            self.phase = Phase::First;
            BiAction::ReadStream
        } else {
            self.phase = Phase::Dialing;
            let none: Vec<u8> = Vec::new();
            assert(none@ =~= Seq::empty());
            BiAction::Dial(none)
        }
    }

    /// The header was read.
    pub fn on_header(&mut self, state: &TunnelState, bytes: &[u8; 9]) -> (r: BiAction)
        requires
            old(self)@.phase is Header,
        ensures
            (final(self)@, r@) == old(self)@.headed(bytes@, state.auth is Some),
            final(self)@.wf(),
    {
        match check_header(bytes, self.expected) {
            Err(e) => {
                self.phase = Phase::Closed;
                BiAction::Fail(e)
            },
            Ok(h) => {
                self.kind = h.kind;
                if self.inspect {
                    self.phase = Phase::Prelude;
                    BiAction::ReadPrelude
                } else {
                    self.begin(state.auth.is_some())
                }
            },
        }
    }

    /// The inspection prelude was read.
    pub fn on_prelude(&mut self, state: &TunnelState, prelude: InspectionPrelude) -> (r: BiAction)
        requires
            old(self)@.phase is Prelude,
        ensures
            (final(self)@, r@) == (BiView { prelude: Some(prelude@), ..old(self)@ }).begun(
                state.auth is Some,
            ),
            final(self)@.wf(),
    {
        self.prelude = Some(prelude);
        self.begin(state.auth.is_some())
    }

    fn reply(&mut self, state: &mut TunnelState, bytes: Vec<u8>, tick: &Tick) -> (r: BiAction)
        requires
            old(state).wf(),
        ensures
            final(state).wf(),
            final(state).origin() == old(state).origin(),
            final(state).auth == old(state).auth,
            situation(*old(self), *old(state)).replied(
                bytes@,
                *tick,
                situation(*final(self), *final(state)),
                r@,
            ),
    {
        if let Some(id) = self.entry {
            if let Some(status) = parse_status_line(bytes.as_slice()) {
                if let Some(inspector) = &mut state.inspector {
                    inspector.record_response_at(id, status, tick.now);
                }
            }
        }
        self.phase = Phase::Closed;
        BiAction::Respond(bytes)
    }

    fn forward(&mut self) -> (r: BiAction)
        ensures
            final(self)@ == old(self)@.at(Phase::Dialing),
            r@ == StepView::Dial(old(self)@.request),
    {
        self.phase = Phase::Dialing;
        BiAction::Dial(vstd::slice::slice_to_vec(self.request.as_slice()))
    }

    /// Ask the session policy about the request with this head, of which was
    /// read what there is up to `target`.
    pub fn on_session_at(
        &mut self,
        state: &mut TunnelState,
        p: &ParsedRequest,
        end: usize,
        target: usize,
        tick: &Tick,
    ) -> (r: BiAction)
        requires
            old(state).wf(),
            old(state).policy() matches Some(AuthPolicy::Session { .. }),
            end <= old(self)@.request.len(),
            end <= target,
            tick.wf(),
        ensures
            final(state).wf(),
            final(state).origin() == old(state).origin(),
            final(state).realm() == old(state).realm(),
            final(self)@.wf(),
            situation(*old(self), *old(state)).session_decides(
                p@,
                end as int,
                target as int,
                *tick,
                situation(*final(self), *final(state)),
                r@,
            ),
    {
        let ghost pre = situation(*self, *state);
        let stop: usize = if target <= self.request.len() {
            target
        } else {
            self.request.len()
        };
        let body = vstd::slice::slice_subrange(self.request.as_slice(), end, stop);
        let (method, path) = head_line(p);
        let action = match &mut state.auth {
            Some(config) => config.policy.decide_session_at(
                method.as_str(),
                path.as_str(),
                &p.headers,
                body,
                &tick.moment,
            ),
            None => SessionAction::Forward,
        };
        let ghost seen = form_of(pre.stream.request, end as int, target as int);
        assert(body@ =~= seen);
        let r = match render_action(&action) {
            Some(bytes) => self.reply(state, bytes, tick),
            None => self.forward(),
        };
        proof {
            let post = situation(*self, *state);
            assert(pre.session_answers(p@, seen, action@, *tick, post, r@));
        }
        r
    }
}

/// More bytes behind a head do not move its end.
proof fn lemma_head_end_stays(s: Seq<u8>, more: Seq<u8>)
    requires
        head_end(s) is Some,
    ensures
        head_end(s + more) == head_end(s),
    decreases s.len(),
{
    if s.len() >= 4 {
        assert(blank_line(s + more) == blank_line(s));
        if !blank_line(s) {
            lemma_head_end_stays(s.skip(1), more);
            assert((s + more).skip(1) =~= s.skip(1) + more);
        }
    }
}

impl BiStream {
    fn note(&mut self, state: &mut TunnelState, p: &ParsedRequest, tick: &Tick)
        requires
            old(state).wf(),
        ensures
            final(state).wf(),
            final(state).origin() == old(state).origin(),
            final(state).auth == old(state).auth,
            situation(*final(self), *final(state)) == situation(*old(self), *old(state)).noted(
                p@,
                *tick,
            ),
    {
        if let ParseStatus::Invalid(_) = &p.status {
            return;
        }
        let (method, path) = request_line(p);
        if let Some(inspector) = &mut state.inspector {
            let id = inspector.record_request_at(method, path, tick.now_ms, tick.now);
            self.entry = Some(id);
        }
    }

    /// The head of the request was read and parsed: record it and ask the policy.
    pub fn on_head_at(
        &mut self,
        state: &mut TunnelState,
        p: &ParsedRequest,
        end: usize,
        tick: &Tick,
    ) -> (r: BiAction)
        requires
            old(state).wf(),
            old(state).auth is Some,
            head_end(old(self)@.request) == Some(end as int),
            end <= old(self)@.request.len(),
            tick.wf(),
        ensures
            final(state).wf(),
            final(state).origin() == old(state).origin(),
            final(state).realm() == old(state).realm(),
            final(self)@.wf(),
            situation(*old(self), *old(state)).judged(
                p@,
                end as int,
                *tick,
                situation(*final(self), *final(state)),
                r@,
            ),
    {
        self.note(state, p, tick);
        let plan = match &state.auth {
            Some(config) => plan_auth(&config.policy, p, end),
            None => AuthPlan::Forward,
        };
        match plan {
            AuthPlan::Forward => self.forward(),
            AuthPlan::Respond(bytes) => self.reply(state, bytes, tick),
            AuthPlan::Session { target } => if self.request.len() < target {
                self.phase = Phase::Body { complete_at: end, target };
                BiAction::ReadStream
            } else {
                self.on_session_at(state, p, end, target, tick)
            },
        }
    }

    fn seek_head(&mut self, state: &mut TunnelState, eof: bool, tick: &Tick) -> (r: BiAction)
        requires
            old(state).wf(),
            old(state).auth is Some,
            tick.wf(),
        ensures
            final(state).wf(),
            final(state).origin() == old(state).origin(),
            final(state).realm() == old(state).realm(),
            final(self)@.wf(),
            situation(*old(self), *old(state)).head_sought(
                eof,
                *tick,
                situation(*final(self), *final(state)),
                r@,
            ),
    {
        match peek_until_headers(&self.request, INSPECT_HEADER_CAP, eof) {
            HeadPeek::End(end) => {
                let head = vstd::slice::slice_subrange(self.request.as_slice(), 0, end);
                assert(head@ =~= self.request@.take(end as int));
                let p = parse_request(head, MAX_HEADERS);
                self.on_head_at(state, &p, end, tick)
            },
            HeadPeek::Malformed => self.reply(state, bad_request_response(), tick),
            HeadPeek::More => {
                self.phase = Phase::Head;
                BiAction::ReadStream
            },
        }
    }

    fn peek_head(&mut self, state: &mut TunnelState, eof: bool, tick: &Tick) -> (r: BiAction)
        requires
            old(state).wf(),
            old(state).inspector is Some,
            old(self)@.phase is StreamHead,
        ensures
            final(state).wf(),
            final(state).origin() == old(state).origin(),
            final(state).auth == old(state).auth,
            final(self)@.wf(),
            situation(*old(self), *old(state)).request_peeked(
                eof,
                *tick,
                situation(*final(self), *final(state)),
                r@,
            ),
    {
        if peek_more(&self.request, eof) {
            return BiAction::ReadStream;
        }
        let (method, path) = peek_request(&self.request);
        if let Some(inspector) = &mut state.inspector {
            let id = inspector.record_request_at(method, path, tick.now_ms, tick.now);
            self.entry = Some(id);
        }
        self.phase = Phase::LocalHead;
        BiAction::SendLocal(vstd::slice::slice_to_vec(self.request.as_slice()))
    }

    /// Whether a chunk of the stream is awaited, with what it takes to go on:
    /// a policy to authenticate with, or an inspector to tell.
    pub open spec fn reads_stream(self, state: TunnelState) -> bool {
        match self@.phase {
            Phase::First => state.auth is Some && self@.request.len() == 0,
            Phase::Head => state.auth is Some,
            Phase::Body { .. } => state.policy() matches Some(AuthPolicy::Session { .. }),
            Phase::StreamHead => state.inspector is Some,
            _ => false,
        }
    }

    /// A chunk of the stream was read; an empty one when it has ended.
    pub fn on_chunk_at(&mut self, state: &mut TunnelState, chunk: &[u8], tick: &Tick) -> (r: BiAction)
        requires
            old(state).wf(),
            old(self)@.wf(),
            old(self).reads_stream(*old(state)),
            tick.wf(),
        ensures
            final(state).wf(),
            final(state).origin() == old(state).origin(),
            final(state).realm() == old(state).realm(),
            final(self)@.wf(),
            situation(*old(self), *old(state)).chunk_read(
                chunk@,
                *tick,
                situation(*final(self), *final(state)),
                r@,
            ),
    {
        let ghost pre = self@.request;
        match self.phase {
            Phase::Body { complete_at, target } => {
                let head = vstd::slice::slice_subrange(self.request.as_slice(), 0, complete_at);
                assert(head@ =~= self.request@.take(complete_at as int));
                let p = parse_request(head, MAX_HEADERS);
                let done = read_exact_into(&mut self.request, target, chunk);
                proof {
                    lemma_head_end_stays(pre, body_share(pre.len(), target as int, chunk@));
                }
                if !done {
                    return BiAction::ReadStream;
                }
                self.on_session_at(state, &p, complete_at, target, tick)
            },
            Phase::First => {
                self.request.extend_from_slice(chunk);
                assert(self.request@ =~= pre + chunk@);
                if chunk.len() > 0 && looks_like_tls(chunk[0]) {
                    return self.forward();
                }
                self.seek_head(state, false, tick)
            },
            Phase::Head => {
                self.request.extend_from_slice(chunk);
                assert(self.request@ =~= pre + chunk@);
                self.seek_head(state, chunk.len() == 0, tick)
            },
            _ => {
                self.request.extend_from_slice(chunk);
                assert(self.request@ =~= pre + chunk@);
                self.peek_head(state, chunk.len() == 0, tick)
            },
        }
    }

    /// A chunk of the stream was read, now.
    pub fn on_chunk(&mut self, state: &mut TunnelState, chunk: &[u8]) -> (r: BiAction)
        requires
            old(state).wf(),
            old(self)@.wf(),
            old(self).reads_stream(*old(state)),
        ensures
            final(state).wf(),
            final(state).origin() == old(state).origin(),
            final(state).realm() == old(state).realm(),
            final(self)@.wf(),
            exists|tick: Tick|
                tick.is_reading() && #[trigger] situation(*old(self), *old(state)).chunk_read(
                    chunk@,
                    tick,
                    situation(*final(self), *final(state)),
                    r@,
                ),
    {
        let tick = state.tick();
        self.on_chunk_at(state, chunk, &tick)
    }

    /// The local target was dialed and got what was read.
    pub fn on_dialed_at(&mut self, state: &mut TunnelState, tick: &Tick) -> (r: BiAction)
        requires
            old(state).wf(),
            old(self)@.phase is Dialing,
        ensures
            final(state).wf(),
            final(state).origin() == old(state).origin(),
            final(state).auth == old(state).auth,
            final(self)@.wf(),
            (situation(*final(self), *final(state)), r@) == situation(*old(self), *old(state)).dialed(
                *tick,
            ),
    {
        if let Some(inspector) = &mut state.inspector {
            if let Some(prelude) = &self.prelude {
                inspector.record_accept_at(prelude, tick.now_ms);
            }
        }
        if matches!(self.kind, StreamKind::DataHttp) && state.inspector.is_some() {
            if self.entry.is_some() {
                self.phase = Phase::LocalHead;
                return BiAction::ReadLocal;
            }
            if self.request.len() == 0 {
                self.phase = Phase::StreamHead;
                return BiAction::ReadStream;
            }
        }
        self.phase = Phase::Relaying;
        let none: Vec<u8> = Vec::new();
        assert(none@ =~= Seq::empty());
        BiAction::Relay(none)
    }

    /// The local target was dialed and got what was read, now.
    pub fn on_dialed(&mut self, state: &mut TunnelState) -> (r: BiAction)
        requires
            old(state).wf(),
            old(self)@.phase is Dialing,
        ensures
            final(state).wf(),
            final(state).origin() == old(state).origin(),
            final(state).auth == old(state).auth,
            final(self)@.wf(),
            exists|tick: Tick|
                tick.is_reading() && (situation(*final(self), *final(state)), r@) == #[trigger] situation(
                    *old(self),
                    *old(state),
                ).dialed(tick),
    {
        let tick = state.tick();
        self.on_dialed_at(state, &tick)
    }

    /// A chunk of the local target was read; an empty one when it has ended.
    pub fn on_local_at(&mut self, state: &mut TunnelState, chunk: &[u8], tick: &Tick) -> (r: BiAction)
        requires
            old(state).wf(),
            old(self)@.phase is LocalHead,
            old(self)@.wf(),
        ensures
            final(state).wf(),
            final(state).origin() == old(state).origin(),
            final(state).auth == old(state).auth,
            final(self)@.wf(),
            (situation(*final(self), *final(state)), r@) == situation(
                *old(self),
                *old(state),
            ).local_read(chunk@, *tick),
    {
        let ghost pre = self@.response;
        self.response.extend_from_slice(chunk);
        assert(self.response@ =~= pre + chunk@);
        if peek_more(&self.response, chunk.len() == 0) {
            return BiAction::ReadLocal;
        }
        if let Some(status) = peek_response(&self.response) {
            if let Some(id) = self.entry {
                if let Some(inspector) = &mut state.inspector {
                    inspector.record_response_at(id, status, tick.now);
                }
            }
        }
        self.phase = Phase::Relaying;
        BiAction::Relay(vstd::slice::slice_to_vec(self.response.as_slice()))
    }

    /// A chunk of the local target was read, now.
    pub fn on_local(&mut self, state: &mut TunnelState, chunk: &[u8]) -> (r: BiAction)
        requires
            old(state).wf(),
            old(self)@.phase is LocalHead,
            old(self)@.wf(),
        ensures
            final(state).wf(),
            final(state).origin() == old(state).origin(),
            final(state).auth == old(state).auth,
            final(self)@.wf(),
            exists|tick: Tick|
                tick.is_reading() && (situation(*final(self), *final(state)), r@) == #[trigger] situation(
                    *old(self),
                    *old(state),
                ).local_read(chunk@, tick),
    {
        let tick = state.tick();
        self.on_local_at(state, chunk, &tick)
    }
}

/// Whether a policy lets a request with this head through at time `t`: it
/// carries the key, or the cookie of a live session.
pub open spec fn authorized(policy: AuthPolicy, p: RequestView, t: u128) -> bool {
    match policy {
        AuthPolicy::ApiKey { key } => api_key_spec(key@, p.headers, false) == Outcome::Accepted,
        AuthPolicy::Session { store, .. } => token_in(p.headers) is Some && store.is_live(
            token_in(p.headers)->0,
            t,
        ),
    }
}

/// A request on a tunnel with a policy reaches the local target only when its
/// head is complete and the policy lets it through; the one exception is a
/// stream that begins as TLS does.
pub proof fn law_forward_needs_authorization(
    pre: Situation,
    chunk: Seq<u8>,
    tick: Tick,
    post: Situation,
    step: StepView,
)
    requires
        pre.stream.wf(),
        pre.policy is Some,
        pre.chunk_read(chunk, tick, post, step),
        step is Dial,
    ensures
        (pre.stream.phase is First && chunk.len() > 0 && chunk[0] == 0x16) || {
            let end = head_end(post.stream.request);
            &&& end is Some
            &&& authorized(
                pre.policy->0,
                http_request(post.stream.request.take(end->0), MAX_HEADERS as nat),
                tick.moment.t1,
            )
        },
{
    if let Phase::Body { complete_at, target } = pre.stream.phase {
        let share = body_share(pre.stream.request.len(), target as int, chunk);
        lemma_head_end_stays(pre.stream.request, share);
        assert((pre.stream.request + share).take(complete_at as int) =~= pre.stream.request.take(
            complete_at as int,
        ));
    }
}

/// What the local target gets is what was read of the stream, byte for byte,
/// when a stream is let through.
pub proof fn law_dialed_bytes_were_read(
    pre: Situation,
    chunk: Seq<u8>,
    tick: Tick,
    post: Situation,
    step: StepView,
)
    requires
        pre.chunk_read(chunk, tick, post, step),
        pre.stream.phase is First || pre.stream.phase is Head,
        step is Dial,
    ensures
        step == StepView::Dial(pre.stream.request + chunk),
{
}

/// A login form is never passed on to the local target: once its body is being
/// read, the request is answered here.
pub proof fn law_login_is_answered_here(
    pre: Situation,
    chunk: Seq<u8>,
    tick: Tick,
    post: Situation,
    step: StepView,
    complete_at: usize,
    target: usize,
)
    requires
        pre.stream.phase == (Phase::Body { complete_at, target }),
        is_login_post(
            http_request(pre.stream.request.take(complete_at as int), MAX_HEADERS as nat),
        ),
        pre.chunk_read(chunk, tick, post, step),
    ensures
        step is ReadStream || step is Respond,
{
}

} // verus!
