//! Local HTTP inspector: a bounded ring of request/response pairs, and the
//! routes of the small web UI that shows them.
//!
//! The inspector is best-effort: only the first bytes of each direction are
//! looked at, and what cannot be parsed is not recorded.

use crate::clock::{instant_now, max_millis, max_nanos, nanos_since, unix_millis};
use crate::http_parse::{head_end, headers_end, http_request, parse_request, ParsedRequest};
use crate::proto::frames::{InspectionPrelude, InspectionPreludeView};
use crate::server::domain::http::{body_spec, write_body};
use crate::text::{opt_view, same_str};
use std::collections::{HashMap, VecDeque};
use vstd::prelude::*;
use vstd::string::*;

verus! {

/// Maximum number of entries retained; older ones are evicted.
pub const HISTORY_CAP: usize = 200;

/// Identifies an entry.
pub type EntryId = u64;

/// One captured request/response pair.
#[derive(Debug, Clone)]
pub struct Entry {
    pub id: EntryId,
    /// Milliseconds since the UNIX epoch.
    pub time_ms: u128,
    pub method: Option<String>,
    pub path: Option<String>,
    pub status: Option<u16>,
    pub duration_ms: Option<u64>,
    /// The peer that the server saw on the public port, if it told.
    pub peer: Option<String>,
    /// Host header or SNI, if the server told.
    pub host: Option<String>,
}

/// What an [`Entry`] says.
pub struct EntryView {
    pub id: u64,
    pub time_ms: u128,
    pub method: Option<Seq<char>>,
    pub path: Option<Seq<char>>,
    pub status: Option<u16>,
    pub duration_ms: Option<u64>,
    pub peer: Option<Seq<char>>,
    pub host: Option<Seq<char>>,
}

impl View for Entry {
    type V = EntryView;

    open spec fn view(&self) -> EntryView {
        EntryView {
            id: self.id,
            time_ms: self.time_ms,
            method: opt_view(self.method),
            path: opt_view(self.path),
            status: self.status,
            duration_ms: self.duration_ms,
            peer: opt_view(self.peer),
            host: opt_view(self.host),
        }
    }
}

/// The views of a list of entries.
pub open spec fn entry_views(s: Seq<Entry>) -> Seq<EntryView> {
    Seq::new(s.len(), |i: int| s[i]@)
}

/// What the server told of a stream whose request is yet to come.
pub struct PendingAccept {
    pub peer: String,
    pub host: Option<String>,
}

/// What a [`PendingAccept`] says.
pub struct PendingView {
    pub peer: Seq<char>,
    pub host: Option<Seq<char>>,
}

impl View for PendingAccept {
    type V = PendingView;

    open spec fn view(&self) -> PendingView {
        PendingView { peer: self.peer@, host: opt_view(self.host) }
    }
}

/// What an [`Inspector`] holds: the entries, oldest first; when each request
/// that awaits its response began; and what the server told last.
pub struct InspectorView {
    pub next_id: u64,
    pub entries: Seq<EntryView>,
    pub starts: Map<u64, u128>,
    pub pending: Option<PendingView>,
}

/// The first entry with this id.
pub open spec fn entry_at(entries: Seq<EntryView>, id: u64) -> Option<int>
    decreases entries.len(),
{
    if entries.len() == 0 {
        None
    } else if entries[0].id == id {
        Some(0)
    } else {
        match entry_at(entries.skip(1), id) {
            Some(i) => Some(i + 1),
            None => None,
        }
    }
}

/// The host that a prelude names: the Host header, or else the SNI.
pub open spec fn host_of(p: InspectionPreludeView) -> Option<Seq<char>> {
    match p.http {
        None => None,
        Some(h) => Some(
            if h.host.len() == 0 {
                match h.sni {
                    Some(s) => s,
                    None => Seq::empty(),
                }
            } else {
                h.host
            },
        ),
    }
}

/// Whether a prelude announces a stream whose request cannot be read.
pub open spec fn is_passthrough(p: InspectionPreludeView) -> bool {
    p.http is Some && p.http->0.sni is Some
}

/// The milliseconds between two readings of the clock, at least 1.
pub open spec fn elapsed_ms(start: u128, now: u128) -> u64 {
    let nanos = if now < start {
        0
    } else {
        now - start
    };
    (if nanos < 2_000_000 {
        1
    } else {
        nanos / 1_000_000
    }) as u64
}

impl InspectorView {
    /// An inspector that has seen nothing.
    pub open spec fn initial() -> InspectorView {
        InspectorView { next_id: 1, entries: Seq::empty(), starts: Map::empty(), pending: None }
    }

    /// The id after this one.
    pub open spec fn following(id: u64) -> u64 {
        if id == u64::MAX {
            0
        } else {
            (id + 1) as u64
        }
    }

    /// The entries with one more: the oldest makes room when the ring is full.
    pub open spec fn ring(self, e: EntryView) -> Seq<EntryView> {
        if self.entries.len() == HISTORY_CAP {
            self.entries.skip(1).push(e)
        } else {
            self.entries.push(e)
        }
    }

    /// After an accepted stream. One whose request cannot be read is an entry
    /// of its own; otherwise what the server told waits for the request.
    pub open spec fn accepted(self, p: InspectionPreludeView, now_ms: u128) -> InspectorView {
        if is_passthrough(p) {
            InspectorView {
                next_id: InspectorView::following(self.next_id),
                entries: self.ring(
                    EntryView {
                        id: self.next_id,
                        time_ms: now_ms,
                        method: None,
                        path: None,
                        status: None,
                        duration_ms: None,
                        peer: Some(p.peer),
                        host: host_of(p),
                    },
                ),
                pending: None,
                ..self
            }
        } else {
            InspectorView { pending: Some(PendingView { peer: p.peer, host: host_of(p) }), ..self }
        }
    }

    /// The entry of a request.
    pub open spec fn request_entry(
        self,
        method: Option<Seq<char>>,
        path: Option<Seq<char>>,
        now_ms: u128,
    ) -> EntryView {
        EntryView {
            id: self.next_id,
            time_ms: now_ms,
            method,
            path,
            status: None,
            duration_ms: None,
            peer: match self.pending {
                Some(p) => Some(p.peer),
                None => None,
            },
            host: match self.pending {
                Some(p) => p.host,
                None => None,
            },
        }
    }

    /// After a request, which takes what the server told of its stream. An
    /// evicted entry no longer awaits a response.
    pub open spec fn requested(
        self,
        method: Option<Seq<char>>,
        path: Option<Seq<char>>,
        now_ms: u128,
        now: u128,
    ) -> InspectorView {
        InspectorView {
            next_id: InspectorView::following(self.next_id),
            entries: self.ring(self.request_entry(method, path, now_ms)),
            starts: if self.entries.len() == HISTORY_CAP {
                self.starts.insert(self.next_id, now).remove(self.entries[0].id)
            } else {
                self.starts.insert(self.next_id, now)
            },
            pending: None,
        }
    }

    /// After the response to the request with this id.
    pub open spec fn responded(self, id: u64, status: u16, now: u128) -> InspectorView {
        InspectorView {
            entries: match entry_at(self.entries, id) {
                Some(i) => self.entries.update(
                    i,
                    EntryView {
                        status: Some(status),
                        duration_ms: if self.starts.contains_key(id) {
                            Some(elapsed_ms(self.starts[id], now))
                        } else {
                            None
                        },
                        ..self.entries[i]
                    },
                ),
                None => self.entries,
            },
            starts: self.starts.remove(id),
            ..self
        }
    }
}

proof fn lemma_entry_at(entries: Seq<EntryView>, id: u64)
    ensures
        match entry_at(entries, id) {
            Some(i) => {
                &&& 0 <= i < entries.len()
                &&& entries[i].id == id
                &&& forall|j: int| 0 <= j < i ==> #[trigger] entries[j].id != id
            },
            None => forall|j: int| 0 <= j < entries.len() ==> #[trigger] entries[j].id != id,
        },
    decreases entries.len(),
{
    if entries.len() > 0 && entries[0].id != id {
        let rest = entries.skip(1);
        lemma_entry_at(rest, id);
        assert forall|j: int| 0 < j < entries.len() implies entries[j] == rest[j - 1] by {}
        match entry_at(rest, id) {
            Some(i) => {
                assert forall|j: int| 0 <= j < i + 1 implies #[trigger] entries[j].id != id by {
                    if j > 0 {
                        assert(rest[j - 1].id != id);
                    }
                }
            },
            None => {
                assert forall|j: int| 0 <= j < entries.len() implies #[trigger] entries[j].id != id by {
                    if j > 0 {
                        assert(rest[j - 1].id != id);
                    }
                }
            },
        }
    }
}

proof fn lemma_entry_at_is(entries: Seq<EntryView>, id: u64, i: int)
    requires
        0 <= i < entries.len(),
        entries[i].id == id,
        forall|j: int| 0 <= j < i ==> #[trigger] entries[j].id != id,
    ensures
        entry_at(entries, id) == Some(i),
{
    lemma_entry_at(entries, id);
    match entry_at(entries, id) {
        Some(k) => {
            if k < i {
                assert(entries[k].id != id);
            } else if i < k {
                assert(entries[i].id != id);
            }
        },
        None => {
            assert(entries[i].id != id);
        },
    }
}

/// A bounded record of the requests on a tunnel and their responses.
pub struct Inspector {
    next_id: u64,
    entries: VecDeque<Entry>,
    pending_start: HashMap<EntryId, u128>,
    pending_accept: Option<PendingAccept>,
    origin: std::time::Instant,
}

impl View for Inspector {
    type V = InspectorView;

    closed spec fn view(&self) -> InspectorView {
        InspectorView {
            next_id: self.next_id,
            entries: entry_views(self.entries@),
            starts: self.pending_start@,
            pending: match self.pending_accept {
                Some(p) => Some(p@),
                None => None,
            },
        }
    }
}

impl Default for Inspector {
    fn default() -> (r: Inspector)
        ensures
            r@ == InspectorView::initial(),
    {
        Inspector::new()
    }
}

impl Inspector {
    /// The ring is never longer than its capacity.
    pub open spec fn wf(self) -> bool {
        self@.entries.len() <= HISTORY_CAP
    }

    /// The instant from which the inspector counts the time.
    pub closed spec fn origin(self) -> std::time::Instant {
        self.origin
    }

    /// An inspector that has seen nothing.
    pub fn new() -> (r: Inspector)
        ensures
            r.wf(),
            r@ == InspectorView::initial(),
    {
        let r = Inspector {
            next_id: 1,
            entries: VecDeque::with_capacity(HISTORY_CAP),
            pending_start: HashMap::new(),
            pending_accept: None,
            origin: instant_now(),
        };
        assert(r@.entries =~= Seq::empty());
        r
    }

    /// The nanoseconds since the inspector was made, as the clock says now.
    pub fn elapsed(&self) -> (r: u128)
        ensures
            r <= max_nanos(),
    {
        nanos_since(&self.origin)
    }

    fn push_entry(&mut self, entry: Entry) -> (evicted: Option<EntryId>)
        requires
            old(self).wf(),
        ensures
            final(self).wf(),
            final(self)@ == (InspectorView { entries: old(self)@.ring(entry@), ..old(self)@ }),
            evicted == if old(self)@.entries.len() == HISTORY_CAP {
                Some(old(self)@.entries[0].id)
            } else {
                None
            },
            final(self).origin == old(self).origin,
    {
        let ghost pre = self@;
        let mut evicted = None;
        if self.entries.len() == HISTORY_CAP {
            if let Some(e) = self.entries.pop_front() {
                evicted = Some(e.id);
            }
        }
        self.entries.push_back(entry);
        assert(self@.entries =~= pre.ring(entry@));
        evicted
    }

    fn take_id(&mut self) -> (id: EntryId)
        ensures
            id == old(self)@.next_id,
            final(self)@ == (InspectorView {
                next_id: InspectorView::following(old(self)@.next_id),
                ..old(self)@
            }),
            final(self).origin == old(self).origin,
    {
        let id = self.next_id;
        self.next_id = self.next_id.wrapping_add(1);
        id
    }

    /// Record that the server accepted a stream. For HTTP the prelude is
    /// attached to the request that follows; a stream whose request cannot be
    /// read becomes an entry right away.
    pub fn record_accept(&mut self, prelude: &InspectionPrelude)
        requires
            old(self).wf(),
        ensures
            final(self).wf(),
            final(self).origin() == old(self).origin(),
            exists|now_ms: u128|
                now_ms <= max_millis() && final(self)@ == #[trigger] old(self)@.accepted(
                    prelude@,
                    now_ms,
                ),
    {
        let now_ms = unix_millis();
        self.record_accept_at(prelude, now_ms);
    }

    /// Record that the server accepted a stream, at a given time.
    pub fn record_accept_at(&mut self, prelude: &InspectionPrelude, now_ms: u128)
        requires
            old(self).wf(),
        ensures
            final(self).wf(),
            final(self).origin() == old(self).origin(),
            final(self)@ == old(self)@.accepted(prelude@, now_ms),
    {
        let ghost pre = self@;
        let (host, passthrough) = match &prelude.http {
            None => (None, false),
            Some(h) => {
                let host = if !same_str(h.host.as_str(), "") {
                    h.host.clone()
                } else {
                    match &h.sni {
                        Some(s) => s.clone(),
                        None => String::new(),
                    }
                };
                (Some(host), h.sni.is_some())
            },
        };
        proof {
            reveal_strlit("");
            if prelude.http is Some && prelude.http->0.host@.len() == 0 {
                assert(prelude.http->0.host@ =~= ""@);
            }
            assert(opt_view(host) == host_of(prelude@));
        }
        if passthrough {
            self.pending_accept = None;
            let id = self.take_id();
            self.push_entry(
                Entry {
                    id,
                    time_ms: now_ms,
                    method: None,
                    path: None,
                    status: None,
                    duration_ms: None,
                    peer: Some(prelude.peer.clone()),
                    host,
                },
            );
            assert(self@ == pre.accepted(prelude@, now_ms));
        } else {
            self.pending_accept = Some(PendingAccept { peer: prelude.peer.clone(), host });
            assert(self@ == pre.accepted(prelude@, now_ms));
        }
    }

    /// Record the start of a request. The id is for [`Inspector::record_response`].
    pub fn record_request(&mut self, method: Option<String>, path: Option<String>) -> (id: EntryId)
        requires
            old(self).wf(),
        ensures
            final(self).wf(),
            id == old(self)@.next_id,
            final(self).origin() == old(self).origin(),
            exists|now_ms: u128, now: u128|
                now_ms <= max_millis() && now <= max_nanos() && final(self)@ == #[trigger] old(self)@.requested(
                    opt_view(method),
                    opt_view(path),
                    now_ms,
                    now,
                ),
    {
        let now_ms = unix_millis();
        let now = nanos_since(&self.origin);
        self.record_request_at(method, path, now_ms, now)
    }

    /// Record the start of a request, at a given time.
    pub fn record_request_at(
        &mut self,
        method: Option<String>,
        path: Option<String>,
        now_ms: u128,
        now: u128,
    ) -> (id: EntryId)
        requires
            old(self).wf(),
        ensures
            final(self).wf(),
            id == old(self)@.next_id,
            final(self).origin() == old(self).origin(),
            final(self)@ == old(self)@.requested(opt_view(method), opt_view(path), now_ms, now),
    {
        broadcast use vstd::std_specs::hash::group_hash_axioms;

        let ghost pre = self@;
        let id = self.take_id();
        self.pending_start.insert(id, now);
        let (peer, host) = match self.pending_accept.take() {
            Some(p) => (Some(p.peer), p.host),
            None => (None, None),
        };
        let evicted = self.push_entry(
            Entry { id, time_ms: now_ms, method, path, status: None, duration_ms: None, peer, host },
        );
        if let Some(old_id) = evicted {
            self.pending_start.remove(&old_id);
        }
        assert(self@.entries =~= pre.requested(opt_view(method), opt_view(path), now_ms, now).entries);
        id
    }

    /// Attach a response status and the elapsed time to a recorded request.
    pub fn record_response(&mut self, id: EntryId, status: u16)
        requires
            old(self).wf(),
        ensures
            final(self).wf(),
            final(self).origin() == old(self).origin(),
            exists|now: u128|
                now <= max_nanos() && final(self)@ == #[trigger] old(self)@.responded(
                    id,
                    status,
                    now,
                ),
    {
        let now = nanos_since(&self.origin);
        self.record_response_at(id, status, now);
    }

    /// Attach a response status to a recorded request, at a given time.
    pub fn record_response_at(&mut self, id: EntryId, status: u16, now: u128)
        requires
            old(self).wf(),
        ensures
            final(self).wf(),
            final(self).origin() == old(self).origin(),
            final(self)@ == old(self)@.responded(id, status, now),
    {
        broadcast use vstd::std_specs::hash::group_hash_axioms;

        let ghost pre = self@;
        let start = self.pending_start.remove(&id);
        let duration_ms = match start {
            None => None,
            Some(s) => {
                let nanos: u128 = if now < s {
                    0
                } else {
                    now - s
                };
                let ms: u128 = if nanos < 2_000_000 {
                    1
                } else {
                    nanos / 1_000_000
                };
                Some(ms as u64)
            },
        };
        let n = self.entries.len();
        let mut i: usize = 0;
        while i < n
            invariant
                i <= n,
                n == self.entries@.len(),
                pre == old(self)@,
                self.origin == old(self).origin,
                pre.entries == entry_views(self.entries@),
                forall|j: int| 0 <= j < i ==> #[trigger] pre.entries[j].id != id,
                self@ == (InspectorView { starts: pre.starts.remove(id), ..pre }),
                pre.entries.len() <= HISTORY_CAP,
                duration_ms == if pre.starts.contains_key(id) {
                    Some(elapsed_ms(pre.starts[id], now))
                } else {
                    None
                },
            decreases n - i,
        {
            assert(pre.entries[i as int] == self.entries@[i as int]@);
            if self.entries[i].id == id {
                proof {
                    lemma_entry_at_is(pre.entries, id, i as int);
                }
                if let Some(mut e) = self.entries.remove(i) {
                    e.status = Some(status);
                    e.duration_ms = duration_ms;
                    self.entries.insert(i, e);
                }
                assert(self@.entries =~= pre.responded(id, status, now).entries);
                return;
            }
            i += 1;
        }
        proof {
            lemma_entry_at(pre.entries, id);
        }
    }

    /// The entries, newest first.
    pub fn snapshot(&self) -> (r: Vec<Entry>)
        ensures
            entry_views(r@) == self@.entries.reverse(),
    {
        let n = self.entries.len();
        let mut out: Vec<Entry> = Vec::new();
        let mut i: usize = n;
        while i > 0
            invariant
                i <= n,
                n == self.entries@.len(),
                out@.len() == n - i,
                forall|j: int| 0 <= j < out@.len() ==> (#[trigger] out@[j])@ == self.entries@[n - 1 - j]@,
            decreases i,
        {
            i -= 1;
            out.push(copy_entry(&self.entries[i]));
        }
        assert(entry_views(out@) =~= self@.entries.reverse());
        out
    }
}

fn copy_entry(e: &Entry) -> (r: Entry)
    ensures
        r@ == e@,
{
    Entry {
        id: e.id,
        time_ms: e.time_ms,
        method: copy_text(&e.method),
        path: copy_text(&e.path),
        status: e.status,
        duration_ms: e.duration_ms,
        peer: copy_text(&e.peer),
        host: copy_text(&e.host),
    }
}

fn copy_text(t: &Option<String>) -> (r: Option<String>)
    ensures
        opt_view(r) == opt_view(*t),
{
    match t {
        Some(s) => Some(s.clone()),
        None => None,
    }
}

/// A request as it is recorded: what its head says, and when it came.
pub struct Recorded {
    pub method: Option<Seq<char>>,
    pub path: Option<Seq<char>>,
    pub now_ms: u128,
    pub now: u128,
}

/// An inspector after these requests.
pub open spec fn after_requests(v: InspectorView, rs: Seq<Recorded>) -> InspectorView
    decreases rs.len(),
{
    if rs.len() == 0 {
        v
    } else {
        let r = rs.last();
        after_requests(v, rs.drop_last()).requested(r.method, r.path, r.now_ms, r.now)
    }
}

/// Whether an entry is the one of the request at position `k`, still without
/// an answer. The id is the request's number, counted from one.
pub open spec fn recorded_as(e: EntryView, rs: Seq<Recorded>, k: int) -> bool {
    &&& e.method == rs[k].method
    &&& e.path == rs[k].path
    &&& e.time_ms == rs[k].now_ms
    &&& e.status is None
    &&& rs.len() < u64::MAX ==> e.id == k + 1
}

/// However many requests are recorded, the ring holds the newest of them in
/// their order, and no more than its capacity; none has a status yet. The
/// requests are numbered from one on, so the snapshot counts down from the
/// number of requests.
pub proof fn law_ring_keeps_newest(rs: Seq<Recorded>)
    ensures
        ({
            let v = after_requests(InspectorView::initial(), rs);
            let entries = v.entries;
            let snapshot = v.entries.reverse();
            let kept = if rs.len() <= HISTORY_CAP {
                rs.len() as int
            } else {
                HISTORY_CAP as int
            };
            &&& entries.len() == kept
            &&& rs.len() < u64::MAX ==> v.next_id == rs.len() + 1
            &&& forall|i: int|
                0 <= i < kept ==> recorded_as(#[trigger] entries[i], rs, rs.len() - kept + i)
            &&& forall|j: int|
                0 <= j < kept ==> recorded_as(#[trigger] snapshot[j], rs, rs.len() - 1 - j)
        }),
    decreases rs.len(),
{
    let v = after_requests(InspectorView::initial(), rs);
    let entries = v.entries;
    let kept = if rs.len() <= HISTORY_CAP {
        rs.len() as int
    } else {
        HISTORY_CAP as int
    };
    if rs.len() > 0 {
        let front = rs.drop_last();
        law_ring_keeps_newest(front);
        let before = after_requests(InspectorView::initial(), front);
        assert(entries.len() == kept);
        assert forall|i: int| 0 <= i < kept implies recorded_as(
            #[trigger] entries[i],
            rs,
            rs.len() - kept + i,
        ) by {
            if i < kept - 1 {
                if before.entries.len() == HISTORY_CAP {
                    assert(entries[i] == before.entries[i + 1]);
                    assert(recorded_as(before.entries[i + 1], front, front.len() - HISTORY_CAP + i + 1));
                } else {
                    assert(entries[i] == before.entries[i]);
                    assert(recorded_as(before.entries[i], front, i));
                }
            }
        }
    }
    assert forall|j: int| 0 <= j < kept implies recorded_as(
        #[trigger] entries.reverse()[j],
        rs,
        rs.len() - 1 - j,
    ) by {
        assert(entries.reverse()[j] == entries[kept - 1 - j]);
    }
}

/// A response is attached to the request that it answers: the newest entry
/// gets the status and the time between the two, and the other entries stay
/// as they are. The id must not be taken by an older entry.
pub proof fn law_response_completes_request(
    v: InspectorView,
    method: Option<Seq<char>>,
    path: Option<Seq<char>>,
    now_ms: u128,
    start: u128,
    status: u16,
    end: u128,
)
    requires
        forall|j: int| 0 <= j < v.entries.len() ==> #[trigger] v.entries[j].id != v.next_id,
    ensures
        ({
            let mid = v.requested(method, path, now_ms, start);
            let done = mid.responded(v.next_id, status, end);
            &&& done.entries == mid.entries.drop_last().push(
                EntryView {
                    status: Some(status),
                    duration_ms: Some(elapsed_ms(start, end)),
                    ..v.request_entry(method, path, now_ms)
                },
            )
            &&& !done.starts.contains_key(v.next_id)
        }),
{
    let mid = v.requested(method, path, now_ms, start);
    let last = mid.entries.len() - 1;
    assert forall|j: int| 0 <= j < last implies #[trigger] mid.entries[j].id != v.next_id by {
        if v.entries.len() == HISTORY_CAP {
            assert(mid.entries[j] == v.entries[j + 1]);
        } else {
            assert(mid.entries[j] == v.entries[j]);
        }
    }
    lemma_entry_at_is(mid.entries, v.next_id, last);
    if v.entries.len() == HISTORY_CAP {
        assert(v.entries[0].id != v.next_id);
    }
    let done = mid.responded(v.next_id, status, end);
    assert(done.entries =~= mid.entries.drop_last().push(
        EntryView {
            status: Some(status),
            duration_ms: Some(elapsed_ms(start, end)),
            ..v.request_entry(method, path, now_ms)
        },
    ));
}

/// What the UI answers a request with.
#[derive(Debug, Clone, Copy, PartialEq, Eq, Structural)]
pub enum UiRoute {
    /// The entries as JSON.
    Entries,
    /// The page that shows them.
    Page,
}

/// How many bytes of a request to the UI are read at most, save for the last chunk.
pub const UI_HEADER_CAP: usize = 8 * 1024;

/// Whether more of a request to the UI is to be read.
pub open spec fn ui_wants_more(buf: Seq<u8>, eof: bool) -> bool {
    !eof && head_end(buf) is None && buf.len() <= UI_HEADER_CAP
}

/// Whether more of a request to the UI is to be read: not once its head is
/// complete, too large, or the peer has stopped sending.
pub fn ui_reads_on(buf: &Vec<u8>, eof: bool) -> (r: bool)
    ensures
        r == ui_wants_more(buf@, eof),
        r == (!eof && head_end(buf@) is None && buf@.len() <= UI_HEADER_CAP),
{
    !eof && headers_end(buf.as_slice()).is_none() && buf.len() <= UI_HEADER_CAP
}

/// The route of a request to the UI with this path.
pub open spec fn ui_route_spec(path: Option<Seq<char>>) -> UiRoute {
    if path == Some("/api/entries"@) {
        UiRoute::Entries
    } else {
        UiRoute::Page
    }
}

/// The route of a request to the UI: any path but one leads to the page.
pub fn ui_route_of(p: &ParsedRequest) -> (r: UiRoute)
    ensures
        r == ui_route_spec(p@.path),
        r == if p@.path == Some("/api/entries"@) {
            UiRoute::Entries
        } else {
            UiRoute::Page
        },
{
    match &p.path {
        Some(path) => if same_str(path.as_str(), "/api/entries") {
            UiRoute::Entries
        } else {
            UiRoute::Page
        },
        None => UiRoute::Page,
    }
}

/// The route of the request in `buf`, however much of it could be parsed.
pub fn ui_route(buf: &Vec<u8>) -> (r: UiRoute)
    ensures
        r == if http_request(buf@, 32).path == Some("/api/entries"@) {
            UiRoute::Entries
        } else {
            UiRoute::Page
        },
{
    let p = parse_request(buf.as_slice(), 32);
    ui_route_of(&p)
}

/// The response of the UI with this content.
pub fn ui_response(content_type: &str, body: &[u8]) -> (r: Vec<u8>)
    ensures
        r@ == body_spec("200 OK"@, content_type@, body@),
{
    write_body("200 OK", content_type, body)
}

} // verus!
