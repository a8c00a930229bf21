//! Per-identity rate limiting.
//!
//! Two limits are kept here. The bandwidth cap is split over one bucket per
//! worker thread; the period quota is a counter with a rolling reset deadline.
//! The number of concurrent tunnels is limited where tunnels are registered.

use crate::clock::{instant_now, max_nanos, nanos_since};
use crate::proto::frames::ServerFrame;
use crate::proto::ids::TunnelId;
use crate::server::metrics::ServerMetrics;
use crate::text::{
    chars_of, cut_last, is_digit_spec, parse_uint, rsplit_once, same_str, string_range, trim, trim_spec,
    uint_spec,
};
use vstd::prelude::*;

verus! {

/// One time period.
#[derive(Debug, Clone, Copy, PartialEq, Eq, Structural)]
pub enum Period {
    Second,
    Minute,
    Hour,
    Day,
    Week,
    /// A 30-day accounting period.
    Month,
}

impl Period {
    /// The length of the period in seconds.
    pub open spec fn secs(self) -> u64 {
        match self {
            Period::Second => 1,
            Period::Minute => 60,
            Period::Hour => 3_600,
            Period::Day => 86_400,
            Period::Week => 604_800,
            Period::Month => 2_592_000,
        }
    }

    /// The length of the period, in seconds.
    pub fn as_duration(self) -> (r: u64)
        ensures
            r == self.secs(),
            r >= 1,
    {
        match self {
            Period::Second => 1,
            Period::Minute => 60,
            Period::Hour => 60 * 60,
            Period::Day => 24 * 60 * 60,
            Period::Week => 7 * 24 * 60 * 60,
            Period::Month => 30 * 24 * 60 * 60,
        }
    }
}

/// An amount of bytes per period.
#[derive(Debug, Clone, Copy, PartialEq, Eq, Structural)]
pub struct RatePer {
    pub bytes: u64,
    pub period: Period,
}

impl RatePer {
    /// The rate in bytes per second, rounded up.
    pub open spec fn bytes_per_second(self) -> int {
        (self.bytes + self.period.secs() - 1) / self.period.secs() as int
    }

    /// Bytes per second, rounded up: the least whole rate that is not below the declared one.
    pub fn as_bytes_per_second(self) -> (r: u64)
        ensures
            r == self.bytes_per_second(),
            r * self.period.secs() >= self.bytes,
            r > 0 ==> (r - 1) * self.period.secs() < self.bytes,
    {
        let secs = self.period.as_duration();
        let whole = self.bytes / secs;
        let rest = self.bytes % secs;
        proof {
            let (b, s) = (self.bytes as int, secs as int);
            vstd::arithmetic::div_mod::lemma_fundamental_div_mod(b, s);
            vstd::arithmetic::div_mod::lemma_mod_bound(b, s);
            assert(whole <= b) by (nonlinear_arith)
                requires
                    b == s * whole + rest,
                    s >= 1,
                    whole >= 0,
                    rest >= 0,
            ;
            if rest > 0 {
                assert(whole < b) by (nonlinear_arith)
                    requires
                        b == s * whole + rest,
                        s >= 1,
                        whole >= 0,
                        rest > 0,
                ;
                assert(b + s - 1 == s * (whole + 1) + (rest - 1)) by (nonlinear_arith)
                    requires
                        b == s * whole + rest,
                ;
                vstd::arithmetic::div_mod::lemma_fundamental_div_mod_converse(
                    b + s - 1,
                    s,
                    whole + 1,
                    rest - 1,
                );
                assert((whole + 1) * s >= b) by (nonlinear_arith)
                    requires
                        b == s * whole + rest,
                        rest < s,
                ;
                assert(whole * s < b) by (nonlinear_arith)
                    requires
                        b == s * whole + rest,
                        rest > 0,
                ;
            } else {
                vstd::arithmetic::div_mod::lemma_fundamental_div_mod_converse(
                    b + s - 1,
                    s,
                    whole as int,
                    s - 1,
                );
                assert(whole * s == b) by (nonlinear_arith)
                    requires
                        b == s * whole + rest,
                        rest == 0,
                ;
                assert((whole - 1) * s < b) by (nonlinear_arith)
                    requires
                        whole * s == b,
                        s >= 1,
                ;
            }
        }
        if rest > 0 {
            whole + 1
        } else {
            whole
        }
    }
}

/// The period that a word names.
pub open spec fn period_spec(s: Seq<char>) -> Option<Period> {
    if s == "s"@ || s == "sec"@ || s == "second"@ {
        Some(Period::Second)
    } else if s == "m"@ || s == "min"@ || s == "minute"@ {
        Some(Period::Minute)
    } else if s == "h"@ || s == "hr"@ || s == "hour"@ {
        Some(Period::Hour)
    } else if s == "d"@ || s == "day"@ {
        Some(Period::Day)
    } else if s == "w"@ || s == "week"@ {
        Some(Period::Week)
    } else if s == "mo"@ || s == "month"@ {
        Some(Period::Month)
    } else {
        None
    }
}

/// The number of bytes in a unit: decimal units, and binary ones spelled with `i`.
pub open spec fn unit_spec(s: Seq<char>) -> Option<u64> {
    if s == ""@ || s == "B"@ {
        Some(1)
    } else if s == "KB"@ || s == "kB"@ {
        Some(1_000)
    } else if s == "KiB"@ {
        Some(1_024)
    } else if s == "MB"@ {
        Some(1_000_000)
    } else if s == "MiB"@ {
        Some(1_048_576)
    } else if s == "GB"@ {
        Some(1_000_000_000)
    } else if s == "GiB"@ {
        Some(1_073_741_824)
    } else if s == "TB"@ {
        Some(1_000_000_000_000)
    } else if s == "TiB"@ {
        Some(1_099_511_627_776)
    } else {
        None
    }
}

/// The length of the run of digits at the front of `s`.
pub open spec fn digits_len(s: Seq<char>) -> int
    decreases s.len(),
{
    if s.len() == 0 || !is_digit_spec(s[0]) {
        0
    } else {
        1 + digits_len(s.drop_first())
    }
}

/// The bytes that `<n><unit>` stands for.
pub open spec fn bytes_spec(s: Seq<char>) -> Option<u64> {
    let k = digits_len(s);
    match uint_spec(s.take(k), u64::MAX as nat) {
        None => None,
        Some(n) => match unit_spec(trim_spec(s.skip(k))) {
            None => None,
            Some(mul) => if n * mul <= u64::MAX {
                Some((n * mul) as u64)
            } else {
                None
            },
        },
    }
}

/// The rate that `<n><unit>/<period>` stands for.
pub open spec fn rate_spec(s: Seq<char>) -> Option<RatePer> {
    match cut_last(s, '/') {
        None => None,
        Some((amount, period)) => match period_spec(trim_spec(period)) {
            None => None,
            Some(period) => match bytes_spec(trim_spec(amount)) {
                None => None,
                Some(bytes) => Some(RatePer { bytes, period }),
            },
        },
    }
}

fn parse_period(p: &str) -> (r: Option<Period>)
    ensures
        r == period_spec(p@),
{
    if same_str(p, "s") || same_str(p, "sec") || same_str(p, "second") {
        Some(Period::Second)
    } else if same_str(p, "m") || same_str(p, "min") || same_str(p, "minute") {
        Some(Period::Minute)
    } else if same_str(p, "h") || same_str(p, "hr") || same_str(p, "hour") {
        Some(Period::Hour)
    } else if same_str(p, "d") || same_str(p, "day") {
        Some(Period::Day)
    } else if same_str(p, "w") || same_str(p, "week") {
        Some(Period::Week)
    } else if same_str(p, "mo") || same_str(p, "month") {
        Some(Period::Month)
    } else {
        None
    }
}

fn parse_unit(u: &str) -> (r: Option<u64>)
    ensures
        r == unit_spec(u@),
{
    if same_str(u, "") || same_str(u, "B") {
        Some(1)
    } else if same_str(u, "KB") || same_str(u, "kB") {
        Some(1_000)
    } else if same_str(u, "KiB") {
        Some(1_024)
    } else if same_str(u, "MB") {
        Some(1_000_000)
    } else if same_str(u, "MiB") {
        Some(1_048_576)
    } else if same_str(u, "GB") {
        Some(1_000_000_000)
    } else if same_str(u, "GiB") {
        Some(1_073_741_824)
    } else if same_str(u, "TB") {
        Some(1_000_000_000_000)
    } else if same_str(u, "TiB") {
        Some(1_099_511_627_776)
    } else {
        None
    }
}

/// Parse `<n><unit>/<period>`, such as `50MB/s`, `10GB/day` or `500GB/month`.
pub fn parse_rate_per(s: &str) -> (r: Option<RatePer>)
    ensures
        r == rate_spec(s@),
{
    let (amount, period) = match rsplit_once(s, '/') {
        None => return None,
        Some(p) => p,
    };
    let period = match parse_period(trim(period.as_str()).as_str()) {
        None => return None,
        Some(p) => p,
    };
    let bytes = match parse_bytes(trim(amount.as_str()).as_str()) {
        None => return None,
        Some(b) => b,
    };
    Some(RatePer { bytes, period })
}

fn parse_bytes(s: &str) -> (r: Option<u64>)
    ensures
        r == bytes_spec(s@),
{
    let cs = chars_of(s);
    let mut k: usize = 0;
    assert(cs@.skip(0) =~= s@);
    while k < cs.len() && '0' <= cs[k] && cs[k] <= '9'
        invariant
            k <= cs@.len(),
            digits_len(s@) == k + digits_len(cs@.skip(k as int)),
        decreases cs@.len() - k,
    {
        assert(cs@.skip(k as int).drop_first() =~= cs@.skip(k + 1));
        k += 1;
    }
    let num = string_range(&cs, 0, k);
    let unit = string_range(&cs, k, cs.len());
    assert(num@ =~= s@.take(k as int));
    assert(unit@ =~= s@.skip(k as int));
    let n = match parse_uint(num.as_str(), u64::MAX) {
        None => return None,
        Some(n) => n,
    };
    let mul = match parse_unit(trim(unit.as_str()).as_str()) {
        None => return None,
        Some(m) => m,
    };
    n.checked_mul(mul)
}

/// The outcome of [`RateLimitState::charge`].
#[derive(Debug, Clone, Copy, PartialEq, Eq, Structural)]
pub enum Charge {
    /// The bytes were counted and the caller may proceed.
    Accepted,
    /// The period quota is exhausted; the caller closes the stream. A
    /// `RateLimit` frame is queued if a control stream is attached.
    QuotaExceeded { retry_after_ms: u32 },
}

/// Per-identity limits.
///
/// Times are nanoseconds since the state was made.
pub struct RateLimitState {
    /// The bytes per second of each worker's bucket; `None` without a cap.
    pub bw: Option<Vec<u32>>,
    pub quota_cap: Option<u64>,
    pub quota_period: Period,
    pub quota_used: u64,
    pub quota_reset_at: u128,
    /// When the state was made.
    pub origin: std::time::Instant,
    /// Frames queued for the control stream of the live session, if there is one.
    pub ctrl: Option<Vec<ServerFrame>>,
    /// Quota breaches that the relay's counters have not been told of yet;
    /// `None` when no counters are linked.
    pub unreported: Option<u64>,
}

/// A period in nanoseconds.
pub open spec fn period_nanos(p: Period) -> nat {
    p.secs() as nat * 1_000_000_000
}

/// The rate of each bucket when `bw` is split over `partitions` workers.
pub open spec fn per_core_rate(bw: RatePer, partitions: nat) -> int {
    let total = if bw.bytes_per_second() <= u32::MAX {
        bw.bytes_per_second()
    } else {
        u32::MAX as int
    };
    if total / partitions as int >= 1 {
        total / partitions as int
    } else {
        1
    }
}

/// The milliseconds from `now` to `deadline`, as far as 32 bits can say.
pub open spec fn millis_until(deadline: int, now: int) -> u32 {
    let ms = if deadline > now {
        (deadline - now) / 1_000_000
    } else {
        0
    };
    if ms <= u32::MAX {
        ms as u32
    } else {
        u32::MAX
    }
}

impl RateLimitState {
    /// The counter's deadline lies no further than a clock can tell and one period.
    pub open spec fn wf(self) -> bool {
        self.quota_reset_at <= max_nanos() + period_nanos(Period::Month)
    }

    /// The counter and its deadline after the roll-over that is due at `now`.
    pub open spec fn rolled(self, now: u128) -> (u64, u128) {
        if now >= self.quota_reset_at {
            (0, (now + period_nanos(self.quota_period)) as u128)
        } else {
            (self.quota_used, self.quota_reset_at)
        }
    }

    /// Whether `n` more bytes at `now` go over the quota.
    pub open spec fn breaches(self, n: u64, now: u128) -> bool {
        self.quota_cap is Some && self.rolled(now).0 + n > self.quota_cap->0
    }

    /// The counter after `n` more bytes at `now`, as far as 64 bits can say.
    pub open spec fn counted(self, n: u64, now: u128) -> u64 {
        if self.rolled(now).0 + n <= u64::MAX {
            (self.rolled(now).0 + n) as u64
        } else {
            u64::MAX
        }
    }

    /// What charging `n` bytes at `now` makes of `self`; a breach is reported
    /// with the wait as it stands at `later`.
    pub open spec fn charged(
        self,
        post: RateLimitState,
        tunnel_id: TunnelId,
        n: u64,
        now: u128,
        later: u128,
        r: Charge,
    ) -> bool {
        let deadline = self.rolled(now).1;
        let retry_after_ms = millis_until(deadline as int, later as int);
        &&& post.bw == self.bw
        &&& post.quota_cap == self.quota_cap
        &&& post.quota_period == self.quota_period
        &&& post.origin == self.origin
        &&& self.quota_cap is None ==> post == self && r == Charge::Accepted
        &&& self.quota_cap is Some ==> post.quota_used == self.counted(n, now)
            && post.quota_reset_at == deadline
        &&& self.quota_cap is Some && !self.breaches(n, now) ==> {
            &&& r == Charge::Accepted
            &&& post.ctrl == self.ctrl
            &&& post.unreported == self.unreported
        }
        &&& self.breaches(n, now) ==> {
            &&& r == Charge::QuotaExceeded { retry_after_ms }
            &&& match self.ctrl {
                None => post.ctrl is None,
                Some(q) => post.ctrl is Some && post.ctrl->0@ == q@.push(
                    ServerFrame::RateLimit { tunnel_id: Some(tunnel_id), retry_after_ms },
                ),
            }
            &&& match self.unreported {
                None => post.unreported is None,
                Some(k) => post.unreported == Some(k.wrapping_add(1)),
            }
        }
    }

    /// A fresh state for an identity's limits, without linked counters.
    pub fn from_entry(bw: Option<RatePer>, quota: Option<RatePer>, bw_partitions: usize) -> (r:
        RateLimitState)
        ensures
            r.wf(),
            r.fresh(bw, quota, bw_partitions),
            r.unreported is None,
    {
        RateLimitState::from_entry_with_metrics(bw, quota, bw_partitions, false)
    }

    /// What a fresh state holds for the declared limits.
    pub open spec fn fresh(
        self,
        bw: Option<RatePer>,
        quota: Option<RatePer>,
        bw_partitions: usize,
    ) -> bool {
        let partitions: usize = if bw_partitions == 0 {
            1
        } else {
            bw_partitions
        };
        &&& match bw {
            None => self.bw is None,
            Some(rate) => {
                &&& self.bw is Some
                &&& self.bw->0@.len() == partitions
                &&& forall|i: int|
                    0 <= i < partitions ==> #[trigger] self.bw->0@[i] == per_core_rate(
                        rate,
                        partitions as nat,
                    )
            },
        }
        &&& match quota {
            None => self.quota_cap is None && self.quota_period == Period::Month,
            Some(q) => self.quota_cap == Some(q.bytes) && self.quota_period == q.period,
        }
        &&& self.quota_used == 0
        &&& self.quota_reset_at == period_nanos(self.quota_period)
        &&& self.ctrl is None
    }

    /// A fresh state for an identity's limits. `bw_partitions` is the number
    /// of worker threads; 0 counts as 1. `linked` says whether breaches are
    /// reported to the relay's counters.
    pub fn from_entry_with_metrics(
        bw: Option<RatePer>,
        quota: Option<RatePer>,
        bw_partitions: usize,
        linked: bool,
    ) -> (r: RateLimitState)
        ensures
            r.wf(),
            r.fresh(bw, quota, bw_partitions),
            r.unreported == if linked {
                Some(0u64)
            } else {
                None
            },
    {
        let partitions: usize = if bw_partitions == 0 {
            1
        } else {
            bw_partitions
        };
        let buckets = match bw {
            None => None,
            Some(rate) => Some(split_bandwidth(rate, partitions)),
        };
        let (quota_cap, quota_period) = match quota {
            Some(q) => (Some(q.bytes), q.period),
            None => (None, Period::Month),
        };
        RateLimitState {
            bw: buckets,
            quota_cap,
            quota_period,
            quota_used: 0,
            quota_reset_at: quota_period.as_duration() as u128 * 1_000_000_000,
            origin: instant_now(),
            ctrl: None,
            unreported: if linked {
                Some(0)
            } else {
                None
            },
        }
    }

    /// Attach the control stream of a session: an empty queue replaces whatever was there.
    pub fn attach_ctrl(&mut self)
        ensures
            final(self).ctrl is Some,
            final(self).ctrl->0@ == Seq::<ServerFrame>::empty(),
            *final(self) == (RateLimitState { ctrl: final(self).ctrl, ..*old(self) }),
    {
        self.ctrl = Some(Vec::new());
    }

    /// Detach the control stream, with whatever was queued for it.
    pub fn detach_ctrl(&mut self)
        ensures
            *final(self) == (RateLimitState { ctrl: None, ..*old(self) }),
    {
        self.ctrl = None;
    }

    /// Take the frames that wait for the control stream, oldest first. The
    /// stream stays attached.
    pub fn take_frames(&mut self) -> (r: Vec<ServerFrame>)
        ensures
            r@ == match old(self).ctrl {
                Some(q) => q@,
                None => Seq::empty(),
            },
            final(self).ctrl is Some <==> old(self).ctrl is Some,
            final(self).ctrl is Some ==> final(self).ctrl->0@ == Seq::<ServerFrame>::empty(),
            *final(self) == (RateLimitState { ctrl: final(self).ctrl, ..*old(self) }),
    {
        match self.ctrl.take() {
            Some(queue) => {
                self.ctrl = Some(Vec::new());
                queue
            },
            None => Vec::new(),
        }
    }

    /// What telling the relay's counters of the breaches leaves behind.
    pub open spec fn reported(
        self,
        post: RateLimitState,
        before: ServerMetrics,
        after: ServerMetrics,
    ) -> bool {
        match self.unreported {
            None => post == self && after == before,
            Some(k) => {
                &&& post == (RateLimitState { unreported: Some(0), ..self })
                &&& after == (ServerMetrics {
                    rate_limit_quota_exceeded: before.rate_limit_quota_exceeded.wrapping_add(k),
                    ..before
                })
            },
        }
    }

    /// Tell the relay's counters of the breaches since the last time.
    pub fn report_breaches(&mut self, metrics: &mut ServerMetrics)
        ensures
            old(self).reported(*final(self), *old(metrics), *final(metrics)),
    {
        if let Some(k) = self.unreported {
            metrics.rate_limit_quota_exceeded = metrics.rate_limit_quota_exceeded.wrapping_add(k);
            self.unreported = Some(0);
        }
    }

    /// The bucket that worker `worker_id` spends `n` bytes from; `None` when
    /// there is nothing to wait for.
    pub fn throttle(&self, worker_id: usize, n: u32) -> (r: Option<usize>)
        requires
            self.bw is Some ==> self.bw->0@.len() > 0,
        ensures
            r == (if self.bw is Some && n > 0 {
                Some((worker_id as int % self.bw->0@.len() as int) as usize)
            } else {
                None
            }),
            r is Some ==> r->0 < self.bw->0@.len(),
    {
        match &self.bw {
            None => None,
            Some(buckets) => if n == 0 {
                None
            } else {
                Some(worker_id % buckets.len())
            },
        }
    }

    /// Account `n` bytes against the period quota, rolling the counter over
    /// when its deadline has passed. The bytes are counted even when they go
    /// over the quota; more than the counter can hold is always over it.
    pub fn charge(&mut self, tunnel_id: TunnelId, n: u64) -> (r: Charge)
        requires
            old(self).wf(),
        ensures
            final(self).wf(),
            exists|now: u128, later: u128|
                now <= max_nanos() && later <= max_nanos() && #[trigger] old(self).charged(
                    *final(self),
                    tunnel_id,
                    n,
                    now,
                    later,
                    r,
                ),
    {
        if self.quota_cap.is_none() {
            assert(old(self).charged(*self, tunnel_id, n, 0, 0, Charge::Accepted));
            return Charge::Accepted;
        }
        let now = nanos_since(&self.origin);
        let later = nanos_since(&self.origin);
        self.charge_at(tunnel_id, n, now, later)
    }

    /// Account `n` bytes at `now`; a breach is reported with the wait as it stands at `later`.
    pub fn charge_at(&mut self, tunnel_id: TunnelId, n: u64, now: u128, later: u128) -> (r: Charge)
        requires
            old(self).wf(),
            now <= max_nanos(),
        ensures
            final(self).wf(),
            old(self).charged(*final(self), tunnel_id, n, now, later, r),
    {
        let cap = match self.quota_cap {
            None => return Charge::Accepted,
            Some(cap) => cap,
        };
        if now >= self.quota_reset_at {
            self.quota_used = 0;
            self.quota_reset_at = now + self.quota_period.as_duration() as u128 * 1_000_000_000;
        }
        let within = match self.quota_used.checked_add(n) {
            Some(used) => {
                self.quota_used = used;
                used <= cap
            },
            None => {
                self.quota_used = u64::MAX;
                false
            },
        };
        if !within {
            let retry_after_ms = self.retry_after_ms_at(later);
            let frame = ServerFrame::RateLimit { tunnel_id: Some(tunnel_id), retry_after_ms };
            if let Some(queue) = &mut self.ctrl {
                queue.push(frame);
            }
            if let Some(k) = self.unreported {
                self.unreported = Some(k.wrapping_add(1));
            }
            return Charge::QuotaExceeded { retry_after_ms };
        }
        Charge::Accepted
    }

    /// Bytes counted against the period quota.
    pub fn quota_used_snapshot(&self) -> (r: u64)
        ensures
            r == self.quota_used,
    {
        self.quota_used
    }

    /// Milliseconds until the quota period resets, clamped to `u32::MAX`.
    pub fn retry_after_ms(&self) -> (r: u32)
        ensures
            exists|now: u128|
                now <= max_nanos() && r == #[trigger] millis_until(
                    self.quota_reset_at as int,
                    now as int,
                ),
    {
        let now = nanos_since(&self.origin);
        self.retry_after_ms_at(now)
    }

    /// Milliseconds from `now` until the quota period resets, clamped to `u32::MAX`.
    pub fn retry_after_ms_at(&self, now: u128) -> (r: u32)
        ensures
            r == millis_until(self.quota_reset_at as int, now as int),
    {
        if self.quota_reset_at <= now {
            return 0;
        }
        let ms: u128 = (self.quota_reset_at - now) / 1_000_000;
        if ms <= 0xFFFF_FFFF {
            ms as u32
        } else {
            u32::MAX
        }
    }
}

fn split_bandwidth(rate: RatePer, partitions: usize) -> (r: Vec<u32>)
    requires
        partitions > 0,
    ensures
        r@.len() == partitions,
        forall|i: int|
            0 <= i < partitions ==> #[trigger] r@[i] == per_core_rate(rate, partitions as nat),
{
    let bps = rate.as_bytes_per_second();
    let total: u64 = if bps <= 0xFFFF_FFFF {
        bps
    } else {
        0xFFFF_FFFF
    };
    let share: u64 = total / partitions as u64;
    let per_core: u64 = if share >= 1 {
        share
    } else {
        1
    };
    proof {
        assert(share <= total) by (nonlinear_arith)
            requires
                share == total / partitions as u64,
                partitions > 0,
        ;
    }
    let mut buckets: Vec<u32> = Vec::new();
    for i in 0..partitions
        invariant
            buckets@.len() == i,
            per_core <= u32::MAX,
            forall|j: int| 0 <= j < i ==> #[trigger] buckets@[j] == per_core,
    {
        buckets.push(per_core as u32);
    }
    buckets
}

/// The buckets together never exceed the declared rate, unless there are more
/// workers than bytes per second.
pub proof fn law_buckets_within_cap(rate: RatePer, partitions: nat)
    requires
        partitions > 0,
        rate.bytes_per_second() >= partitions,
        partitions <= u32::MAX,
    ensures
        per_core_rate(rate, partitions) * partitions <= rate.bytes_per_second(),
{
    let total = if rate.bytes_per_second() <= u32::MAX {
        rate.bytes_per_second()
    } else {
        u32::MAX as int
    };
    let p = partitions as int;
    vstd::arithmetic::div_mod::lemma_fundamental_div_mod(total, p);
    vstd::arithmetic::div_mod::lemma_mod_bound(total, p);
    let q = total / p;
    assert(q >= 1) by (nonlinear_arith)
        requires
            total == p * q + total % p,
            0 <= total % p < p,
            total >= p,
    ;
    assert(q * p <= total) by (nonlinear_arith)
        requires
            total == p * q + total % p,
            0 <= total % p,
    ;
}

/// Without a quota every charge is accepted and nothing is counted.
pub proof fn law_no_quota_never_breaches(
    pre: RateLimitState,
    post: RateLimitState,
    tunnel_id: TunnelId,
    n: u64,
    now: u128,
    later: u128,
    r: Charge,
)
    requires
        pre.quota_cap is None,
        pre.charged(post, tunnel_id, n, now, later, r),
    ensures
        r == Charge::Accepted,
        post == pre,
{
}

/// Within one period the accepted bytes never exceed the quota: a charge is
/// accepted only if the counter stays within the cap.
pub proof fn law_accepted_within_quota(
    pre: RateLimitState,
    post: RateLimitState,
    tunnel_id: TunnelId,
    n: u64,
    now: u128,
    later: u128,
    r: Charge,
)
    requires
        pre.quota_cap is Some,
        pre.charged(post, tunnel_id, n, now, later, r),
    ensures
        r == Charge::Accepted <==> pre.rolled(now).0 + n <= pre.quota_cap->0,
        r == Charge::Accepted ==> post.quota_used == pre.rolled(now).0 + n && post.quota_used
            <= pre.quota_cap->0,
{
}

/// A charge that the counter cannot hold is a breach like any other, whatever the quota.
pub proof fn law_overflow_is_a_breach(
    pre: RateLimitState,
    post: RateLimitState,
    tunnel_id: TunnelId,
    n: u64,
    now: u128,
    later: u128,
    r: Charge,
)
    requires
        pre.quota_cap is Some,
        pre.rolled(now).0 + n > u64::MAX,
        pre.charged(post, tunnel_id, n, now, later, r),
    ensures
        r is QuotaExceeded,
{
}

/// A breach of linked limits reaches the relay's counters, and an accepted
/// charge leaves them alone.
pub proof fn law_breaches_are_counted(
    pre: RateLimitState,
    mid: RateLimitState,
    post: RateLimitState,
    tunnel_id: TunnelId,
    n: u64,
    now: u128,
    later: u128,
    r: Charge,
    before: ServerMetrics,
    after: ServerMetrics,
)
    requires
        pre.unreported == Some(0u64),
        pre.charged(mid, tunnel_id, n, now, later, r),
        mid.reported(post, before, after),
    ensures
        r is QuotaExceeded ==> after == (ServerMetrics {
            rate_limit_quota_exceeded: before.rate_limit_quota_exceeded.wrapping_add(1),
            ..before
        }),
        r is Accepted ==> after == before,
        post.unreported == Some(0u64),
{
}

/// Once the quota is exceeded, every further charge before the deadline is
/// refused; one at or after the deadline counts from zero. The one exception is
/// a charge of nothing to a quota as large as the counter itself.
pub proof fn law_breach_lasts_until_deadline(
    pre: RateLimitState,
    mid: RateLimitState,
    post: RateLimitState,
    tunnel_id: TunnelId,
    n1: u64,
    n2: u64,
    t1: u128,
    t2: u128,
    later1: u128,
    later2: u128,
    r1: Charge,
    r2: Charge,
)
    requires
        pre.charged(mid, tunnel_id, n1, t1, later1, r1),
        mid.charged(post, tunnel_id, n2, t2, later2, r2),
        r1 is QuotaExceeded,
        n2 > 0 || pre.quota_cap != Some(u64::MAX),
    ensures
        t2 < mid.quota_reset_at ==> r2 is QuotaExceeded,
        t2 >= mid.quota_reset_at ==> post.quota_used == n2,
{
}

} // verus!
