//! One direction of a metered byte copy, as a machine of decisions.
//!
//! The machine says what to do next; whoever drives it reads, waits, charges
//! and writes, and reports what came of it. Each chunk is throttled against
//! the bandwidth bucket, then charged against the period quota, then written.
//! Until a byte has flowed in either direction, reading is bounded by the
//! first-byte deadline.

use crate::server::rate::Charge;
use vstd::prelude::*;

verus! {

/// The size of the copy buffer.
pub const SHOVEL_BUFFER: usize = 16 * 1024;

/// What to do next.
#[derive(Debug, Clone, Copy, PartialEq, Eq, Structural)]
pub enum ShovelAction {
    /// Read a chunk, but no longer than the first-byte deadline.
    ReadWithin,
    /// Read a chunk.
    Read,
    /// Wait for bandwidth for this many bytes, then charge them.
    Meter { tokens: u32, bytes: u64 },
    /// Write the first `n` bytes of the chunk.
    Write { n: usize },
    /// Shut the writer down and end with the number of bytes copied.
    Finish { total: u64 },
    /// End with a time-out: no byte flowed within the deadline.
    TimedOut,
    /// Shut the writer down and end with a quota error.
    QuotaExceeded,
}

/// What came of the last action.
#[derive(Debug, Clone, Copy, PartialEq, Eq, Structural)]
pub enum ShovelEvent {
    /// A read gave `n` bytes; none at the end of the stream.
    Chunk { n: usize },
    /// The first-byte deadline passed without a read.
    Elapsed,
    /// The chunk was charged.
    Charged { charge: Charge },
    /// The chunk was written.
    Written,
}

/// The state of one direction.
#[derive(Debug, Clone, Copy, PartialEq, Eq, Structural)]
pub struct Shovel {
    /// Whether no read has completed yet.
    pub first: bool,
    /// Bytes written so far.
    pub total: u64,
    /// The size of the chunk in hand.
    pub chunk: usize,
}

impl Shovel {
    /// The read to make when `seen_any` says whether a byte has flowed in either direction.
    pub open spec fn read_action(self, seen_any: bool) -> ShovelAction {
        if self.first && !seen_any {
            ShovelAction::ReadWithin
        } else {
            ShovelAction::Read
        }
    }

    /// The next state, flag and action.
    pub open spec fn next(self, event: ShovelEvent, seen_any: bool) -> (Shovel, bool, ShovelAction) {
        match event {
            ShovelEvent::Elapsed => (
                self,
                seen_any,
                if seen_any {
                    ShovelAction::Read
                } else {
                    ShovelAction::TimedOut
                },
            ),
            ShovelEvent::Chunk { n } => if n == 0 {
                (
                    Shovel { first: false, chunk: 0, ..self },
                    seen_any,
                    ShovelAction::Finish { total: self.total },
                )
            } else {
                (
                    Shovel { first: false, chunk: n, ..self },
                    true,
                    ShovelAction::Meter {
                        tokens: if n <= u32::MAX {
                            n as u32
                        } else {
                            u32::MAX
                        },
                        bytes: n as u64,
                    },
                )
            },
            ShovelEvent::Charged { charge: Charge::Accepted } => (
                self,
                seen_any,
                ShovelAction::Write { n: self.chunk },
            ),
            ShovelEvent::Charged { charge: Charge::QuotaExceeded { .. } } => (
                self,
                seen_any,
                ShovelAction::QuotaExceeded,
            ),
            ShovelEvent::Written => {
                let done = Shovel { total: (self.total + self.chunk) as u64, chunk: 0, ..self };
                (done, seen_any, done.read_action(seen_any))
            },
        }
    }

    /// A direction that has not read yet.
    pub fn new() -> (r: Shovel)
        ensures
            r == (Shovel { first: true, total: 0, chunk: 0 }),
    {
        Shovel { first: true, total: 0, chunk: 0 }
    }

    /// The first action.
    pub fn start(&self, seen_any: bool) -> (r: ShovelAction)
        ensures
            r == self.read_action(seen_any),
    {
        if self.first && !seen_any {
            ShovelAction::ReadWithin
        } else {
            ShovelAction::Read
        }
    }

    /// Take in an event. `seen_any` is shared by both directions: it is set
    /// by the first chunk and never cleared.
    pub fn step(&mut self, event: ShovelEvent, seen_any: &mut bool) -> (r: ShovelAction)
        requires
            event is Written ==> old(self).total + old(self).chunk <= u64::MAX,
        ensures
            (*final(self), *final(seen_any), r) == old(self).next(event, *old(seen_any)),
    {
        match event {
            ShovelEvent::Elapsed => if *seen_any {
                ShovelAction::Read
            } else {
                ShovelAction::TimedOut
            },
            ShovelEvent::Chunk { n } => {
                self.first = false;
                self.chunk = n;
                if n == 0 {
                    return ShovelAction::Finish { total: self.total };
                }
                *seen_any = true;
                let tokens: u32 = if n <= 0xFFFF_FFFF {
                    n as u32
                } else {
                    u32::MAX
                };
                ShovelAction::Meter { tokens, bytes: n as u64 }
            },
            ShovelEvent::Charged { charge } => match charge {
                Charge::Accepted => ShovelAction::Write { n: self.chunk },
                Charge::QuotaExceeded { .. } => ShovelAction::QuotaExceeded,
            },
            ShovelEvent::Written => {
                self.total = self.total + self.chunk as u64;
                self.chunk = 0;
                self.start(*seen_any)
            },
        }
    }
}

/// Once a byte has flowed in either direction, no deadline ends the copy.
pub proof fn law_no_timeout_after_first_byte(s: Shovel, event: ShovelEvent)
    ensures
        s.next(event, true).1,
        !(s.next(event, true).2 is TimedOut),
        !(s.next(event, true).2 is ReadWithin),
{
}

/// Only a chunk whose charge was accepted is written, in full, and only
/// written chunks count towards the total.
pub proof fn law_only_charged_bytes_are_written(s: Shovel, event: ShovelEvent, seen_any: bool)
    ensures
        s.next(event, seen_any).2 is Write <==> event == (ShovelEvent::Charged {
            charge: Charge::Accepted,
        }),
        s.next(event, seen_any).2 is Write ==> s.next(event, seen_any).2->Write_n == s.chunk,
        !(event is Written) ==> s.next(event, seen_any).0.total == s.total,
{
}

/// A chunk is metered for as many bytes as it has, then written in full, and
/// then counted; after that the next chunk is read without a deadline.
pub proof fn law_chunk_is_metered_written_and_counted(s: Shovel, n: usize, seen_any: bool)
    requires
        n > 0,
        s.total + n <= u64::MAX,
    ensures
        ({
            let (read, seen, meter) = s.next(ShovelEvent::Chunk { n }, seen_any);
            let (charged, _, write) = read.next(
                ShovelEvent::Charged { charge: Charge::Accepted },
                seen,
            );
            let (done, _, again) = charged.next(ShovelEvent::Written, seen);
            &&& seen
            &&& meter is Meter && meter->bytes == n && (n <= u32::MAX ==> meter->tokens == n)
            &&& write == (ShovelAction::Write { n })
            &&& done.total == s.total + n
            &&& again == ShovelAction::Read
        }),
{
}

/// The end of the stream ends the copy with the bytes written so far; a
/// deadline ends it only while no byte has flowed, and a quota only where a
/// chunk was refused.
pub proof fn law_what_ends_a_copy(s: Shovel, event: ShovelEvent, seen_any: bool)
    ensures
        s.next(event, seen_any).2 is Finish <==> event == (ShovelEvent::Chunk { n: 0 }),
        s.next(event, seen_any).2 is Finish ==> s.next(event, seen_any).2->total == s.total,
        s.next(event, seen_any).2 is TimedOut <==> event is Elapsed && !seen_any,
        s.next(event, seen_any).2 is QuotaExceeded <==> event is Charged && event->charge is QuotaExceeded,
        s.read_action(seen_any) is ReadWithin <==> s.first && !seen_any,
{
}

} // verus!
