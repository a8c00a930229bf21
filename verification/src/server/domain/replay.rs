//! A stream that gives back bytes that were read from it before.

use vstd::prelude::*;

verus! {

/// Wraps `S` and hands out the `replay` bytes first; after them reads go to
/// `S`. Writes always do.
pub struct ReplayStream<S> {
    pub replay: Vec<u8>,
    pub read_pos: usize,
    pub inner: S,
}

impl<S> ReplayStream<S> {
    /// The position lies within the replayed bytes.
    pub open spec fn wf(self) -> bool {
        self.read_pos <= self.replay@.len()
    }

    /// The bytes that are still to be handed out before `S` is read.
    pub open spec fn pending(self) -> Seq<u8> {
        self.replay@.skip(self.read_pos as int)
    }

    /// A stream that hands out `replay` first.
    pub fn new(replay: Vec<u8>, inner: S) -> (r: ReplayStream<S>)
        ensures
            r.wf(),
            r.pending() == replay@,
            r.inner == inner,
    {
        let r = ReplayStream { replay, read_pos: 0, inner };
        assert(r.pending() =~= replay@);
        r
    }

    /// Read into a buffer with room for `room` bytes: as many pending bytes as
    /// fit, or `None` when `S` is to be read.
    pub fn next_chunk(&mut self, room: usize) -> (r: Option<Vec<u8>>)
        requires
            old(self).wf(),
        ensures
            final(self).wf(),
            final(self).inner == old(self).inner,
            match r {
                None => old(self).pending().len() == 0 && *final(self) == *old(self),
                Some(bytes) => {
                    &&& old(self).pending().len() > 0
                    &&& bytes@.len() == if room <= old(self).pending().len() {
                        room as nat
                    } else {
                        old(self).pending().len()
                    }
                    &&& bytes@ + final(self).pending() == old(self).pending()
                },
            },
    {
        if self.read_pos >= self.replay.len() {
            return None;
        }
        let remaining: usize = self.replay.len() - self.read_pos;
        let take: usize = if remaining <= room {
            remaining
        } else {
            room
        };
        let end: usize = self.read_pos + take;
        let bytes = vstd::slice::slice_to_vec(
            vstd::slice::slice_subrange(self.replay.as_slice(), self.read_pos, end),
        );
        self.read_pos = end;
        assert(bytes@ + self.pending() =~= old(self).pending());
        Some(bytes)
    }
}

} // verus!
