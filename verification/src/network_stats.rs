//! Counters of the bytes the program receives and sends over the network,
//! and the summary line shown for them.
use vstd::prelude::*;

verus! {

/// `a + b`, wrapped around modulo the range of `usize`.
pub open spec fn wrapped_sum(a: usize, b: usize) -> int {
    if a + b <= usize::MAX {
        a + b
    } else {
        a + b - usize::MAX - 1
    }
}

/// Bytes counted since the last summary, and the last summary line.
pub struct NetworkStats {
    pub incoming_bytes: usize,
    pub outgoing_bytes: usize,
    pub summary: String,
}

impl NetworkStats {
    /// Nothing counted and an empty summary.
    pub fn new() -> (r: Self)
        ensures
            r.incoming_bytes == 0,
            r.outgoing_bytes == 0,
            r.summary@.len() == 0,
    {
        NetworkStats { incoming_bytes: 0, outgoing_bytes: 0, summary: String::new() }
    }

    /// Count received bytes; the counter wraps around on overflow.
    pub fn add_incoming_bytes(&mut self, bytes: usize)
        ensures
            final(self).incoming_bytes == wrapped_sum(old(self).incoming_bytes, bytes),
            final(self).outgoing_bytes == old(self).outgoing_bytes,
            final(self).summary@ == old(self).summary@,
    {
        self.incoming_bytes = self.incoming_bytes.wrapping_add(bytes);
    }

    /// Count sent bytes; the counter wraps around on overflow.
    pub fn add_outgoing_bytes(&mut self, bytes: usize)
        ensures
            final(self).outgoing_bytes == wrapped_sum(old(self).outgoing_bytes, bytes),
            final(self).incoming_bytes == old(self).incoming_bytes,
            final(self).summary@ == old(self).summary@,
    {
        self.outgoing_bytes = self.outgoing_bytes.wrapping_add(bytes);
    }

    /// Take the counts since the last call, (incoming, outgoing), and start
    /// counting from zero.
    pub fn take_counts(&mut self) -> (r: (usize, usize))
        ensures
            r == (old(self).incoming_bytes, old(self).outgoing_bytes),
            final(self).incoming_bytes == 0,
            final(self).outgoing_bytes == 0,
            final(self).summary@ == old(self).summary@,
    {
        let counts = (self.incoming_bytes, self.outgoing_bytes);
        self.incoming_bytes = 0;
        self.outgoing_bytes = 0;
        counts
    }

    /// Replace the summary line.
    pub fn set_summary(&mut self, summary: String)
        ensures
            final(self).summary@ == summary@,
            final(self).incoming_bytes == old(self).incoming_bytes,
            final(self).outgoing_bytes == old(self).outgoing_bytes,
    {
        self.summary = summary;
    }

    /// The last summary line.
    pub fn stats(&self) -> (r: String)
        ensures
            r@ == self.summary@,
    {
        self.summary.clone()
    }
}

} // verus!
