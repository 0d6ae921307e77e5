//! A byte-counting accumulation sink.
//!
//! Pure instrumentation: bytes pass through unchanged into the owned buffer,
//! and an explicit flush reports the bytes written since the last flush and
//! resets the counter.

use vstd::prelude::*;
use vstd::string::StringExecFns;

verus! {

/// A labeled byte sink that accumulates everything written to it and tallies
/// how much has arrived since the last flush.
pub struct MeteredPipe {
    /// Name under which the caller reports this sink's totals.
    pub label: String,
    /// Everything ever written to the sink, in order.
    pub destination: Vec<u8>,
    /// Bytes written since the last flush.
    pub size: u64,
}

impl MeteredPipe {
    /// The counter never exceeds what the buffer holds.
    pub open spec fn wf(&self) -> bool {
        self.size <= self.destination@.len()
    }

    /// An empty sink with a zeroed counter.
    pub fn new(label: &str) -> (pipe: MeteredPipe)
        ensures
            pipe.label@ == label@,
            pipe.destination@ == Seq::<u8>::empty(),
            pipe.size == 0,
            pipe.wf(),
    {
        MeteredPipe { label: String::from_str(label), destination: Vec::new(), size: 0 }
    }

    /// Append `buf` to the buffer and add its length to the counter; every
    /// byte is always accepted.
    pub fn write(&mut self, buf: &[u8]) -> (n: usize)
        requires
            old(self).wf(),
        ensures
            final(self).wf(),
            final(self).destination@ == old(self).destination@ + buf@,
            final(self).size == old(self).size + buf@.len(),
            final(self).label == old(self).label,
            n == buf@.len(),
    {
        self.destination.extend_from_slice(buf);
        proof {
            assert(self.destination@ =~= old(self).destination@ + buf@);
        }
        let total = self.destination.len();
        let n = buf.len();
        proof {
            assert(old(self).size + n <= total);
        }
        self.size = self.size + (n as u64);
        n
    }

    /// Report the bytes written since the last flush and reset the counter;
    /// the buffer is untouched.
    pub fn flush(&mut self) -> (reported: u64)
        ensures
            final(self).wf(),
            reported == old(self).size,
            final(self).size == 0,
            final(self).destination@ == old(self).destination@,
            final(self).label == old(self).label,
    {
        let reported = self.size;
        self.size = 0;
        reported
    }
}

} // verus!
