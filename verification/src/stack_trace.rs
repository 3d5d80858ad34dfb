use vstd::prelude::*;

verus! {

/// At most this many return addresses are recorded.
pub const MAX_TRACE_LEN: usize = 32;

/// The return addresses found by walking the stack frames, innermost first.
pub struct StackTrace {
    pub addresses: [u32; 32],
    pub length: usize,
}

/// Walks a stack trace's addresses in order.
pub struct Iter<'a> {
    pub stack_trace: &'a StackTrace,
    pub index: usize,
}

impl StackTrace {
    /// A trace of the first `length` of `addresses`, as the frame walker
    /// filled them in; `length` is at most the capacity.
    pub fn new(addresses: [u32; 32], length: usize) -> (r: StackTrace)
        requires
            length <= MAX_TRACE_LEN,
        ensures
            r.addresses == addresses,
            r.length == length,
    {
        StackTrace { addresses, length }
    }

    pub fn iter(&self) -> (r: Iter<'_>)
        ensures
            r.stack_trace == self,
            r.index == 0,
    {
        Iter { stack_trace: self, index: 0 }
    }
}

impl<'a> Iter<'a> {
    /// The next address of the trace, if any is left.
    pub fn next(&mut self) -> (r: Option<u32>)
        requires
            old(self).stack_trace.length <= MAX_TRACE_LEN,
        ensures
            final(self).stack_trace == old(self).stack_trace,
            old(self).index < old(self).stack_trace.length ==> r == Some(
                old(self).stack_trace.addresses@[old(self).index as int],
            ) && final(self).index == old(self).index + 1,
            old(self).index >= old(self).stack_trace.length ==> r is None && final(self).index == old(
                self,
            ).index,
    {
        if self.index < self.stack_trace.length {
            let addr = self.stack_trace.addresses[self.index];
            self.index = self.index + 1;
            Some(addr)
        } else {
            None
        }
    }
}

} // verus!
