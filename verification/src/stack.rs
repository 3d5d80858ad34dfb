use vstd::prelude::*;

verus! {

/// A downward-growing stack of 32-bit words over a fixed region of memory:
/// `elems` holds the words from the bottom of the stack up to its top.
pub struct Stack {
    pub region_start: usize,
    pub region_end: usize,
    pub elems: Vec<u32>,
}

#[derive(Clone, Copy, Debug, PartialEq, Eq, Structural)]
pub enum PushErr {
    Full,
}

#[derive(Clone, Copy, Debug, PartialEq, Eq, Structural)]
pub enum PopErr {
    Empty,
}

impl Stack {
    /// Number of words the region holds.
    pub open spec fn capacity(&self) -> nat {
        ((self.region_end - self.region_start) / 4) as nat
    }

    pub open spec fn wf(&self) -> bool {
        &&& self.region_start <= self.region_end
        &&& (self.region_end - self.region_start) % 4 == 0
        &&& self.elems@.len() <= self.capacity()
    }

    /// Address of the word on top of the stack (the region's end when the
    /// stack is empty).
    pub open spec fn spec_top(&self) -> int {
        self.region_end - 4 * self.elems@.len()
    }

    /// An empty stack over `start..end`, whose length must be a multiple of
    /// the word size.
    pub fn from_region(start: usize, end: usize) -> (r: Stack)
        requires
            start <= end,
            (end - start) % 4 == 0,
        ensures
            r.wf(),
            r.region_start == start,
            r.region_end == end,
            r.elems@ == Seq::<u32>::empty(),
    {
        Stack { region_start: start, region_end: end, elems: Vec::new() }
    }

    /// Address of the word on top of the stack.
    pub fn top(&self) -> (r: usize)
        requires
            self.wf(),
        ensures
            r == self.spec_top(),
    {
        proof {
            assert(4 * self.elems@.len() <= self.region_end - self.region_start) by (nonlinear_arith)
                requires
                    self.elems@.len() <= (self.region_end - self.region_start) / 4,
            ;
        }
        self.region_end - 4 * self.elems.len()
    }

    /// Address just past the stack's first word: the region's end.
    pub fn bottom(&self) -> (r: usize)
        ensures
            r == self.region_end,
    {
        self.region_end
    }

    pub fn push(&mut self, elem: u32) -> (r: Result<(), PushErr>)
        requires
            old(self).wf(),
        ensures
            final(self).wf(),
            final(self).region_start == old(self).region_start,
            final(self).region_end == old(self).region_end,
            old(self).elems@.len() < old(self).capacity() ==> r is Ok && final(self).elems@ == old(self).elems@.push(elem),
            old(self).elems@.len() == old(self).capacity() ==> r == Err::<(), PushErr>(
                PushErr::Full,
            ) && final(self).elems@ == old(self).elems@,
    {
        let cap = (self.region_end - self.region_start) / 4;
        if self.elems.len() < cap {
            self.elems.push(elem);
            Ok(())
        } else {
            Err(PushErr::Full)
        }
    }

    pub fn pop(&mut self) -> (r: Result<u32, PopErr>)
        requires
            old(self).wf(),
        ensures
            final(self).wf(),
            final(self).region_start == old(self).region_start,
            final(self).region_end == old(self).region_end,
            old(self).elems@.len() > 0 ==> r == Ok::<u32, PopErr>(old(self).elems@.last())
                && final(self).elems@ == old(self).elems@.drop_last(),
            old(self).elems@.len() == 0 ==> r == Err::<u32, PopErr>(PopErr::Empty) && final(self).elems@ == old(self).elems@,
    {
        match self.elems.pop() {
            Some(e) => Ok(e),
            None => Err(PopErr::Empty),
        }
    }
}

/// Popping right after pushing gives back the pushed word and the stack as
/// it was.
pub proof fn lemma_push_pop(s: Seq<u32>, e: u32)
    ensures
        s.push(e).last() == e,
        s.push(e).drop_last() == s,
{
    assert(s.push(e).drop_last() =~= s);
}

} // verus!
