use vstd::prelude::*;

use crate::gdt::{GlobalDescriptorTable, TLS_IDX};
use crate::stack::Stack;

verus! {

/// What the thread switch code saves and restores for a thread; the field
/// order is the one the switch code expects.
#[derive(Clone, Copy, Debug, PartialEq, Eq, Structural)]
pub struct ThreadControlBlock {
    pub cr3: u32,
    pub esp0: u32,
    pub esp: u32,
    pub tls: u32,
}

/// A kernel thread of a process.
pub struct Thread {
    pub id: usize,
    pub process_id: usize,
    pub kernel_stack: Stack,
    pub tcb: ThreadControlBlock,
}

/// Words pushed below the entry arguments to make the first switch to a
/// thread land in its entry point: a null return address, the entry point,
/// a null frame pointer and six zeroed registers (eax, ecx, edx, ebx, esi,
/// edi).
pub open spec fn initial_frame(entry: u32) -> Seq<u32> {
    seq![0u32, entry, 0u32, 0u32, 0u32, 0u32, 0u32, 0u32, 0u32]
}

/// The stack that a new thread starts with: its entry arguments, last one
/// first, and the initial frame.
pub open spec fn initial_stack(entry: u32, args: Seq<u32>) -> Seq<u32> {
    args.reverse() + initial_frame(entry)
}

impl Thread {
    /// A thread with an empty kernel stack; the stack grows down from its
    /// bottom, and the thread runs in the address space whose page
    /// directory is at `cr3`.
    pub fn new(process_id: usize, thread_id: usize, cr3: u32, kernel_stack: Stack) -> (r: Thread)
        requires
            kernel_stack.wf(),
            kernel_stack.elems@.len() == 0,
            kernel_stack.region_end <= u32::MAX,
        ensures
            r.id == thread_id,
            r.process_id == process_id,
            r.kernel_stack == kernel_stack,
            r.tcb == (ThreadControlBlock {
                cr3,
                esp0: kernel_stack.region_end as u32,
                esp: kernel_stack.region_end as u32,
                tls: 0,
            }),
    {
        let esp0 = kernel_stack.bottom() as u32;
        let esp = kernel_stack.top() as u32;
        Thread {
            id: thread_id,
            process_id,
            kernel_stack,
            tcb: ThreadControlBlock { cr3, esp0, esp, tls: 0 },
        }
    }

    /// A thread whose kernel stack is laid out so that the first switch to
    /// it calls `entry` with `entry_args`.  The stack must have room for the
    /// arguments and the initial frame.
    pub fn new_with_stack(
        process_id: usize,
        thread_id: usize,
        cr3: u32,
        kernel_stack: Stack,
        entry: u32,
        entry_args: &[u32],
    ) -> (r: Thread)
        requires
            kernel_stack.wf(),
            kernel_stack.elems@.len() == 0,
            kernel_stack.region_end <= u32::MAX,
            entry_args@.len() + 9 <= kernel_stack.capacity(),
        ensures
            r.id == thread_id,
            r.process_id == process_id,
            r.kernel_stack.wf(),
            r.kernel_stack.region_start == kernel_stack.region_start,
            r.kernel_stack.region_end == kernel_stack.region_end,
            r.kernel_stack.elems@ == initial_stack(entry, entry_args@),
            r.tcb.cr3 == cr3,
            r.tcb.esp0 == kernel_stack.region_end,
            r.tcb.esp == r.kernel_stack.spec_top(),
            r.tcb.tls == 0,
    {
        let mut thread = Thread::new(process_id, thread_id, cr3, kernel_stack);
        let mut i = entry_args.len();
        while i > 0
            invariant
                i <= entry_args@.len(),
                thread.kernel_stack.wf(),
                thread.kernel_stack.region_start == kernel_stack.region_start,
                thread.kernel_stack.region_end == kernel_stack.region_end,
                thread.kernel_stack.elems@ == entry_args@.subrange(i as int, entry_args@.len() as int).reverse(),
                entry_args@.len() + 9 <= thread.kernel_stack.capacity(),
                thread.id == thread_id,
                thread.process_id == process_id,
                thread.tcb.cr3 == cr3,
                thread.tcb.esp0 == kernel_stack.region_end,
                thread.tcb.tls == 0,
            decreases i,
        {
            i = i - 1;
            let _ = thread.kernel_stack.push(entry_args[i]);
            assert(entry_args@.subrange(i as int, entry_args@.len() as int).reverse() =~= entry_args@.subrange(
                i + 1,
                entry_args@.len() as int,
            ).reverse().push(entry_args@[i as int]));
        }
        assert(entry_args@.subrange(0, entry_args@.len() as int) =~= entry_args@);
        let ghost before = thread.kernel_stack.elems@;
        let _ = thread.kernel_stack.push(0);
        let _ = thread.kernel_stack.push(entry);
        let _ = thread.kernel_stack.push(0);
        let _ = thread.kernel_stack.push(0);
        let _ = thread.kernel_stack.push(0);
        let _ = thread.kernel_stack.push(0);
        let _ = thread.kernel_stack.push(0);
        let _ = thread.kernel_stack.push(0);
        let _ = thread.kernel_stack.push(0);
        assert(thread.kernel_stack.elems@ =~= before + initial_frame(entry));
        let top = thread.kernel_stack.top();
        proof {
            assert(top <= kernel_stack.region_end);
        }
        thread.tcb.esp = top as u32;
        thread
    }

    /// Sets the thread-local storage pointer and loads it into the TLS
    /// descriptor of `gdt`.
    pub fn set_tls(&mut self, value: usize, gdt: &mut GlobalDescriptorTable)
        requires
            old(gdt).wf(),
        ensures
            final(self).tcb == (ThreadControlBlock { tls: value as u32, ..old(self).tcb }),
            final(self).id == old(self).id,
            final(self).process_id == old(self).process_id,
            final(self).kernel_stack == old(self).kernel_stack,
            final(gdt).wf(),
            final(gdt).0@[TLS_IDX as int].spec_base() == value as u32,
            forall|i: int| 0 <= i < final(gdt).0@.len() && i != TLS_IDX ==> final(gdt).0@[i] == old(gdt).0@[i],
    {
        self.tcb.tls = value as u32;
        self.load_tls(gdt);
    }

    /// Puts the thread's TLS pointer into the TLS descriptor of `gdt`.
    pub fn load_tls(&self, gdt: &mut GlobalDescriptorTable)
        requires
            old(gdt).wf(),
        ensures
            final(gdt).wf(),
            final(gdt).0@[TLS_IDX as int].spec_base() == self.tcb.tls,
            forall|i: int| 0 <= i < final(gdt).0@.len() && i != TLS_IDX ==> final(gdt).0@[i] == old(gdt).0@[i],
    {
        let mut entry = gdt.0[TLS_IDX];
        entry.set_base(self.tcb.tls);
        gdt.0.set(TLS_IDX, entry);
    }
}

} // verus!
