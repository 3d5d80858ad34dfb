use vstd::prelude::*;

verus! {

/// Descriptor privilege level of a gate.
#[derive(Clone, Copy, Debug, PartialEq, Eq, Structural)]
pub enum Dpl {
    Kernel,
    Userspace,
}

impl Dpl {
    pub open spec fn spec_value(self) -> u8 {
        match self {
            Dpl::Kernel => 0,
            Dpl::Userspace => 3,
        }
    }

    pub fn value(self) -> (r: u8)
        ensures
            r == self.spec_value(),
    {
        match self {
            Dpl::Kernel => 0,
            Dpl::Userspace => 3,
        }
    }
}

/// Kind of an interrupt descriptor table gate.
#[derive(Clone, Copy, Debug, PartialEq, Eq, Structural)]
pub enum GateType {
    TaskGate32Bit,
    InterruptGate32Bit,
    InterruptGate16Bit,
    TrapGate32Bit,
    TrapGate16Bit,
}

impl GateType {
    pub open spec fn spec_value(self) -> u8 {
        match self {
            GateType::TaskGate32Bit => 0b00101,
            GateType::InterruptGate32Bit => 0b01110,
            GateType::InterruptGate16Bit => 0b00110,
            GateType::TrapGate32Bit => 0b01111,
            GateType::TrapGate16Bit => 0b00111,
        }
    }

    pub fn value(self) -> (r: u8)
        ensures
            r == self.spec_value(),
    {
        match self {
            GateType::TaskGate32Bit => 0b00101,
            GateType::InterruptGate32Bit => 0b01110,
            GateType::InterruptGate16Bit => 0b00110,
            GateType::TrapGate32Bit => 0b01111,
            GateType::TrapGate16Bit => 0b00111,
        }
    }
}

/// The type and attributes byte of a gate: present bit, privilege level and
/// gate type.
#[derive(Clone, Copy, Debug)]
pub struct TypeAttr(pub u8);

/// The privilege level field of a type and attributes byte.
pub open spec fn dpl_bits(x: u8) -> u8 {
    (x >> 5u8) & 0b11u8
}

impl TypeAttr {
    pub fn new(present: bool, dpl: Dpl, gate_type: GateType) -> (r: TypeAttr)
        ensures
            r.0 == (if present { 0x80u8 } else { 0u8 }) | (dpl.spec_value() << 5u8)
                | gate_type.spec_value(),
    {
        let p: u8 = if present { 1 } else { 0 };
        let mut v: u8 = 0;
        v = v | (p << 7u8);
        v = v | (dpl.value() << 5u8);
        v = v | gate_type.value();
        assert((0u8 | (1u8 << 7u8)) == 0x80u8 && (0u8 | (0u8 << 7u8)) == 0u8) by (bit_vector);
        TypeAttr(v)
    }

    /// Replaces the privilege level, keeping the other bits.
    pub fn set_dpl(&mut self, new_dpl: Dpl)
        ensures
            final(self).0 == (old(self).0 & !(0b11u8 << 5u8)) | (new_dpl.spec_value() << 5u8),
            dpl_bits(final(self).0) == new_dpl.spec_value(),
            final(self).0 & !(0b11u8 << 5u8) == old(self).0 & !(0b11u8 << 5u8),
    {
        let x = self.0;
        let d = new_dpl.value();
        let y = (x & !(0b11u8 << 5u8)) | (d << 5u8);
        assert(((y >> 5u8) & 0b11u8) == d && (y & !(0b11u8 << 5u8)) == (x & !(0b11u8 << 5u8)))
            by (bit_vector)
            requires
                d <= 3,
                y == (x & !(0b11u8 << 5u8)) | (d << 5u8),
        ;
        self.0 = y;
    }
}

/// An interrupt descriptor table gate; the handler's address is split into
/// two halves.
#[derive(Clone, Copy, Debug)]
pub struct Gate {
    pub offset_1: u16,
    pub selector: u16,
    pub zero: u8,
    pub type_attr: TypeAttr,
    pub offset_2: u16,
}

impl Gate {
    pub open spec fn spec_handler(self) -> u32 {
        (self.offset_1 as u32) | ((self.offset_2 as u32) << 16u32)
    }

    pub fn new(handler: u32, selector: u16, type_attr: TypeAttr) -> (r: Gate)
        ensures
            r.spec_handler() == handler,
            r.selector == selector,
            r.zero == 0,
            r.type_attr == type_attr,
    {
        let o1 = (handler & 0xFFFF) as u16;
        let o2 = ((handler >> 16u32) & 0xFFFF) as u16;
        proof {
            lemma_split_handler(handler);
        }
        Gate { offset_1: o1, selector, zero: 0, type_attr, offset_2: o2 }
    }

    /// A present ring 0 interrupt gate in the kernel code segment.
    pub fn dummy(handler: u32) -> (r: Gate)
        ensures
            r.spec_handler() == handler,
            r.selector == 0x08,
            r.type_attr.0 == 0x8E,
    {
        let type_attr = TypeAttr::new(true, Dpl::Kernel, GateType::InterruptGate32Bit);
        proof {
            lemma_kernel_gate_attr();
        }
        Self::new(handler, 0x08, type_attr)
    }

    pub fn set_handler(&mut self, handler: u32)
        ensures
            final(self).spec_handler() == handler,
            final(self).selector == old(self).selector,
            final(self).zero == old(self).zero,
            final(self).type_attr == old(self).type_attr,
    {
        let o1 = (handler & 0xFFFF) as u16;
        let o2 = ((handler >> 16u32) & 0xFFFF) as u16;
        proof {
            lemma_split_handler(handler);
        }
        self.offset_1 = o1;
        self.offset_2 = o2;
    }

    pub fn set_dpl(&mut self, new_dpl: Dpl)
        ensures
            dpl_bits(final(self).type_attr.0) == new_dpl.spec_value(),
            final(self).type_attr.0 & !(0b11u8 << 5u8) == old(self).type_attr.0 & !(0b11u8 << 5u8),
            final(self).spec_handler() == old(self).spec_handler(),
            final(self).selector == old(self).selector,
    {
        self.type_attr.set_dpl(new_dpl);
    }
}

/// Splitting a handler address into two halves and joining them gives the
/// address back.
proof fn lemma_split_handler(h: u32)
    by (bit_vector)
    ensures
        (((h & 0xFFFF) as u16) as u32) | ((((h >> 16u32) & 0xFFFF) as u16 as u32) << 16u32) == h,
{
}

/// The attributes of a present ring 0 interrupt gate are 0x8E, whose
/// privilege level is 0.
proof fn lemma_kernel_gate_attr()
    ensures
        0x80u8 | (0u8 << 5u8) | 0b01110u8 == 0x8Eu8,
        dpl_bits(0x8Eu8) == 0,
{
    assert(0x80u8 | (0u8 << 5u8) | 0b01110u8 == 0x8Eu8 && (0x8Eu8 >> 5u8) & 0b11u8 == 0)
        by (bit_vector);
}

/// What the processor pushes on an interrupt.
#[derive(Clone, Copy, Debug)]
pub struct InterruptStackFrame {
    pub eip: u32,
    pub cs: u32,
    pub eflags: u32,
    /// Present only when the privilege level changes.
    pub esp: u32,
    /// Present only when the privilege level changes.
    pub ss: u32,
}

/// Number of gates in the table.
pub const NUM_GATES: usize = 256;

/// Number of gates reserved for exceptions.
pub const NUM_EXCEPTIONS: usize = 32;

/// Whether the processor pushes an error code for exception `n`: double
/// fault, invalid TSS, segment not present, stack fault, general protection,
/// page fault, alignment check and control protection.
pub open spec fn exception_has_error_code(n: int) -> bool {
    n == 8 || n == 10 || n == 11 || n == 12 || n == 13 || n == 14 || n == 17 || n == 21
}

/// The interrupt descriptor table: 32 exception gates followed by 224
/// interrupt gates.
pub struct InterruptDescriptorTable {
    pub gates: Vec<Gate>,
}

impl InterruptDescriptorTable {
    pub open spec fn wf(&self) -> bool {
        self.gates@.len() == NUM_GATES
    }

    /// A table that sends every vector to a catch-all handler: the one for
    /// exceptions with an error code where the processor pushes one, the
    /// other one everywhere else.
    pub fn new(common_isr: u32, common_isr_ec: u32) -> (r: InterruptDescriptorTable)
        ensures
            r.wf(),
            forall|i: int|
                0 <= i < NUM_GATES ==> {
                    &&& (#[trigger] r.gates@[i]).spec_handler() == (if i < NUM_EXCEPTIONS
                        && exception_has_error_code(i) {
                        common_isr_ec
                    } else {
                        common_isr
                    })
                    &&& r.gates@[i].selector == 0x08
                    &&& r.gates@[i].type_attr.0 == 0x8E
                },
    {
        let mut gates: Vec<Gate> = Vec::new();
        let mut i: usize = 0;
        while i < NUM_GATES
            invariant
                i <= NUM_GATES,
                gates@.len() == i,
                forall|k: int|
                    0 <= k < i ==> {
                        &&& (#[trigger] gates@[k]).spec_handler() == (if k < NUM_EXCEPTIONS
                            && exception_has_error_code(k) {
                            common_isr_ec
                        } else {
                            common_isr
                        })
                        &&& gates@[k].selector == 0x08
                        &&& gates@[k].type_attr.0 == 0x8E
                    },
            decreases NUM_GATES - i,
        {
            let ec = i == 8 || i == 10 || i == 11 || i == 12 || i == 13 || i == 14 || i == 17 || i
                == 21;
            let g = if ec {
                Gate::dummy(common_isr_ec)
            } else {
                Gate::dummy(common_isr)
            };
            gates.push(g);
            i = i + 1;
        }
        InterruptDescriptorTable { gates }
    }

    /// Sets the handler of interrupt `n` (vector `32 + n`).
    pub fn set_interrupt_handler(&mut self, n: usize, handler: u32)
        requires
            old(self).wf(),
            n < NUM_GATES - NUM_EXCEPTIONS,
        ensures
            final(self).wf(),
            final(self).gates@[NUM_EXCEPTIONS + n].spec_handler() == handler,
            final(self).gates@[NUM_EXCEPTIONS + n].type_attr == old(self).gates@[NUM_EXCEPTIONS
                + n].type_attr,
            final(self).gates@[NUM_EXCEPTIONS + n].selector == old(self).gates@[NUM_EXCEPTIONS
                + n].selector,
            forall|i: int|
                0 <= i < NUM_GATES && i != NUM_EXCEPTIONS + n ==> #[trigger] final(self).gates@[i]
                    == old(self).gates@[i],
    {
        let mut g = self.gates[NUM_EXCEPTIONS + n];
        g.set_handler(handler);
        self.gates.set(NUM_EXCEPTIONS + n, g);
    }
}

/// Vector of the system call interrupt.
pub const SYSCALL_VECTOR: usize = 0x88;

/// The kernel's interrupt descriptor table: one handler per exception, the
/// handlers of the possibly spurious IRQ 7 and IRQ 15, and the system call
/// gate, which user mode may invoke.
pub fn kernel_idt(
    common_isr: u32,
    common_isr_ec: u32,
    exception_isrs: &[u32],
    irq7: u32,
    irq15: u32,
    syscall: u32,
) -> (r: InterruptDescriptorTable)
    requires
        exception_isrs@.len() == NUM_EXCEPTIONS,
    ensures
        r.wf(),
        forall|i: int| 0 <= i < NUM_EXCEPTIONS ==> (#[trigger] r.gates@[i]).spec_handler()
            == exception_isrs@[i],
        r.gates@[NUM_EXCEPTIONS + 7].spec_handler() == irq7,
        r.gates@[NUM_EXCEPTIONS + 15].spec_handler() == irq15,
        r.gates@[SYSCALL_VECTOR as int].spec_handler() == syscall,
        dpl_bits(r.gates@[SYSCALL_VECTOR as int].type_attr.0) == 3,
        forall|i: int|
            0 <= i < NUM_GATES && i != SYSCALL_VECTOR ==> dpl_bits(
                (#[trigger] r.gates@[i]).type_attr.0,
            ) == 0,
        forall|i: int|
            NUM_EXCEPTIONS <= i < NUM_GATES && i != NUM_EXCEPTIONS + 7 && i != NUM_EXCEPTIONS + 15
                && i != SYSCALL_VECTOR ==> (#[trigger] r.gates@[i]).spec_handler() == common_isr,
{
    let mut idt = InterruptDescriptorTable::new(common_isr, common_isr_ec);
    proof {
        lemma_kernel_gate_attr();
    }
    let mut i: usize = 0;
    while i < NUM_EXCEPTIONS
        invariant
            i <= NUM_EXCEPTIONS,
            exception_isrs@.len() == NUM_EXCEPTIONS,
            idt.wf(),
            forall|k: int| 0 <= k < i ==> (#[trigger] idt.gates@[k]).spec_handler()
                == exception_isrs@[k],
            forall|k: int| 0 <= k < NUM_GATES ==> (#[trigger] idt.gates@[k]).type_attr.0 == 0x8E,
            forall|k: int| NUM_EXCEPTIONS <= k < NUM_GATES ==> (#[trigger] idt.gates@[k]).spec_handler()
                == common_isr,
        decreases NUM_EXCEPTIONS - i,
    {
        let mut g = idt.gates[i];
        g.set_handler(exception_isrs[i]);
        idt.gates.set(i, g);
        i = i + 1;
    }
    idt.set_interrupt_handler(7, irq7);
    idt.set_interrupt_handler(15, irq15);
    idt.set_interrupt_handler(SYSCALL_VECTOR - NUM_EXCEPTIONS, syscall);
    let mut g = idt.gates[SYSCALL_VECTOR];
    g.set_dpl(Dpl::Userspace);
    idt.gates.set(SYSCALL_VECTOR, g);
    idt
}

/// What the first stage of the IRQ 7 or IRQ 15 handler does.
#[derive(Clone, Copy, Debug, PartialEq, Eq, Structural)]
pub enum Stage1Action {
    /// The PIC does not have the IRQ in service: a spurious interrupt,
    /// ignored.
    IgnoreSpurious,
    /// A genuine interrupt: the second stage handler is called.
    CallStage2,
    /// A genuine interrupt without a second stage handler.
    Unhandled,
}

/// The decision of a stage 1 handler for IRQ `irq`, from the PIC's
/// in-service register.
pub open spec fn spec_stage1(irq: u16, isr: u16, has_stage2: bool) -> Stage1Action {
    if isr & (1u16 << irq) == 0 {
        Stage1Action::IgnoreSpurious
    } else if has_stage2 {
        Stage1Action::CallStage2
    } else {
        Stage1Action::Unhandled
    }
}

/// The first stage of IRQ 7, which the master PIC may raise spuriously.
pub fn stage1_irq7_handler(isr: u16, has_stage2: bool) -> (r: Stage1Action)
    ensures
        r == spec_stage1(7, isr, has_stage2),
{
    if isr & (1u16 << 7u16) == 0 {
        Stage1Action::IgnoreSpurious
    } else if has_stage2 {
        Stage1Action::CallStage2
    } else {
        Stage1Action::Unhandled
    }
}

/// The first stage of IRQ 15, which the slave PIC may raise spuriously.
pub fn stage1_irq15_handler(isr: u16, has_stage2: bool) -> (r: Stage1Action)
    ensures
        r == spec_stage1(15, isr, has_stage2),
{
    if isr & (1u16 << 15u16) == 0 {
        Stage1Action::IgnoreSpurious
    } else if has_stage2 {
        Stage1Action::CallStage2
    } else {
        Stage1Action::Unhandled
    }
}

} // verus!
