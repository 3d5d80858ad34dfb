use vstd::prelude::*;

verus! {

/// The ports of the two programmable interrupt controllers.
pub const MASTER_COMMAND: u16 = 0x20;
pub const MASTER_DATA: u16 = 0x21;
pub const SLAVE_COMMAND: u16 = 0xA0;
pub const SLAVE_DATA: u16 = 0xA1;

/// Initialization command word 1: an ICW4 follows, and the bit that marks
/// ICW1.
pub const ICW1_ICW4_NEEDED: u8 = 1;
pub const ICW1_ICW1: u8 = 1 << 4;

/// Initialization command word 4: 8086/8088 mode.
pub const ICW4_MODE_8086: u8 = 1;

/// The end-of-interrupt command.
pub const EOI: u8 = 1 << 5;

/// A byte written to an I/O port.
#[derive(Clone, Copy, Debug, PartialEq, Eq, Structural)]
pub struct PortWrite {
    pub port: u16,
    pub value: u8,
}

/// The pair of cascaded interrupt controllers: where their vectors start,
/// which line of the master the slave sits on, and the slave's ID.
#[derive(Clone, Copy, Debug, PartialEq, Eq, Structural)]
pub struct Pic {
    pub master_vector_offset: u8,
    pub slave_vector_offset: u8,
    pub master_has_slave_at_ir: u8,
    pub slave_id: u8,
}

impl Pic {
    /// The controllers as the kernel sets them up: vectors from 32 and 40,
    /// the slave on line 2 of the master.
    pub fn kernel_pic() -> (r: Pic)
        ensures
            r == (Pic { master_vector_offset: 32, slave_vector_offset: 40, master_has_slave_at_ir: 0b100, slave_id: 2 }),
    {
        Pic { master_vector_offset: 32, slave_vector_offset: 40, master_has_slave_at_ir: 0b100, slave_id: 2 }
    }

    /// The initialization command words, in the order they are written.
    pub open spec fn spec_init_sequence(&self) -> Seq<PortWrite> {
        seq![
            PortWrite { port: MASTER_COMMAND, value: ICW1_ICW1 | ICW1_ICW4_NEEDED },
            PortWrite { port: SLAVE_COMMAND, value: ICW1_ICW1 | ICW1_ICW4_NEEDED },
            PortWrite { port: MASTER_DATA, value: self.master_vector_offset },
            PortWrite { port: SLAVE_DATA, value: self.slave_vector_offset },
            PortWrite { port: MASTER_DATA, value: self.master_has_slave_at_ir },
            PortWrite { port: SLAVE_DATA, value: self.slave_id },
            PortWrite { port: MASTER_DATA, value: ICW4_MODE_8086 },
            PortWrite { port: SLAVE_DATA, value: ICW4_MODE_8086 },
        ]
    }

    /// The writes that initialize both controllers: ICW1 to both command
    /// ports, the vector offsets (ICW2), the cascade set-up (ICW3) and the
    /// 8086 mode (ICW4) to the data ports.
    pub fn init_sequence(&self) -> (r: Vec<PortWrite>)
        ensures
            r@ == self.spec_init_sequence(),
    {
        let icw1 = ICW1_ICW1 | ICW1_ICW4_NEEDED;
        let mut v: Vec<PortWrite> = Vec::new();
        v.push(PortWrite { port: MASTER_COMMAND, value: icw1 });
        v.push(PortWrite { port: SLAVE_COMMAND, value: icw1 });
        v.push(PortWrite { port: MASTER_DATA, value: self.master_vector_offset });
        v.push(PortWrite { port: SLAVE_DATA, value: self.slave_vector_offset });
        v.push(PortWrite { port: MASTER_DATA, value: self.master_has_slave_at_ir });
        v.push(PortWrite { port: SLAVE_DATA, value: self.slave_id });
        v.push(PortWrite { port: MASTER_DATA, value: ICW4_MODE_8086 });
        v.push(PortWrite { port: SLAVE_DATA, value: ICW4_MODE_8086 });
        v
    }

    /// The data port that holds the mask of IRQ `irq_num`: the master's for
    /// IRQs 0 to 7, the slave's above.
    pub fn mask_port(irq_num: u8) -> (r: u16)
        ensures
            r == if irq_num < 8 { MASTER_DATA } else { SLAVE_DATA },
    {
        if irq_num < 8 {
            MASTER_DATA
        } else {
            SLAVE_DATA
        }
    }

    /// Masks or unmasks IRQ `irq_num` (below 16), given the mask register's
    /// current value: the write that sets or clears the IRQ's bit.
    pub fn set_irq_mask(&self, irq_num: u8, mask: bool, current: u8) -> (r: PortWrite)
        requires
            irq_num < 16,
        ensures
            r.port == Pic::spec_mask_port(irq_num),
            ({
                let bit = if irq_num < 8 { irq_num } else { (irq_num - 8) as u8 };
                r.value == if mask { current | (1u8 << bit) } else { current & !(1u8 << bit) }
            }),
    {
        let mut irq = irq_num;
        let port = Pic::mask_port(irq_num);
        if irq >= 8 {
            irq = irq - 8;
        }
        let value = if mask {
            current | (1u8 << irq)
        } else {
            current & !(1u8 << irq)
        };
        PortWrite { port, value }
    }

    pub open spec fn spec_mask_port(irq_num: u8) -> u16 {
        if irq_num < 8 {
            MASTER_DATA
        } else {
            SLAVE_DATA
        }
    }

    /// The writes that acknowledge IRQ `irq_num`: an end of interrupt to the
    /// slave for IRQs 8 and up, then one to the master.
    pub fn send_eoi(&self, irq_num: u8) -> (r: Vec<PortWrite>)
        ensures
            irq_num >= 8 ==> r@ == seq![PortWrite { port: SLAVE_COMMAND, value: EOI }, PortWrite { port: MASTER_COMMAND, value: EOI }],
            irq_num < 8 ==> r@ == seq![PortWrite { port: MASTER_COMMAND, value: EOI }],
    {
        let mut v: Vec<PortWrite> = Vec::new();
        if irq_num >= 8 {
            v.push(PortWrite { port: SLAVE_COMMAND, value: EOI });
        }
        v.push(PortWrite { port: MASTER_COMMAND, value: EOI });
        v
    }
}

/// Setting or clearing an IRQ's mask bit leaves the other seven bits of the
/// mask register as they were, and the IRQ's bit is then what was asked.
pub proof fn lemma_mask_bit_only(current: u8, bit: u8, mask: bool, other: u8)
    requires
        bit < 8,
        other < 8,
    ensures
        ({
            let v = if mask { current | (1u8 << bit) } else { current & !(1u8 << bit) };
            &&& other != bit ==> (v >> other) & 1 == (current >> other) & 1
            &&& (v >> bit) & 1 == if mask { 1u8 } else { 0u8 }
        }),
{
    let v1 = current | (1u8 << bit);
    let v0 = current & !(1u8 << bit);
    assert(other != bit ==> (v1 >> other) & 1 == (current >> other) & 1) by (bit_vector)
        requires
            bit < 8,
            other < 8,
            v1 == current | (1u8 << bit),
    ;
    assert(other != bit ==> (v0 >> other) & 1 == (current >> other) & 1) by (bit_vector)
        requires
            bit < 8,
            other < 8,
            v0 == current & !(1u8 << bit),
    ;
    assert((v1 >> bit) & 1 == 1u8 && (v0 >> bit) & 1 == 0u8) by (bit_vector)
        requires
            bit < 8,
            v1 == current | (1u8 << bit),
            v0 == current & !(1u8 << bit),
    ;
}

/// Operation control word 3 that asks for the in-service register: the bit
/// that marks OCW3 and the read-ISR command.
pub const OCW3_READ_ISR: u8 = 0x0B;

/// The bits `0..=b` of a byte, set.
pub open spec fn low_bits(b: u8) -> u8 {
    (((1u16 << ((b + 1) as u16)) - 1) as u16) as u8
}

proof fn lemma_low_bits_step(cur: u8, b: u8)
    requires
        b < 7,
    ensures
        (cur | low_bits(b)) | (1u8 << ((b + 1) as u8)) == cur | low_bits((b + 1) as u8),
        cur | (1u8 << 0u8) == cur | low_bits(0),
        low_bits(7) == 0xFF,
        cur | 0xFFu8 == 0xFFu8,
{
    assert((cur | ((((1u16 << ((b + 1) as u16)) - 1) as u16) as u8)) | (1u8 << ((b + 1) as u8)) == cur
        | ((((1u16 << ((b + 2) as u16)) - 1) as u16) as u8) && cur | (1u8 << 0u8) == cur | ((((1u16
        << 1u16) - 1) as u16) as u8) && ((((1u16 << 8u16) - 1) as u16) as u8) == 0xFFu8 && cur | 0xFFu8
        == 0xFFu8) by (bit_vector)
        requires
            b < 7,
    ;
}

impl Pic {
    /// The commands that make the next reads of both command ports return
    /// the in-service registers.
    pub fn isr_request(&self) -> (r: Vec<PortWrite>)
        ensures
            r@ == seq![
                PortWrite { port: MASTER_COMMAND, value: OCW3_READ_ISR },
                PortWrite { port: SLAVE_COMMAND, value: OCW3_READ_ISR },
            ],
    {
        let mut v: Vec<PortWrite> = Vec::new();
        v.push(PortWrite { port: MASTER_COMMAND, value: OCW3_READ_ISR });
        v.push(PortWrite { port: SLAVE_COMMAND, value: OCW3_READ_ISR });
        v
    }

    /// The in-service register of the cascaded pair, from what the master
    /// and slave command ports read after [`Pic::isr_request`]: IRQ `n` is
    /// bit `n`.
    pub fn get_isr(&self, master_isr: u8, slave_isr: u8) -> (r: u16)
        ensures
            r == ((slave_isr as u16) << 8u16) | (master_isr as u16),
    {
        ((slave_isr as u16) << 8u16) | (master_isr as u16)
    }

    /// Masks all sixteen IRQs one after another, each write keeping the
    /// bits already in the data port (`master_current` and `slave_current`
    /// at first).
    pub fn mask_irqs(&self, master_current: u8, slave_current: u8) -> (r: Vec<PortWrite>)
        ensures
            r@.len() == 16,
            forall|i: int|
                0 <= i < 8 ==> #[trigger] r@[i] == (PortWrite { port: MASTER_DATA, value: master_current | low_bits(i as u8) }),
            forall|i: int|
                8 <= i < 16 ==> #[trigger] r@[i] == (PortWrite {
                    port: SLAVE_DATA,
                    value: slave_current | low_bits((i - 8) as u8),
                }),
            r@[7].value == 0xFF,
            r@[15].value == 0xFF,
    {
        let mut v: Vec<PortWrite> = Vec::new();
        let mut master = master_current;
        let mut slave = slave_current;
        let mut i: u8 = 0;
        while i < 16
            invariant
                i <= 16,
                v@.len() == i,
                i < 8 && i > 0 ==> master == master_current | low_bits((i - 1) as u8),
                i == 0 ==> master == master_current,
                i >= 8 ==> master == master_current | low_bits(7),
                i <= 8 ==> slave == slave_current,
                i > 8 ==> slave == slave_current | low_bits((i - 9) as u8),
                forall|k: int|
                    0 <= k < i && k < 8 ==> #[trigger] v@[k] == (PortWrite { port: MASTER_DATA, value: master_current | low_bits(k as u8) }),
                forall|k: int|
                    8 <= k < i ==> #[trigger] v@[k] == (PortWrite {
                        port: SLAVE_DATA,
                        value: slave_current | low_bits((k - 8) as u8),
                    }),
            decreases 16 - i,
        {
            let current = if i < 8 { master } else { slave };
            let w = self.set_irq_mask(i, true, current);
            proof {
                let b: u8 = if i < 8 { i } else { (i - 8) as u8 };
                let c0: u8 = if i < 8 { master_current } else { slave_current };
                if b == 0 {
                    lemma_low_bits_step(c0, 0);
                } else {
                    lemma_low_bits_step(c0, (b - 1) as u8);
                }
            }
            if i < 8 {
                master = w.value;
            } else {
                slave = w.value;
            }
            v.push(w);
            i = i + 1;
        }
        proof {
            lemma_low_bits_step(master_current, 0);
            lemma_low_bits_step(slave_current, 0);
            assert(v@[7] == (PortWrite { port: MASTER_DATA, value: master_current | low_bits(7) }));
            assert(v@[15] == (PortWrite { port: SLAVE_DATA, value: slave_current | low_bits(7) }));
        }
        v
    }

    /// The whole start-up of both controllers: the initialization command
    /// words, then the sixteen writes that mask every IRQ, each keeping the
    /// bits already in its data port (`master_current` and `slave_current`
    /// when masking starts).  Both data ports end up holding 0xFF.
    pub fn init(&self, master_current: u8, slave_current: u8) -> (r: Vec<PortWrite>)
        ensures
            r@.len() == 24,
            r@.subrange(0, 8) == self.spec_init_sequence(),
            forall|i: int|
                0 <= i < 8 ==> #[trigger] r@[8 + i] == (PortWrite { port: MASTER_DATA, value: master_current | low_bits(i as u8) }),
            forall|i: int|
                8 <= i < 16 ==> #[trigger] r@[8 + i] == (PortWrite {
                    port: SLAVE_DATA,
                    value: slave_current | low_bits((i - 8) as u8),
                }),
            r@[15] == (PortWrite { port: MASTER_DATA, value: 0xFF }),
            r@[23] == (PortWrite { port: SLAVE_DATA, value: 0xFF }),
    {
        let mut v = self.init_sequence();
        let masks = self.mask_irqs(master_current, slave_current);
        let ghost v0 = v@;
        let mut i: usize = 0;
        while i < masks.len()
            invariant
                masks@.len() == 16,
                v0.len() == 8,
                i <= 16,
                v@ == v0 + masks@.take(i as int),
            decreases 16 - i,
        {
            v.push(masks[i]);
            assert(masks@.take(i + 1) =~= masks@.take(i as int).push(masks@[i as int]));
            i = i + 1;
        }
        assert(masks@.take(16) =~= masks@);
        assert(v@.subrange(0, 8) =~= v0);
        assert forall|i: int| 0 <= i < 16 implies #[trigger] v@[8 + i] == masks@[i] by {}
        v
    }
}

} // verus!
