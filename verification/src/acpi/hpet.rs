use vstd::prelude::*;

use super::AcpiAddr;
use crate::bits::{read_u16_le, read_u32_le, read_u64_le, u16_at, u32_at, u64_at, bit64, lemma_u32_fields, lemma_u64_fields, lemma_with_bit64, with_bit64};
use crate::memory_region::Region;

verus! {

/// The HPET description table found among the ACPI system description tables.
#[derive(Clone, Copy, Debug)]
pub struct HpetDt {
    pub event_timer_block_id: u32,
    pub base_addr: AcpiAddr,
    pub hpet_num: u8,
    pub main_counter_min_tick: u16,
    pub page_protection_oem_attr: u8,
}

/// Number of comparators encoded in an event timer block ID.
pub open spec fn comparators_of(block_id: u32) -> usize {
    ((block_id >> 8u32) & 0b11111u32) as usize
}

/// Size in bytes of [`HpetDt`] as laid out after the description table
/// header.
pub const HPET_DT_SIZE: usize = 20;

impl HpetDt {
    /// Reads the table body that follows the HPET description table header.
    pub fn from_bytes(b: &[u8]) -> (r: HpetDt)
        requires
            b@.len() >= HPET_DT_SIZE,
        ensures
            r.event_timer_block_id == u32_at(b@, 0),
            r.base_addr.addr_space_id == b@[4],
            r.base_addr.register_bit_width == b@[5],
            r.base_addr.register_bit_offset == b@[6],
            r.base_addr.reserved == b@[7],
            r.base_addr.address == u64_at(b@, 8),
            r.hpet_num == b@[16],
            r.main_counter_min_tick == u16_at(b@, 17),
            r.page_protection_oem_attr == b@[19],
    {
        HpetDt {
            event_timer_block_id: read_u32_le(b, 0),
            base_addr: AcpiAddr {
                addr_space_id: b[4],
                register_bit_width: b[5],
                register_bit_offset: b[6],
                reserved: b[7],
                address: read_u64_le(b, 8),
            },
            hpet_num: b[16],
            main_counter_min_tick: read_u16_le(b, 17),
            page_protection_oem_attr: b[19],
        }
    }

    /// The conditions under which the HPET registers can be mapped: a memory
    /// address space, 64-bit (or unspecified) register width, no bit offset
    /// and an address below 4 GiB.
    pub open spec fn mappable(self) -> bool {
        &&& self.base_addr.addr_space_id == 0
        &&& (self.base_addr.register_bit_width == 0 || self.base_addr.register_bit_width == 64)
        &&& self.base_addr.register_bit_offset == 0
        &&& self.base_addr.address >> 32u64 == 0
    }

    /// The page-rounded physical region that holds the HPET registers.  The
    /// register block of up to 32 comparators always fits in one page.
    pub fn region_to_map(&self) -> (r: Region)
        requires
            self.mappable(),
            self.base_addr.address + 4096 <= usize::MAX,
        ensures
            r.start == self.base_addr.address,
            r.end == self.base_addr.address + 4096,
    {
        let address = self.base_addr.address;
        let n = self.num_comparators();
        let len: usize = 0x117 + 0x20 * n;
        let bumped: usize = len + 4095;
        let rounded: usize = bumped & !4095usize;
        assert(address < 0x1_0000_0000u64 && rounded == 4096) by (bit_vector)
            requires
                address >> 32u64 == 0,
                0x117usize + 4095usize <= bumped <= 0x117usize + 0x20usize * 31usize + 4095usize,
                rounded == bumped & !4095usize,
        ;
        let start = address as usize;
        Region::from_start_len(start, rounded)
    }

    pub fn hardware_rev_id(&self) -> (r: u8)
        ensures
            r == self.event_timer_block_id as u8,
    {
        self.event_timer_block_id as u8
    }

    pub fn num_comparators(&self) -> (r: usize)
        ensures
            r == comparators_of(self.event_timer_block_id),
            r < 32,
    {
        let id = self.event_timer_block_id;
        let v = (id >> 8u32) & 0b11111u32;
        proof {
            lemma_u32_fields(id, 8);
        }
        v as usize
    }

    pub fn pci_vendor_id(&self) -> (r: u16)
        ensures
            r == (self.event_timer_block_id >> 16u32) as u16,
    {
        (self.event_timer_block_id >> 16u32) as u16
    }
}

/// The HPET device: where its registers are mapped and the period that it
/// was programmed with.
pub struct Hpet {
    pub base_addr: u32,
    pub period_ms: u32,
}

impl Hpet {
    /// Address of the general capabilities and ID register.
    pub fn gen_caps_and_id_reg_addr(&self) -> (r: u32)
        ensures
            r == self.base_addr,
    {
        self.base_addr
    }

    /// Address of the general configuration register.
    pub fn gen_conf_reg_addr(&self) -> (r: u32)
        requires
            self.base_addr + 0x10 <= u32::MAX,
        ensures
            r == self.base_addr + 0x10,
    {
        self.base_addr + 0x10
    }

    /// Address of the general interrupt status register.
    pub fn gen_int_status_reg_addr(&self) -> (r: u32)
        requires
            self.base_addr + 0x20 <= u32::MAX,
        ensures
            r == self.base_addr + 0x20,
    {
        self.base_addr + 0x20
    }

    /// Address of the main counter value register.
    pub fn main_counter_value_addr(&self) -> (r: u32)
        requires
            self.base_addr + 0xF0 <= u32::MAX,
        ensures
            r == self.base_addr + 0xF0,
    {
        self.base_addr + 0xF0
    }

    /// Address of the configuration and capability register of timer
    /// `timer_n`, which must be one of the timers that `caps` reports.
    pub fn timer_conf_and_cap_reg_addr(&self, caps: &GenCapsAndIdReg, timer_n: usize) -> (r: u32)
        requires
            timer_n <= caps.spec_num_timers(),
            self.base_addr + 0x100 + 0x20 * timer_n <= u32::MAX,
        ensures
            r == self.base_addr + 0x100 + 0x20 * timer_n,
    {
        self.base_addr + 0x100 + 0x20 * (timer_n as u32)
    }

    /// Address of the comparator value register of timer `timer_n`, which
    /// must be one of the timers that `caps` reports.
    pub fn timer_comparator_value_addr(&self, caps: &GenCapsAndIdReg, timer_n: usize) -> (r: u32)
        requires
            timer_n <= caps.spec_num_timers(),
            self.base_addr + 0x108 + 0x20 * timer_n <= u32::MAX,
        ensures
            r == self.base_addr + 0x108 + 0x20 * timer_n,
    {
        self.base_addr + 0x108 + 0x20 * (timer_n as u32)
    }
}

/// The number of main counter ticks in `period_ms` milliseconds, when one
/// tick lasts `tick_fs` femtoseconds.
pub open spec fn spec_period_ticks(period_ms: u32, tick_fs: u32) -> int {
    (period_ms * 1_000_000_000_000int) / (tick_fs as int)
}

/// The comparator period of a periodic timer, in main counter ticks.  `None`
/// when the period comes out as zero ticks or as fewer than `min_tick`.
pub fn period_ticks(period_ms: u32, tick_fs: u32, min_tick: u16) -> (r: Option<u64>)
    requires
        tick_fs > 0,
        period_ms * 1_000_000_000_000int <= u64::MAX,
    ensures
        match r {
            Some(t) => t == spec_period_ticks(period_ms, tick_fs) && t != 0 && t >= min_tick,
            None => spec_period_ticks(period_ms, tick_fs) == 0
                || spec_period_ticks(period_ms, tick_fs) < min_tick,
        },
{
    let period_fs = period_ms as u64 * 1_000_000_000_000u64;
    let ticks = period_fs / (tick_fs as u64);
    if ticks == 0 || ticks < min_tick as u64 {
        None
    } else {
        Some(ticks)
    }
}

/// General capabilities and ID register.
pub struct GenCapsAndIdReg(pub u64);

impl GenCapsAndIdReg {
    pub open spec fn spec_num_timers(&self) -> usize {
        ((self.0 >> 8u64) & 0b11111u64) as usize
    }

    pub fn rev_id(&self) -> (r: u8)
        ensures
            r == self.0 as u8,
    {
        self.0 as u8
    }

    pub fn num_timers(&self) -> (r: usize)
        ensures
            r == self.spec_num_timers(),
            r < 32,
    {
        let x = self.0;
        let v = (x >> 8u64) & 0b11111u64;
        proof {
            lemma_u64_fields(x, 8u64);
        }
        v as usize
    }

    pub fn main_counter_64bit(&self) -> (r: bool)
        ensures
            r == bit64(self.0, 13),
    {
        ((self.0 >> 13u64) & 1) != 0
    }

    pub fn capable_of_legacy_routing(&self) -> (r: bool)
        ensures
            r == bit64(self.0, 15),
    {
        ((self.0 >> 15u64) & 1) != 0
    }

    pub fn vendor_id(&self) -> (r: u16)
        ensures
            r == (self.0 >> 16u64) as u16,
    {
        (self.0 >> 16u64) as u16
    }

    pub fn main_counter_tick_period(&self) -> (r: u32)
        ensures
            r == (self.0 >> 32u64) as u32,
    {
        (self.0 >> 32u64) as u32
    }
}

/// General configuration register.
pub struct GenConfReg(pub u64);

impl GenConfReg {
    pub fn is_enabled(&self) -> (r: bool)
        ensures
            r == bit64(self.0, 0),
    {
        ((self.0 >> 0u64) & 1) != 0
    }

    pub fn uses_legacy_routing(&self) -> (r: bool)
        ensures
            r == bit64(self.0, 1),
    {
        ((self.0 >> 1u64) & 1) != 0
    }

    pub fn set_enabled(&mut self, new_value: bool)
        ensures
            final(self).0 == with_bit64(old(self).0, 0, new_value),
    {
        if new_value {
            self.0 = self.0 | (1u64 << 0u64);
        } else {
            self.0 = self.0 & !(1u64 << 0u64);
        }
    }

    pub fn set_legacy_routing(&mut self, new_value: bool)
        ensures
            final(self).0 == with_bit64(old(self).0, 1, new_value),
    {
        if new_value {
            self.0 = self.0 | (1u64 << 1u64);
        } else {
            self.0 = self.0 & !(1u64 << 1u64);
        }
    }
}

/// General interrupt status register.
pub struct GenIntStatusReg(pub u64);

impl GenIntStatusReg {
    pub fn timer_int(&self, n: usize) -> (r: bool)
        requires
            n < 64,
        ensures
            r == bit64(self.0, n as u64),
    {
        (self.0 >> (n as u64)) & 1 != 0
    }
}

/// How a timer signals its interrupts.
#[derive(Clone, Copy, Debug, PartialEq, Eq, Structural)]
pub enum TimerIntType {
    EdgeTriggered,
    LevelTriggered,
}

/// Whether a timer fires once or periodically.
#[derive(Clone, Copy, Debug, PartialEq, Eq, Structural)]
pub enum TimerType {
    NonPeriodic,
    Periodic,
}

/// Configuration and capability register of one timer.
pub struct TimerConfAndCapReg(pub u64);

impl TimerConfAndCapReg {
    pub open spec fn spec_type(&self) -> TimerType {
        if bit64(self.0, 3) {
            TimerType::Periodic
        } else {
            TimerType::NonPeriodic
        }
    }

    pub open spec fn spec_supports_ioapic_routing(&self, irq: u8) -> bool {
        ((#[verifier::truncate] ((self.0 >> 32u64) as u32) & (1u32 << irq)) & 1u32) != 0
    }

    pub fn int_type(&self) -> (r: TimerIntType)
        ensures
            r == (if bit64(self.0, 1) {
                TimerIntType::LevelTriggered
            } else {
                TimerIntType::EdgeTriggered
            }),
    {
        let x = self.0;
        let b = (x >> 1u64) & 1;
        proof {
            lemma_u64_fields(x, 1u64);
        }
        if b == 0 {
            TimerIntType::EdgeTriggered
        } else {
            TimerIntType::LevelTriggered
        }
    }

    pub fn set_int_type(&mut self, new_type: TimerIntType)
        ensures
            final(self).0 == with_bit64(old(self).0, 1, new_type == TimerIntType::LevelTriggered),
    {
        match new_type {
            TimerIntType::EdgeTriggered => {
                self.0 = self.0 & !(1u64 << 1u64);
            },
            TimerIntType::LevelTriggered => {
                self.0 = self.0 | (1u64 << 1u64);
            },
        }
    }

    pub fn has_int_enabled(&self) -> (r: bool)
        ensures
            r == bit64(self.0, 2),
    {
        ((self.0 >> 2u64) & 1) != 0
    }

    pub fn set_int_enabled(&mut self, new_value: bool)
        ensures
            final(self).0 == with_bit64(old(self).0, 2, new_value),
    {
        if new_value {
            self.0 = self.0 | (1u64 << 2u64);
        } else {
            self.0 = self.0 & !(1u64 << 2u64);
        }
    }

    pub fn _type(&self) -> (r: TimerType)
        ensures
            r == self.spec_type(),
    {
        let x = self.0;
        let b = (x >> 3u64) & 1;
        proof {
            lemma_u64_fields(x, 3u64);
        }
        if b == 0 {
            TimerType::NonPeriodic
        } else {
            TimerType::Periodic
        }
    }

    /// Switching to periodic mode is allowed only for a timer capable of it.
    pub fn set_type(&mut self, new_type: TimerType)
        requires
            new_type == TimerType::Periodic ==> bit64(old(self).0, 4),
        ensures
            final(self).0 == with_bit64(old(self).0, 3, new_type == TimerType::Periodic),
    {
        match new_type {
            TimerType::NonPeriodic => {
                self.0 = self.0 & !(1u64 << 3u64);
            },
            TimerType::Periodic => {
                self.0 = self.0 | (1u64 << 3u64);
            },
        }
    }

    pub fn may_be_periodic(&self) -> (r: bool)
        ensures
            r == bit64(self.0, 4),
    {
        ((self.0 >> 4u64) & 1) != 0
    }

    pub fn is_64bit(&self) -> (r: bool)
        ensures
            r == bit64(self.0, 5),
    {
        ((self.0 >> 5u64) & 1) != 0
    }

    pub fn allows_setting_acc_value(&self) -> (r: bool)
        ensures
            r == bit64(self.0, 6),
    {
        ((self.0 >> 6u64) & 1) != 0
    }

    /// Allowing the accumulator to be set is meaningful only in periodic mode.
    pub fn allow_setting_acc_value(&mut self, allow: bool)
        requires
            allow ==> old(self).spec_type() == TimerType::Periodic,
        ensures
            final(self).0 == with_bit64(old(self).0, 6, allow),
    {
        if allow {
            self.0 = self.0 | (1u64 << 6u64);
        } else {
            self.0 = self.0 & !(1u64 << 6u64);
        }
    }

    pub fn is_in_32bit_mode(&self) -> (r: bool)
        ensures
            r == bit64(self.0, 8),
    {
        ((self.0 >> 8u64) & 1) != 0
    }

    /// Only a 64-bit timer can be switched between the 32- and 64-bit modes.
    pub fn set_32bit_mode(&mut self, new_value: bool)
        requires
            bit64(old(self).0, 5),
        ensures
            final(self).0 == with_bit64(old(self).0, 8, new_value),
    {
        if new_value {
            self.0 = self.0 | (1u64 << 8u64);
        } else {
            self.0 = self.0 & !(1u64 << 8u64);
        }
    }

    pub fn ioapic_routing(&self) -> (r: u8)
        ensures
            r == ((self.0 >> 9u64) & 0b11111u64) as u8,
            r < 32,
    {
        let x = self.0;
        let v = (x >> 9u64) & 0b11111u64;
        proof {
            lemma_u64_fields(x, 9u64);
        }
        v as u8
    }

    /// Clears the routing field and then ors in the new route shifted to the
    /// field's place and masked with the field's width taken at bit 0; that
    /// mask keeps none of the shifted bits, so the field ends up zero.
    pub fn set_ioapic_routing(&mut self, new_route: u8)
        requires
            new_route < 32,
            old(self).spec_supports_ioapic_routing(new_route),
        ensures
            final(self).0 == old(self).0 & !(0b11111u64 << 9u64),
    {
        let cleared = self.0 & !(0b11111u64 << 9u64);
        let route = new_route as u64;
        let added = (route << 9u64) & 0b11111u64;
        assert(added == 0 && cleared | added == cleared) by (bit_vector)
            requires
                route < 32,
                added == (route << 9u64) & 0b11111u64,
        ;
        self.0 = cleared | added;
    }

    pub fn uses_fsb_int_delivery(&self) -> (r: bool)
        ensures
            r == bit64(self.0, 14),
    {
        ((self.0 >> 14u64) & 1) != 0
    }

    /// FSB delivery can be turned on only where the timer is capable of it.
    pub fn use_fsb_int_delivery(&mut self, use_fsb: bool)
        requires
            use_fsb ==> bit64(old(self).0, 15),
        ensures
            final(self).0 == with_bit64(old(self).0, 14, use_fsb),
    {
        if use_fsb {
            self.0 = self.0 | (1u64 << 14u64);
        } else {
            self.0 = self.0 & !(1u64 << 14u64);
        }
    }

    pub fn capable_of_fsb_int_delivery(&self) -> (r: bool)
        ensures
            r == bit64(self.0, 15),
    {
        ((self.0 >> 15u64) & 1) != 0
    }

    /// Tests the capability bit of `irq` masked with 1, which can be set only
    /// for `irq` 0.
    pub fn supports_ioapic_routing(&self, irq: u8) -> (r: bool)
        requires
            irq < 32,
        ensures
            r == self.spec_supports_ioapic_routing(irq),
            r == (irq == 0 && bit64(self.0, 32)),
    {
        let bits = #[verifier::truncate] ((self.0 >> 32u64) as u32);
        let res = ((bits & (1u32 << irq)) & 1u32) != 0;
        let x = self.0;
        assert((((x >> 32u64) as u32 & (1u32 << irq)) & 1u32 != 0) == (irq == 0 && (x >> 32u64)
            & 1u64 != 0u64)) by (bit_vector)
            requires
                irq < 32,
        ;
        res
    }
}

/// Reading a configuration bit back after setting it gives the value that
/// was set, and the other bits of the register are left as they were.
pub proof fn lemma_gen_conf_set_get(before: u64, i: u64, j: u64, v: bool)
    requires
        i < 64,
        j < 64,
    ensures
        bit64(with_bit64(before, i, v), i) == v,
        j != i ==> bit64(with_bit64(before, i, v), j) == bit64(before, j),
{
    lemma_with_bit64(before, i, i, v);
    lemma_with_bit64(before, i, j, v);
}

/// Setting the timer type and reading it back gives the type that was set.
pub proof fn lemma_timer_type_roundtrip(before: u64, t: TimerType)
    ensures
        TimerConfAndCapReg(with_bit64(before, 3, t == TimerType::Periodic)).spec_type() == t,
{
    lemma_with_bit64(before, 3, 3, t == TimerType::Periodic);
}

} // verus!
