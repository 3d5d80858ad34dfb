use vstd::prelude::*;

use crate::pic::PortWrite;

verus! {

/// The PIT's ports: channel 0's data port and the mode/command register.
pub const CHANNEL0_DATA: u16 = 0x40;
pub const MODE_COMMAND_REGISTER: u16 = 0x43;

/// The IRQ of the PIT.
pub const IRQ: u8 = 0;

/// How the reload value is sent.
#[derive(Clone, Copy, Debug, PartialEq, Eq, Structural)]
pub enum AccessMode {
    LowByteOnly,
    HighByteOnly,
    BothBytes,
}

impl AccessMode {
    pub open spec fn spec_bits(self) -> u8 {
        match self {
            AccessMode::LowByteOnly => 0b01,
            AccessMode::HighByteOnly => 0b10,
            AccessMode::BothBytes => 0b11,
        }
    }

    pub fn bits(self) -> (r: u8)
        ensures
            r == self.spec_bits(),
    {
        match self {
            AccessMode::LowByteOnly => 0b01,
            AccessMode::HighByteOnly => 0b10,
            AccessMode::BothBytes => 0b11,
        }
    }
}

/// The operating modes of a channel.
#[derive(Clone, Copy, Debug, PartialEq, Eq, Structural)]
pub enum OperatingMode {
    InterruptOnTerminalCount,
    HardwareRetriggableOneShot,
    RateGenerator,
    SquareWaveGenerator,
    SoftwareTriggeredStrobe,
    HardwareTriggeredStrobe,
}

impl OperatingMode {
    pub open spec fn spec_bits(self) -> u8 {
        match self {
            OperatingMode::InterruptOnTerminalCount => 0b000,
            OperatingMode::HardwareRetriggableOneShot => 0b001,
            OperatingMode::RateGenerator => 0b010,
            OperatingMode::SquareWaveGenerator => 0b011,
            OperatingMode::SoftwareTriggeredStrobe => 0b100,
            OperatingMode::HardwareTriggeredStrobe => 0b101,
        }
    }

    pub fn bits(self) -> (r: u8)
        ensures
            r == self.spec_bits(),
    {
        match self {
            OperatingMode::InterruptOnTerminalCount => 0b000,
            OperatingMode::HardwareRetriggableOneShot => 0b001,
            OperatingMode::RateGenerator => 0b010,
            OperatingMode::SquareWaveGenerator => 0b011,
            OperatingMode::SoftwareTriggeredStrobe => 0b100,
            OperatingMode::HardwareTriggeredStrobe => 0b101,
        }
    }
}

/// Channel 0 of the programmable interval timer: its reload value and how
/// it runs.
#[derive(Clone, Copy, Debug, PartialEq, Eq, Structural)]
pub struct Pit {
    pub reload_value: u16,
    pub operating_mode: OperatingMode,
    pub access_mode: AccessMode,
}

impl Pit {
    /// The value for the mode/command register: binary counting, the
    /// operating mode in bits 1 to 3, the access mode in bits 4 and 5, and
    /// channel 0.
    pub open spec fn spec_register(&self) -> u8 {
        (self.operating_mode.spec_bits() * 2 + self.access_mode.spec_bits() * 16) as u8
    }

    /// The reload value can be sent in the access mode: a mode that sends
    /// one byte needs the other one to be zero.
    pub open spec fn reload_sendable(&self) -> bool {
        match self.access_mode {
            AccessMode::LowByteOnly => self.reload_value < 256,
            AccessMode::HighByteOnly => self.reload_value % 256 == 0,
            AccessMode::BothBytes => true,
        }
    }

    /// The bytes of the reload value to send, in order.
    pub open spec fn spec_reload_bytes(&self) -> Seq<u8> {
        match self.access_mode {
            AccessMode::LowByteOnly => seq![(self.reload_value % 256) as u8],
            AccessMode::HighByteOnly => seq![(self.reload_value / 256) as u8],
            AccessMode::BothBytes => seq![(self.reload_value % 256) as u8, (self.reload_value / 256) as u8],
        }
    }

    pub fn send_register(&self) -> (r: PortWrite)
        ensures
            r == (PortWrite { port: MODE_COMMAND_REGISTER, value: self.spec_register() }),
    {
        let value: u8 = self.operating_mode.bits() * 2 + self.access_mode.bits() * 16;
        PortWrite { port: MODE_COMMAND_REGISTER, value }
    }

    pub fn send_reload_value(&self) -> (r: Vec<PortWrite>)
        requires
            self.reload_sendable(),
        ensures
            r@.len() == self.spec_reload_bytes().len(),
            forall|i: int| 0 <= i < r@.len() ==> #[trigger] r@[i] == (PortWrite { port: CHANNEL0_DATA, value: self.spec_reload_bytes()[i] }),
    {
        let low = (self.reload_value % 256) as u8;
        let high = (self.reload_value / 256) as u8;
        let mut v: Vec<PortWrite> = Vec::new();
        match self.access_mode {
            AccessMode::LowByteOnly => {
                v.push(PortWrite { port: CHANNEL0_DATA, value: low });
            },
            AccessMode::HighByteOnly => {
                v.push(PortWrite { port: CHANNEL0_DATA, value: high });
            },
            AccessMode::BothBytes => {
                v.push(PortWrite { port: CHANNEL0_DATA, value: low });
                v.push(PortWrite { port: CHANNEL0_DATA, value: high });
            },
        }
        v
    }

    /// The writes that program the channel: the mode/command register, then
    /// the reload value.
    pub fn init(&self) -> (r: Vec<PortWrite>)
        requires
            self.reload_sendable(),
        ensures
            r@.len() == 1 + self.spec_reload_bytes().len(),
            r@[0] == (PortWrite { port: MODE_COMMAND_REGISTER, value: self.spec_register() }),
            forall|i: int| 1 <= i < r@.len() ==> #[trigger] r@[i] == (PortWrite { port: CHANNEL0_DATA, value: self.spec_reload_bytes()[i - 1] }),
    {
        let mut v: Vec<PortWrite> = Vec::new();
        v.push(self.send_register());
        let rest = self.send_reload_value();
        let mut i: usize = 0;
        while i < rest.len()
            invariant
                i <= rest@.len(),
                rest@.len() == self.spec_reload_bytes().len(),
                forall|k: int| 0 <= k < rest@.len() ==> #[trigger] rest@[k] == (PortWrite { port: CHANNEL0_DATA, value: self.spec_reload_bytes()[k] }),
                v@.len() == 1 + i,
                v@[0] == (PortWrite { port: MODE_COMMAND_REGISTER, value: self.spec_register() }),
                forall|k: int| 1 <= k < v@.len() ==> #[trigger] v@[k] == (PortWrite { port: CHANNEL0_DATA, value: self.spec_reload_bytes()[k - 1] }),
            decreases rest@.len() - i,
        {
            v.push(rest[i]);
            i = i + 1;
        }
        v
    }
}

} // verus!
