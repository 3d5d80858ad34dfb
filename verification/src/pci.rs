use vstd::prelude::*;

use crate::bits::with_bit32;

verus! {

/// Port through which a configuration address is selected.
pub const PORT_CONFIG_ADDRESS: u16 = 0xCF8;

/// Port through which the selected configuration register is accessed.
pub const PORT_CONFIG_DATA: u16 = 0xCFC;

/// Builds the value written to the configuration address port.
#[derive(Clone, Copy, Debug)]
pub struct ConfAddressBuilder(pub u32);

impl ConfAddressBuilder {
    pub fn new() -> (r: ConfAddressBuilder)
        ensures
            r.0 == 0,
    {
        ConfAddressBuilder(0)
    }

    pub fn enable_bit(self, value: bool) -> (r: ConfAddressBuilder)
        ensures
            r.0 == with_bit32(self.0, 31, value),
    {
        if value {
            ConfAddressBuilder(self.0 | (1u32 << 31u32))
        } else {
            ConfAddressBuilder(self.0 & !(1u32 << 31u32))
        }
    }

    pub fn bus_num(self, bus_num: u8) -> (r: ConfAddressBuilder)
        ensures
            r.0 == (self.0 & !(0xFFu32 << 16u32)) | ((bus_num as u32) << 16u32),
    {
        ConfAddressBuilder((self.0 & !(0xFFu32 << 16u32)) | ((bus_num as u32) << 16u32))
    }

    /// The device number must fit in five bits.
    pub fn device_num(self, device_num: u8) -> (r: ConfAddressBuilder)
        requires
            device_num & !0b11111u8 == 0,
        ensures
            r.0 == (self.0 & !(0b11111u32 << 11u32)) | ((device_num as u32) << 11u32),
    {
        ConfAddressBuilder((self.0 & !(0b11111u32 << 11u32)) | ((device_num as u32) << 11u32))
    }

    /// The function number must fit in three bits.
    pub fn function_num(self, function_num: u8) -> (r: ConfAddressBuilder)
        requires
            function_num & !0b111u8 == 0,
        ensures
            r.0 == (self.0 & !(0b111u32 << 8u32)) | ((function_num as u32) << 8u32),
    {
        ConfAddressBuilder((self.0 & !(0b111u32 << 8u32)) | ((function_num as u32) << 8u32))
    }

    /// The register offset must be a multiple of four.
    pub fn register_offset(self, offset: u8) -> (r: ConfAddressBuilder)
        requires
            offset & 0b11u8 == 0,
        ensures
            r.0 == (self.0 & !0xFFu32) | (offset as u32),
    {
        ConfAddressBuilder((self.0 & !0xFFu32) | (offset as u32))
    }

    pub fn done(&self) -> (r: u32)
        ensures
            r == self.0,
    {
        self.0
    }
}

/// The configuration address of a register: enable bit, bus, device,
/// function and register offset in their fields.
pub open spec fn spec_conf_address(bus: u8, device: u8, function: u8, offset: u8) -> u32 {
    0x8000_0000u32 | ((bus as u32) << 16u32) | ((device as u32) << 11u32) | ((function as u32)
        << 8u32) | (offset as u32)
}

/// The configuration address of register `offset` of a function.
pub fn conf_address(bus: u8, device: u8, function: u8, offset: u8) -> (r: u32)
    requires
        device < 32,
        function < 8,
        offset & 0b11u8 == 0,
    ensures
        r == spec_conf_address(bus, device, function, offset),
{
    assert(device & !0b11111u8 == 0 && function & !0b111u8 == 0) by (bit_vector)
        requires
            device < 32,
            function < 8,
    ;
    let a = ConfAddressBuilder::new();
    let b = a.enable_bit(true);
    let c = b.bus_num(bus);
    let d = c.device_num(device);
    let e = d.function_num(function);
    let f = e.register_offset(offset);
    let x1 = b.0;
    let x2 = c.0;
    let x3 = d.0;
    let x4 = e.0;
    let x5 = f.0;
    assert(x5 == 0x8000_0000u32 | ((bus as u32) << 16u32) | ((device as u32) << 11u32) | ((
    function as u32) << 8u32) | (offset as u32)) by (bit_vector)
        requires
            x1 == 0u32 | (1u32 << 31u32),
            x2 == (x1 & !(0xFFu32 << 16u32)) | ((bus as u32) << 16u32),
            x3 == (x2 & !(0b11111u32 << 11u32)) | ((device as u32) << 11u32),
            x4 == (x3 & !(0b111u32 << 8u32)) | ((function as u32) << 8u32),
            x5 == (x4 & !0xFFu32) | (offset as u32),
            device < 32,
            function < 8,
            offset & 0b11u8 == 0,
    ;
    f.done()
}

/// Width of a configuration register field.
#[derive(Clone, Copy, Debug, PartialEq, Eq, Structural)]
pub enum RegisterWidth {
    Byte,
    Word,
    Dword,
}

impl RegisterWidth {
    /// The mask of a field of this width.
    pub open spec fn spec_mask(self) -> u32 {
        match self {
            RegisterWidth::Byte => 0xFF,
            RegisterWidth::Word => 0xFFFF,
            RegisterWidth::Dword => 0xFFFF_FFFF,
        }
    }

    pub fn mask(self) -> (r: u32)
        ensures
            r == self.spec_mask(),
    {
        match self {
            RegisterWidth::Byte => 0xFF,
            RegisterWidth::Word => 0xFFFF,
            RegisterWidth::Dword => 0xFFFF_FFFF,
        }
    }
}

/// A field of the configuration space: the register it lives in, its bit
/// position and width, and whether it may be written or read at all.
#[derive(Clone, Copy, Debug, PartialEq, Eq, Structural)]
pub struct Register {
    pub offset: u8,
    pub shift_left: u8,
    pub width: RegisterWidth,
    pub read_only: bool,
    pub reserved: bool,
}

impl Register {
    pub fn read_only(offset: u8, shift_left: u8, width: RegisterWidth) -> (r: Register)
        ensures
            r == (Register { offset, shift_left, width, read_only: true, reserved: false }),
    {
        Register { offset, shift_left, width, read_only: true, reserved: false }
    }

    pub fn read_write(offset: u8, shift_left: u8, width: RegisterWidth) -> (r: Register)
        ensures
            r == (Register { offset, shift_left, width, read_only: false, reserved: false }),
    {
        Register { offset, shift_left, width, read_only: false, reserved: false }
    }

    pub fn reserved(offset: u8, shift_left: u8, width: RegisterWidth) -> (r: Register)
        ensures
            r == (Register { offset, shift_left, width, read_only: true, reserved: true }),
    {
        Register { offset, shift_left, width, read_only: true, reserved: true }
    }

    /// The field's value in the raw register value; reserved fields must not
    /// be read.
    pub fn read_value(&self, raw: u32) -> (r: u32)
        requires
            !self.reserved,
            self.shift_left < 32,
        ensures
            r == (raw >> (self.shift_left as u32)) & self.width.spec_mask(),
    {
        (raw >> (self.shift_left as u32)) & self.width.mask()
    }

    /// The raw register value after writing `value` into the field, or `None`
    /// when the register already holds it and nothing needs to be written.
    /// Reserved and read-only fields must not be written.
    pub fn write_value(&self, before: u32, value: u32) -> (r: Option<u32>)
        requires
            !self.reserved,
            !self.read_only,
            self.shift_left < 32,
            value <= self.width.spec_mask(),
        ensures
            ({
                let new_value = (before & !(self.width.spec_mask() << (self.shift_left as u32))) | (
                value << (self.shift_left as u32));
                &&& new_value == before ==> r is None
                &&& new_value != before ==> r == Some(new_value)
            }),
    {
        let shift = self.shift_left as u32;
        let mut new_value = before;
        new_value = new_value & !(self.width.mask() << shift);
        new_value = new_value | (value << shift);
        if new_value == before {
            None
        } else {
            Some(new_value)
        }
    }
}

/// A field read back after a write holds the written value, when the field
/// lies within the register.
pub proof fn lemma_write_then_read(before: u32, value: u32, shift: u32, mask: u32)
    requires
        shift < 32,
        mask == 0xFF || mask == 0xFFFF || mask == 0xFFFF_FFFF,
        value <= mask,
        shift == 0 || (mask == 0xFF && shift <= 24) || (mask == 0xFFFF && shift <= 16),
    ensures
        (((before & !(mask << shift)) | (value << shift)) >> shift) & mask == value,
{
    assert((((before & !(mask << shift)) | (value << shift)) >> shift) & mask == value)
        by (bit_vector)
        requires
            shift < 32,
            mask == 0xFF || mask == 0xFFFF || mask == 0xFFFF_FFFF,
            value <= mask,
            shift == 0 || (mask == 0xFF && shift <= 24) || (mask == 0xFFFF && shift <= 16),
    ;
}


#[derive(Clone, Copy, Debug, PartialEq, Eq, Structural)]
pub enum UnclassifiedSubclass {
    Unknown,
    NonVgaCompatible,
    VgaCompatible,
}

#[derive(Clone, Copy, Debug, PartialEq, Eq, Structural)]
pub enum IdeControllerInterface {
    Unknown,
    IsaCompatibilityModeOnlyWithBusMastering,
}

#[derive(Clone, Copy, Debug, PartialEq, Eq, Structural)]
pub enum SerialAtaInterface {
    Unknown,
    Ahci1_0,
}

#[derive(Clone, Copy, Debug, PartialEq, Eq, Structural)]
pub enum MassStorageControllerSubclass {
    Unknown,
    IdeController(IdeControllerInterface),
    SerialAta(SerialAtaInterface),
}

#[derive(Clone, Copy, Debug, PartialEq, Eq, Structural)]
pub enum NetworkControllerSubclass {
    Unknown,
    EthernetController,
    Other,
}

#[derive(Clone, Copy, Debug, PartialEq, Eq, Structural)]
pub enum VgaCompatibleInterface {
    Unknown,
    VgaController,
}

#[derive(Clone, Copy, Debug, PartialEq, Eq, Structural)]
pub enum DisplayControllerSubclass {
    Unknown,
    VgaCompatible(VgaCompatibleInterface),
    Other,
}

#[derive(Clone, Copy, Debug, PartialEq, Eq, Structural)]
pub enum BridgeDeviceSubclass {
    Unknown,
    HostBridge,
    IsaBridge,
    Other,
}

/// What a device function is, as far as this kernel knows.
#[derive(Clone, Copy, Debug, PartialEq, Eq, Structural)]
pub enum DeviceClass {
    Unknown,
    Unclassified(UnclassifiedSubclass),
    MassStorageController(MassStorageControllerSubclass),
    NetworkController(NetworkControllerSubclass),
    DisplayController(DisplayControllerSubclass),
    BridgeDevice(BridgeDeviceSubclass),
}

/// The PCI codes that a class stands for: its class code, and, where the
/// class tells them, its subclass and programming interface; an unknown
/// part stands for no code.
pub open spec fn class_codes(d: DeviceClass) -> (Option<u8>, Option<u8>, Option<u8>) {
    match d {
        DeviceClass::Unknown => (None, None, None),
        DeviceClass::Unclassified(sub) => (Some(0x00u8), match sub {
            UnclassifiedSubclass::NonVgaCompatible => Some(0x00u8),
            UnclassifiedSubclass::VgaCompatible => Some(0x01u8),
            UnclassifiedSubclass::Unknown => None,
        }, None),
        DeviceClass::MassStorageController(sub) => match sub {
            MassStorageControllerSubclass::IdeController(i) => (Some(0x01u8), Some(0x01u8), match i {
                IdeControllerInterface::IsaCompatibilityModeOnlyWithBusMastering => Some(0x80u8),
                IdeControllerInterface::Unknown => None,
            }),
            MassStorageControllerSubclass::SerialAta(i) => (Some(0x01u8), Some(0x06u8), match i {
                SerialAtaInterface::Ahci1_0 => Some(0x01u8),
                SerialAtaInterface::Unknown => None,
            }),
            MassStorageControllerSubclass::Unknown => (Some(0x01u8), None, None),
        },
        DeviceClass::NetworkController(sub) => (Some(0x02u8), match sub {
            NetworkControllerSubclass::EthernetController => Some(0x00u8),
            NetworkControllerSubclass::Other => Some(0x80u8),
            NetworkControllerSubclass::Unknown => None,
        }, None),
        DeviceClass::DisplayController(sub) => match sub {
            DisplayControllerSubclass::VgaCompatible(i) => (Some(0x03u8), Some(0x00u8), match i {
                VgaCompatibleInterface::VgaController => Some(0x00u8),
                VgaCompatibleInterface::Unknown => None,
            }),
            DisplayControllerSubclass::Other => (Some(0x03u8), Some(0x80u8), None),
            DisplayControllerSubclass::Unknown => (Some(0x03u8), None, None),
        },
        DeviceClass::BridgeDevice(sub) => (Some(0x06u8), match sub {
            BridgeDeviceSubclass::HostBridge => Some(0x00u8),
            BridgeDeviceSubclass::IsaBridge => Some(0x01u8),
            BridgeDeviceSubclass::Other => Some(0x80u8),
            BridgeDeviceSubclass::Unknown => None,
        }, None),
    }
}

/// A function is classified by its codes: every code its class stands for
/// is the function's own (so an Ethernet controller has subclass 0x00, and
/// only subclass 0x80 is "other"), and whenever some class stands for the
/// function's class code, subclass or interface, the function's class
/// stands for it too, so nothing known is left unknown.
pub proof fn lemma_classify_by_codes(class_code: u8, subclass: u8, prog_if: u8, other: DeviceClass)
    ensures
        ({
            let codes = class_codes(spec_classify(class_code, subclass, prog_if));
            &&& codes.0 matches Some(c) ==> c == class_code
            &&& codes.1 matches Some(s) ==> s == subclass
            &&& codes.2 matches Some(p) ==> p == prog_if
            &&& class_codes(other).0 == Some(class_code) ==> codes.0 == Some(class_code)
            &&& class_codes(other).0 == Some(class_code) && class_codes(other).1 == Some(subclass) ==> codes.1
                == Some(subclass)
            &&& class_codes(other) == (Some(class_code), Some(subclass), Some(prog_if)) ==> codes.2 == Some(
                prog_if,
            )
        }),
{
}

/// The class of a function from its class code, subclass and programming
/// interface.
pub open spec fn spec_classify(class_code: u8, subclass: u8, prog_if: u8) -> DeviceClass {
    if class_code == 0x00 {
        DeviceClass::Unclassified(
            if subclass == 0x00 {
                UnclassifiedSubclass::NonVgaCompatible
            } else if subclass == 0x01 {
                UnclassifiedSubclass::VgaCompatible
            } else {
                UnclassifiedSubclass::Unknown
            },
        )
    } else if class_code == 0x01 {
        DeviceClass::MassStorageController(
            if subclass == 0x01 {
                MassStorageControllerSubclass::IdeController(
                    if prog_if == 0x80 {
                        IdeControllerInterface::IsaCompatibilityModeOnlyWithBusMastering
                    } else {
                        IdeControllerInterface::Unknown
                    },
                )
            } else if subclass == 0x06 {
                MassStorageControllerSubclass::SerialAta(
                    if prog_if == 0x01 {
                        SerialAtaInterface::Ahci1_0
                    } else {
                        SerialAtaInterface::Unknown
                    },
                )
            } else {
                MassStorageControllerSubclass::Unknown
            },
        )
    } else if class_code == 0x02 {
        DeviceClass::NetworkController(
            if subclass == 0x00 {
                NetworkControllerSubclass::EthernetController
            } else if subclass == 0x80 {
                NetworkControllerSubclass::Other
            } else {
                NetworkControllerSubclass::Unknown
            },
        )
    } else if class_code == 0x03 {
        DeviceClass::DisplayController(
            if subclass == 0x00 {
                DisplayControllerSubclass::VgaCompatible(
                    if prog_if == 0x00 {
                        VgaCompatibleInterface::VgaController
                    } else {
                        VgaCompatibleInterface::Unknown
                    },
                )
            } else if subclass == 0x80 {
                DisplayControllerSubclass::Other
            } else {
                DisplayControllerSubclass::Unknown
            },
        )
    } else if class_code == 0x06 {
        DeviceClass::BridgeDevice(
            if subclass == 0x00 {
                BridgeDeviceSubclass::HostBridge
            } else if subclass == 0x01 {
                BridgeDeviceSubclass::IsaBridge
            } else if subclass == 0x80 {
                BridgeDeviceSubclass::Other
            } else {
                BridgeDeviceSubclass::Unknown
            },
        )
    } else {
        DeviceClass::Unknown
    }
}

pub fn classify(class_code: u8, subclass: u8, prog_if: u8) -> (r: DeviceClass)
    ensures
        r == spec_classify(class_code, subclass, prog_if),
{
    match class_code {
        0x00 => match subclass {
            0x00 => DeviceClass::Unclassified(UnclassifiedSubclass::NonVgaCompatible),
            0x01 => DeviceClass::Unclassified(UnclassifiedSubclass::VgaCompatible),
            _ => DeviceClass::Unclassified(UnclassifiedSubclass::Unknown),
        },
        0x01 => match subclass {
            0x01 => match prog_if {
                0x80 => DeviceClass::MassStorageController(
                    MassStorageControllerSubclass::IdeController(
                        IdeControllerInterface::IsaCompatibilityModeOnlyWithBusMastering,
                    ),
                ),
                _ => DeviceClass::MassStorageController(
                    MassStorageControllerSubclass::IdeController(IdeControllerInterface::Unknown),
                ),
            },
            0x06 => match prog_if {
                0x01 => DeviceClass::MassStorageController(
                    MassStorageControllerSubclass::SerialAta(SerialAtaInterface::Ahci1_0),
                ),
                _ => DeviceClass::MassStorageController(
                    MassStorageControllerSubclass::SerialAta(SerialAtaInterface::Unknown),
                ),
            },
            _ => DeviceClass::MassStorageController(MassStorageControllerSubclass::Unknown),
        },
        0x02 => match subclass {
            0x00 => DeviceClass::NetworkController(NetworkControllerSubclass::EthernetController),
            0x80 => DeviceClass::NetworkController(NetworkControllerSubclass::Other),
            _ => DeviceClass::NetworkController(NetworkControllerSubclass::Unknown),
        },
        0x03 => match subclass {
            0x00 => match prog_if {
                0x00 => DeviceClass::DisplayController(
                    DisplayControllerSubclass::VgaCompatible(VgaCompatibleInterface::VgaController),
                ),
                _ => DeviceClass::DisplayController(
                    DisplayControllerSubclass::VgaCompatible(VgaCompatibleInterface::Unknown),
                ),
            },
            0x80 => DeviceClass::DisplayController(DisplayControllerSubclass::Other),
            _ => DeviceClass::DisplayController(DisplayControllerSubclass::Unknown),
        },
        0x06 => match subclass {
            0x00 => DeviceClass::BridgeDevice(BridgeDeviceSubclass::HostBridge),
            0x01 => DeviceClass::BridgeDevice(BridgeDeviceSubclass::IsaBridge),
            0x80 => DeviceClass::BridgeDevice(BridgeDeviceSubclass::Other),
            _ => DeviceClass::BridgeDevice(BridgeDeviceSubclass::Unknown),
        },
        _ => DeviceClass::Unknown,
    }
}

/// Layout of a configuration space.
#[derive(Clone, Copy, Debug, PartialEq, Eq, Structural)]
pub enum ConfSpaceKind {
    Device,
    PciToPciBridge,
}

/// The raw configuration registers that identify a function: the vendor and
/// device IDs, the class registers and the header type register.
#[derive(Clone, Copy, Debug)]
pub struct FunctionRegisters {
    pub reg_00: u32,
    pub reg_08: u32,
    pub reg_0c: u32,
}

/// One function of a PCI device.
#[derive(Clone, Copy, Debug)]
pub struct Function {
    pub bus_num: u8,
    pub device_num: u8,
    pub function_num: u8,
    pub class: DeviceClass,
    pub conf_space: Option<ConfSpaceKind>,
    pub header_type: u8,
}

/// The header type register field of a function.
pub open spec fn spec_header_type(regs: FunctionRegisters) -> u8 {
    (regs.reg_0c >> 16u32) as u8
}

/// The configuration space layout that a header type selects, bit 7 (the
/// multi-function flag) aside.
pub open spec fn spec_conf_space(header_type: u8) -> Option<ConfSpaceKind> {
    let t = header_type & 0x7Fu8;
    if t == 0 {
        Some(ConfSpaceKind::Device)
    } else if t == 1 {
        Some(ConfSpaceKind::PciToPciBridge)
    } else {
        None
    }
}

impl Function {
    /// Recognizes a function from its identifying registers.  A vendor ID of
    /// all ones means there is no function; only ordinary devices get a
    /// class.
    pub fn new(bus_num: u8, device_num: u8, function_num: u8, regs: FunctionRegisters) -> (r:
        Function)
        ensures
            r.bus_num == bus_num,
            r.device_num == device_num,
            r.function_num == function_num,
            r.header_type == spec_header_type(regs),
            regs.reg_00 as u16 == 0xFFFF ==> r.conf_space is None && r.class == DeviceClass::Unknown,
            regs.reg_00 as u16 != 0xFFFF ==> r.conf_space == spec_conf_space(
                spec_header_type(regs),
            ),
            r.class == (if regs.reg_00 as u16 != 0xFFFF && r.conf_space == Some(
                ConfSpaceKind::Device,
            ) {
                spec_classify(
                    (regs.reg_08 >> 24u32) as u8,
                    (regs.reg_08 >> 16u32) as u8,
                    (regs.reg_08 >> 8u32) as u8,
                )
            } else {
                DeviceClass::Unknown
            }),
    {
        let header_type = (regs.reg_0c >> 16u32) as u8;
        let mut function = Function {
            bus_num,
            device_num,
            function_num,
            class: DeviceClass::Unknown,
            conf_space: None,
            header_type,
        };
        let vendor_id = regs.reg_00 as u16;
        if vendor_id == 0xFFFF {
            return function;
        }
        let t = header_type & 0x7Fu8;
        function.conf_space = if t == 0 {
            Some(ConfSpaceKind::Device)
        } else if t == 1 {
            Some(ConfSpaceKind::PciToPciBridge)
        } else {
            None
        };
        if let Some(ConfSpaceKind::Device) = function.conf_space {
            let class_code = (regs.reg_08 >> 24u32) as u8;
            let subclass = (regs.reg_08 >> 16u32) as u8;
            let prog_if = (regs.reg_08 >> 8u32) as u8;
            function.class = classify(class_code, subclass, prog_if);
        }
        function
    }

    /// Whether the function exists: it has a configuration space whose
    /// vendor ID (given) is not all ones.
    pub fn is_present(&self, vendor_id: u16) -> (r: bool)
        ensures
            r == (self.conf_space is Some && vendor_id != 0xFFFF),
    {
        match self.conf_space {
            Some(_) => vendor_id != 0xFFFF,
            None => false,
        }
    }
}

/// A PCI device: its functions, the first always present.
#[derive(Debug)]
pub struct Device {
    pub bus_num: u8,
    pub device_num: u8,
    pub functions: Vec<Function>,
}

impl View for Device {
    type V = (u8, u8, Seq<Function>);

    /// The bus and device numbers and the functions.
    open spec fn view(&self) -> (u8, u8, Seq<Function>) {
        (self.bus_num, self.device_num, self.functions@)
    }
}

impl Clone for Device {
    fn clone(&self) -> (r: Device)
        ensures
            r.view() == self.view(),
    {
        let mut functions: Vec<Function> = Vec::new();
        let mut i: usize = 0;
        while i < self.functions.len()
            invariant
                i <= self.functions@.len(),
                functions@ == self.functions@.take(i as int),
            decreases self.functions@.len() - i,
        {
            functions.push(self.functions[i]);
            assert(self.functions@.take(i as int + 1) =~= self.functions@.take(i as int).push(self.functions@[i as int]));
            i = i + 1;
        }
        assert(self.functions@.take(i as int) =~= self.functions@);
        Device { bus_num: self.bus_num, device_num: self.device_num, functions }
    }
}

impl Device {
    /// Recognizes the functions of a device from the identifying registers of
    /// its eight possible functions.  Only a multi-function device (bit 7 of
    /// the first function's header type) has more than its first function.
    pub fn new(bus_num: u8, device_num: u8, regs: &[FunctionRegisters]) -> (r: Device)
        requires
            regs@.len() == 8,
        ensures
            r.bus_num == bus_num,
            r.device_num == device_num,
            r.functions@.len() == (if spec_header_type(regs@[0]) & 0x80u8 != 0 { 8int } else { 1 }),
            forall|f: int|
                0 <= f < r.functions@.len() ==> #[trigger] r.functions@[f] == Function::spec_new(
                    bus_num,
                    device_num,
                    f as u8,
                    regs@[f],
                ),
    {
        let mut device = Device { bus_num, device_num, functions: Vec::new() };
        let first = Function::new(bus_num, device_num, 0, regs[0]);
        proof {
            Function::lemma_new_is_spec_new(bus_num, device_num, 0, regs@[0], first);
        }
        device.functions.push(first);
        if device.is_multifunctional() {
            let mut function_num: u8 = 1;
            while function_num < 8
                invariant
                    regs@.len() == 8,
                    1 <= function_num <= 8,
                    device.bus_num == bus_num,
                    device.device_num == device_num,
                    device.functions@.len() == function_num,
                    forall|f: int|
                        0 <= f < device.functions@.len() ==> #[trigger] device.functions@[f]
                            == Function::spec_new(bus_num, device_num, f as u8, regs@[f]),
                decreases 8 - function_num,
            {
                let function = Function::new(
                    bus_num,
                    device_num,
                    function_num,
                    regs[function_num as usize],
                );
                proof {
                    Function::lemma_new_is_spec_new(
                        bus_num,
                        device_num,
                        function_num,
                        regs@[function_num as int],
                        function,
                    );
                }
                device.functions.push(function);
                function_num = function_num + 1;
            }
        }
        device
    }

    /// Bit 7 of the first function's header type.
    pub fn is_multifunctional(&self) -> (r: bool)
        requires
            self.functions@.len() > 0,
        ensures
            r == (self.functions@[0].header_type & 0x80u8 != 0),
    {
        (self.functions[0].header_type & 0x80u8) != 0
    }
}

impl Function {
    /// The function that [`Function::new`] recognizes from the registers.
    pub open spec fn spec_new(bus_num: u8, device_num: u8, function_num: u8, regs: FunctionRegisters) -> Function {
        let header_type = spec_header_type(regs);
        let conf_space = if regs.reg_00 as u16 == 0xFFFF {
            None
        } else {
            spec_conf_space(header_type)
        };
        Function {
            bus_num,
            device_num,
            function_num,
            class: if regs.reg_00 as u16 != 0xFFFF && conf_space == Some(ConfSpaceKind::Device) {
                spec_classify(
                    (regs.reg_08 >> 24u32) as u8,
                    (regs.reg_08 >> 16u32) as u8,
                    (regs.reg_08 >> 8u32) as u8,
                )
            } else {
                DeviceClass::Unknown
            },
            conf_space,
            header_type,
        }
    }

    proof fn lemma_new_is_spec_new(bus_num: u8, device_num: u8, function_num: u8, regs: FunctionRegisters, f: Function)
        requires
            f.bus_num == bus_num,
            f.device_num == device_num,
            f.function_num == function_num,
            f.header_type == spec_header_type(regs),
            regs.reg_00 as u16 == 0xFFFF ==> f.conf_space is None && f.class == DeviceClass::Unknown,
            regs.reg_00 as u16 != 0xFFFF ==> f.conf_space == spec_conf_space(spec_header_type(regs)),
            f.class == (if regs.reg_00 as u16 != 0xFFFF && f.conf_space == Some(ConfSpaceKind::Device) {
                spec_classify(
                    (regs.reg_08 >> 24u32) as u8,
                    (regs.reg_08 >> 16u32) as u8,
                    (regs.reg_08 >> 8u32) as u8,
                )
            } else {
                DeviceClass::Unknown
            }),
        ensures
            f == Function::spec_new(bus_num, device_num, function_num, regs),
    {
    }
}

/// A bus: the devices on it and the buses behind its PCI-to-PCI bridges.
#[derive(Debug)]
pub struct Bus {
    pub bus_num: u8,
    pub devices: Vec<Device>,
    pub secondary_buses: Vec<(u8, Bus)>,
}

impl Bus {
    /// The devices on this bus followed by those on each bus directly behind
    /// it.
    pub fn all_devices(&self) -> (r: Vec<Device>)
        ensures
            r@.len() == self.devices@.len() + secondary_devices(self.secondary_buses@, self.secondary_buses@.len() as int).len(),
            forall|i: int| 0 <= i < r@.len() ==> #[trigger] r@[i].view() == (self.devices@ + secondary_devices(self.secondary_buses@, self.secondary_buses@.len() as int))[i].view(),
    {
        let mut devices: Vec<Device> = Vec::new();
        let mut i: usize = 0;
        while i < self.devices.len()
            invariant
                i <= self.devices@.len(),
                devices@.len() == i,
                forall|x: int| 0 <= x < i ==> #[trigger] devices@[x].view() == self.devices@[x].view(),
            decreases self.devices@.len() - i,
        {
            devices.push(self.devices[i].clone());
            i = i + 1;
        }
        let mut j: usize = 0;
        while j < self.secondary_buses.len()
            invariant
                j <= self.secondary_buses@.len(),
                devices@.len() == self.devices@.len() + secondary_devices(self.secondary_buses@, j as int).len(),
                forall|x: int| 0 <= x < devices@.len() ==> #[trigger] devices@[x].view() == (self.devices@ + secondary_devices(self.secondary_buses@, j as int))[x].view(),
            decreases self.secondary_buses@.len() - j,
        {
            let sec = &self.secondary_buses[j].1;
            let mut k: usize = 0;
            while k < sec.devices.len()
                invariant
                    k <= sec.devices@.len(),
                    j < self.secondary_buses@.len(),
                    *sec == self.secondary_buses@[j as int].1,
                    devices@.len() == self.devices@.len() + secondary_devices(self.secondary_buses@, j as int).len() + k,
                    forall|x: int| 0 <= x < devices@.len() ==> #[trigger] devices@[x].view() == (self.devices@ + secondary_devices(self.secondary_buses@, j as int) + sec.devices@.take(k as int))[x].view(),
                decreases sec.devices@.len() - k,
            {
                devices.push(sec.devices[k].clone());
                assert(sec.devices@.take(k as int + 1) =~= sec.devices@.take(k as int).push(sec.devices@[k as int]));
                assert(self.devices@ + secondary_devices(self.secondary_buses@, j as int) + sec.devices@.take(k as int + 1)
                    =~= (self.devices@ + secondary_devices(self.secondary_buses@, j as int) + sec.devices@.take(k as int)).push(sec.devices@[k as int]));
                k = k + 1;
            }
            assert(sec.devices@.take(k as int) =~= sec.devices@);
            assert(self.devices@ + secondary_devices(self.secondary_buses@, j as int + 1) =~= self.devices@ + secondary_devices(self.secondary_buses@, j as int) + sec.devices@);
            j = j + 1;
        }
        devices
    }
}

/// The host buses a machine has, from the functions of the device at bus 0,
/// device 0: bus 0 alone when that device has one function, else the bus of
/// each of its eight functions that is present.
pub open spec fn spec_host_buses(info: Seq<Function>) -> Seq<u8> {
    if info[0].header_type & 0x80u8 == 0 {
        seq![0u8]
    } else {
        Seq::new(8, |b: int| b as u8).filter(|b: u8| info[b as int].conf_space is Some)
    }
}

/// The host bus numbers, found from the device at bus 0, device 0.
pub fn host_bus_numbers(info_device: &Device) -> (r: Vec<u8>)
    requires
        info_device.functions@.len() > 0,
        info_device.functions@[0].header_type & 0x80u8 != 0 ==> info_device.functions@.len() == 8,
    ensures
        r@ == spec_host_buses(info_device.functions@),
{
    let mut buses: Vec<u8> = Vec::new();
    if !info_device.is_multifunctional() {
        buses.push(0);
        assert(buses@ =~= seq![0u8]);
        return buses;
    }
    let ghost all = Seq::new(8, |b: int| b as u8);
    let ghost pred = |b: u8| info_device.functions@[b as int].conf_space is Some;
    let mut b: u8 = 0;
    while b < 8
        invariant
            b <= 8,
            info_device.functions@.len() == 8,
            all == Seq::new(8, |b: int| b as u8),
            pred == (|b: u8| info_device.functions@[b as int].conf_space is Some),
            buses@ == all.take(b as int).filter(pred),
        decreases 8 - b,
    {
        proof {
            assert(all.take(b + 1).drop_last() =~= all.take(b as int));
            all.take(b as int).lemma_filter_push(all[b as int], pred);
            assert(all.take(b + 1) =~= all.take(b as int).push(all[b as int]));
        }
        if info_device.functions[b as usize].conf_space.is_some() {
            buses.push(b);
        }
        b = b + 1;
    }
    assert(all.take(8) =~= all);
    buses
}

/// Whether a function is an IDE controller that the kernel drives: present,
/// and in ISA compatibility mode with bus mastering.
pub open spec fn is_ide_controller(f: Function) -> bool {
    &&& f.conf_space is Some
    &&& f.class == DeviceClass::MassStorageController(
        MassStorageControllerSubclass::IdeController(IdeControllerInterface::IsaCompatibilityModeOnlyWithBusMastering),
    )
}

/// The functions of the devices, in order.
pub open spec fn all_functions(devices: Seq<Device>, n: int) -> Seq<Function>
    decreases n,
{
    if n <= 0 {
        Seq::empty()
    } else {
        all_functions(devices, n - 1) + devices[n - 1].functions@
    }
}

/// The functions among `devices` that are IDE controllers the kernel
/// initializes, in the order of the devices and their functions.
pub fn ide_controllers(devices: &[Device]) -> (r: Vec<Function>)
    ensures
        r@ == all_functions(devices@, devices@.len() as int).filter(|f: Function| is_ide_controller(f)),
{
    let ghost pred = |f: Function| is_ide_controller(f);
    let mut out: Vec<Function> = Vec::new();
    let mut d: usize = 0;
    while d < devices.len()
        invariant
            d <= devices@.len(),
            pred == (|f: Function| is_ide_controller(f)),
            out@ == all_functions(devices@, d as int).filter(pred),
        decreases devices@.len() - d,
    {
        let fs = &devices[d].functions;
        let ghost before = all_functions(devices@, d as int);
        let mut k: usize = 0;
        while k < fs.len()
            invariant
                k <= fs@.len(),
                d < devices@.len(),
                fs@ == devices@[d as int].functions@,
                pred == (|f: Function| is_ide_controller(f)),
                out@ == (before + fs@.take(k as int)).filter(pred),
            decreases fs@.len() - k,
        {
            let f = fs[k];
            proof {
                assert(before + fs@.take(k + 1) =~= (before + fs@.take(k as int)).push(f));
                (before + fs@.take(k as int)).lemma_filter_push(f, pred);
            }
            let wanted = match f.conf_space {
                Some(_) => match f.class {
                    DeviceClass::MassStorageController(
                        MassStorageControllerSubclass::IdeController(
                            IdeControllerInterface::IsaCompatibilityModeOnlyWithBusMastering,
                        ),
                    ) => true,
                    _ => false,
                },
                None => false,
            };
            if wanted {
                out.push(f);
            }
            k = k + 1;
        }
        proof {
            assert(fs@.take(k as int) =~= fs@);
            assert(all_functions(devices@, d + 1) == before + devices@[d as int].functions@);
        }
        d = d + 1;
    }
    out
}

/// The devices on the first `n` buses of `buses`, in order.
pub open spec fn secondary_devices(buses: Seq<(u8, Bus)>, n: int) -> Seq<Device>
    decreases n,
{
    if n <= 0 {
        Seq::empty()
    } else {
        secondary_devices(buses, n - 1) + buses[n - 1].1.devices@
    }
}

/// Fields of the configuration space of an ordinary device.
#[derive(Clone, Copy, Debug)]
pub struct DeviceConfSpace {
    pub vendor_id: Register,
    pub device_id: Register,
    pub command: Register,
    pub status: Register,
    pub revision_id: Register,
    pub prog_if: Register,
    pub subclass: Register,
    pub class_code: Register,
    pub cache_line_size: Register,
    pub latency_timer: Register,
    pub header_type: Register,
    pub bist: Register,
    pub bar0: Register,
    pub bar1: Register,
    pub bar2: Register,
    pub bar3: Register,
    pub bar4: Register,
    pub bar5: Register,
    pub cardbus_cis_ptr: Register,
    pub subsystem_vendor_id: Register,
    pub subsystem_id: Register,
    pub expansion_rom_base_addr: Register,
    pub capabilites_ptr: Register,
    pub interrupt_line: Register,
    pub interrupt_pin: Register,
    pub min_grant: Register,
    pub max_latency: Register,
}

impl DeviceConfSpace {
    /// Where each field lives.
    pub open spec fn spec_layout() -> DeviceConfSpace {
        DeviceConfSpace {
            vendor_id: Register { offset: 0x00, shift_left: 0, width: RegisterWidth::Word, read_only: true, reserved: false },
            device_id: Register { offset: 0x00, shift_left: 16, width: RegisterWidth::Word, read_only: true, reserved: false },
            command: Register { offset: 0x04, shift_left: 0, width: RegisterWidth::Word, read_only: false, reserved: false },
            status: Register { offset: 0x04, shift_left: 16, width: RegisterWidth::Word, read_only: true, reserved: false },
            revision_id: Register { offset: 0x08, shift_left: 0, width: RegisterWidth::Byte, read_only: true, reserved: false },
            prog_if: Register { offset: 0x08, shift_left: 8, width: RegisterWidth::Byte, read_only: true, reserved: false },
            subclass: Register { offset: 0x08, shift_left: 16, width: RegisterWidth::Byte, read_only: true, reserved: false },
            class_code: Register { offset: 0x08, shift_left: 24, width: RegisterWidth::Byte, read_only: true, reserved: false },
            cache_line_size: Register { offset: 0x0C, shift_left: 0, width: RegisterWidth::Byte, read_only: false, reserved: false },
            latency_timer: Register { offset: 0x0C, shift_left: 8, width: RegisterWidth::Byte, read_only: true, reserved: false },
            header_type: Register { offset: 0x0C, shift_left: 16, width: RegisterWidth::Byte, read_only: true, reserved: false },
            bist: Register { offset: 0x0C, shift_left: 24, width: RegisterWidth::Byte, read_only: true, reserved: false },
            bar0: Register { offset: 0x10, shift_left: 0, width: RegisterWidth::Dword, read_only: false, reserved: false },
            bar1: Register { offset: 0x14, shift_left: 0, width: RegisterWidth::Dword, read_only: false, reserved: false },
            bar2: Register { offset: 0x18, shift_left: 0, width: RegisterWidth::Dword, read_only: false, reserved: false },
            bar3: Register { offset: 0x1C, shift_left: 0, width: RegisterWidth::Dword, read_only: false, reserved: false },
            bar4: Register { offset: 0x20, shift_left: 0, width: RegisterWidth::Dword, read_only: false, reserved: false },
            bar5: Register { offset: 0x24, shift_left: 0, width: RegisterWidth::Dword, read_only: false, reserved: false },
            cardbus_cis_ptr: Register { offset: 0x28, shift_left: 0, width: RegisterWidth::Dword, read_only: true, reserved: false },
            subsystem_vendor_id: Register { offset: 0x2C, shift_left: 0, width: RegisterWidth::Word, read_only: true, reserved: false },
            subsystem_id: Register { offset: 0x2C, shift_left: 16, width: RegisterWidth::Word, read_only: true, reserved: false },
            expansion_rom_base_addr: Register { offset: 0x30, shift_left: 0, width: RegisterWidth::Dword, read_only: true, reserved: false },
            capabilites_ptr: Register { offset: 0x34, shift_left: 0, width: RegisterWidth::Byte, read_only: true, reserved: false },
            interrupt_line: Register { offset: 0x3C, shift_left: 0, width: RegisterWidth::Byte, read_only: false, reserved: false },
            interrupt_pin: Register { offset: 0x3C, shift_left: 8, width: RegisterWidth::Byte, read_only: false, reserved: false },
            min_grant: Register { offset: 0x3C, shift_left: 16, width: RegisterWidth::Byte, read_only: true, reserved: false },
            max_latency: Register { offset: 0x3C, shift_left: 24, width: RegisterWidth::Byte, read_only: true, reserved: false },
        }
    }

    pub fn new() -> (r: DeviceConfSpace)
        ensures
            r == Self::spec_layout(),
    {
        DeviceConfSpace {
            vendor_id: Register::read_only(0x00, 0, RegisterWidth::Word),
            device_id: Register::read_only(0x00, 16, RegisterWidth::Word),
            command: Register::read_write(0x04, 0, RegisterWidth::Word),
            status: Register::read_only(0x04, 16, RegisterWidth::Word),
            revision_id: Register::read_only(0x08, 0, RegisterWidth::Byte),
            prog_if: Register::read_only(0x08, 8, RegisterWidth::Byte),
            subclass: Register::read_only(0x08, 16, RegisterWidth::Byte),
            class_code: Register::read_only(0x08, 24, RegisterWidth::Byte),
            cache_line_size: Register::read_write(0x0C, 0, RegisterWidth::Byte),
            latency_timer: Register::read_only(0x0C, 8, RegisterWidth::Byte),
            header_type: Register::read_only(0x0C, 16, RegisterWidth::Byte),
            bist: Register::read_only(0x0C, 24, RegisterWidth::Byte),
            bar0: Register::read_write(0x10, 0, RegisterWidth::Dword),
            bar1: Register::read_write(0x14, 0, RegisterWidth::Dword),
            bar2: Register::read_write(0x18, 0, RegisterWidth::Dword),
            bar3: Register::read_write(0x1C, 0, RegisterWidth::Dword),
            bar4: Register::read_write(0x20, 0, RegisterWidth::Dword),
            bar5: Register::read_write(0x24, 0, RegisterWidth::Dword),
            cardbus_cis_ptr: Register::read_only(0x28, 0, RegisterWidth::Dword),
            subsystem_vendor_id: Register::read_only(0x2C, 0, RegisterWidth::Word),
            subsystem_id: Register::read_only(0x2C, 16, RegisterWidth::Word),
            expansion_rom_base_addr: Register::read_only(0x30, 0, RegisterWidth::Dword),
            capabilites_ptr: Register::read_only(0x34, 0, RegisterWidth::Byte),
            interrupt_line: Register::read_write(0x3C, 0, RegisterWidth::Byte),
            interrupt_pin: Register::read_write(0x3C, 8, RegisterWidth::Byte),
            min_grant: Register::read_only(0x3C, 16, RegisterWidth::Byte),
            max_latency: Register::read_only(0x3C, 24, RegisterWidth::Byte),
        }
    }
}

/// Fields of the configuration space of a PCI-to-PCI bridge.
#[derive(Clone, Copy, Debug)]
pub struct PciToPciBridgeConfSpace {
    pub vendor_id: Register,
    pub device_id: Register,
    pub command: Register,
    pub status: Register,
    pub revision_id: Register,
    pub prog_if: Register,
    pub subclass: Register,
    pub class_code: Register,
    pub cache_line_size: Register,
    pub latency_timer: Register,
    pub header_type: Register,
    pub bist: Register,
    pub bar0: Register,
    pub bar1: Register,
    pub primary_bus_num: Register,
    pub secondary_bus_num: Register,
    pub subordinate_bus_num: Register,
    pub secondary_latency_timer: Register,
    pub io_base: Register,
    pub io_limit: Register,
    pub secondary_status: Register,
    pub memory_base: Register,
    pub memory_limit: Register,
    pub prefetchable_memory_base: Register,
    pub prefetchable_memory_limit: Register,
    pub prefetchable_base_upper_32_bits: Register,
    pub prefetchable_limit_upper_32_bits: Register,
    pub io_limit_upper_16_bits: Register,
    pub io_base_upper_16_bits: Register,
    pub capability_ptr: Register,
    pub expansion_rom_base_addr: Register,
    pub interrupt_line: Register,
    pub interrupt_pin: Register,
    pub bridge_control: Register,
}

impl PciToPciBridgeConfSpace {
    /// Where each field lives.
    pub open spec fn spec_layout() -> PciToPciBridgeConfSpace {
        PciToPciBridgeConfSpace {
            vendor_id: Register { offset: 0x00, shift_left: 0, width: RegisterWidth::Word, read_only: true, reserved: false },
            device_id: Register { offset: 0x00, shift_left: 16, width: RegisterWidth::Word, read_only: true, reserved: false },
            command: Register { offset: 0x04, shift_left: 0, width: RegisterWidth::Word, read_only: true, reserved: false },
            status: Register { offset: 0x04, shift_left: 16, width: RegisterWidth::Word, read_only: true, reserved: false },
            revision_id: Register { offset: 0x08, shift_left: 0, width: RegisterWidth::Byte, read_only: true, reserved: false },
            prog_if: Register { offset: 0x08, shift_left: 8, width: RegisterWidth::Byte, read_only: true, reserved: false },
            subclass: Register { offset: 0x08, shift_left: 16, width: RegisterWidth::Byte, read_only: true, reserved: false },
            class_code: Register { offset: 0x08, shift_left: 24, width: RegisterWidth::Byte, read_only: true, reserved: false },
            cache_line_size: Register { offset: 0x0C, shift_left: 0, width: RegisterWidth::Byte, read_only: false, reserved: false },
            latency_timer: Register { offset: 0x0C, shift_left: 8, width: RegisterWidth::Byte, read_only: true, reserved: false },
            header_type: Register { offset: 0x0C, shift_left: 16, width: RegisterWidth::Byte, read_only: true, reserved: false },
            bist: Register { offset: 0x0C, shift_left: 24, width: RegisterWidth::Byte, read_only: true, reserved: false },
            bar0: Register { offset: 0x10, shift_left: 0, width: RegisterWidth::Dword, read_only: false, reserved: false },
            bar1: Register { offset: 0x14, shift_left: 0, width: RegisterWidth::Dword, read_only: false, reserved: false },
            primary_bus_num: Register { offset: 0x18, shift_left: 0, width: RegisterWidth::Byte, read_only: true, reserved: false },
            secondary_bus_num: Register { offset: 0x18, shift_left: 8, width: RegisterWidth::Byte, read_only: true, reserved: false },
            subordinate_bus_num: Register { offset: 0x18, shift_left: 16, width: RegisterWidth::Byte, read_only: true, reserved: false },
            secondary_latency_timer: Register { offset: 0x18, shift_left: 24, width: RegisterWidth::Byte, read_only: true, reserved: false },
            io_base: Register { offset: 0x1C, shift_left: 0, width: RegisterWidth::Byte, read_only: true, reserved: false },
            io_limit: Register { offset: 0x1C, shift_left: 8, width: RegisterWidth::Byte, read_only: true, reserved: false },
            secondary_status: Register { offset: 0x1C, shift_left: 16, width: RegisterWidth::Word, read_only: true, reserved: false },
            memory_base: Register { offset: 0x20, shift_left: 0, width: RegisterWidth::Word, read_only: true, reserved: false },
            memory_limit: Register { offset: 0x20, shift_left: 16, width: RegisterWidth::Word, read_only: true, reserved: false },
            prefetchable_memory_base: Register { offset: 0x24, shift_left: 0, width: RegisterWidth::Word, read_only: true, reserved: false },
            prefetchable_memory_limit: Register { offset: 0x24, shift_left: 16, width: RegisterWidth::Word, read_only: true, reserved: false },
            prefetchable_base_upper_32_bits: Register { offset: 0x28, shift_left: 0, width: RegisterWidth::Dword, read_only: true, reserved: false },
            prefetchable_limit_upper_32_bits: Register { offset: 0x2C, shift_left: 0, width: RegisterWidth::Dword, read_only: true, reserved: false },
            io_limit_upper_16_bits: Register { offset: 0x30, shift_left: 0, width: RegisterWidth::Word, read_only: true, reserved: false },
            io_base_upper_16_bits: Register { offset: 0x30, shift_left: 16, width: RegisterWidth::Word, read_only: true, reserved: false },
            capability_ptr: Register { offset: 0x34, shift_left: 0, width: RegisterWidth::Byte, read_only: true, reserved: false },
            expansion_rom_base_addr: Register { offset: 0x38, shift_left: 0, width: RegisterWidth::Dword, read_only: true, reserved: false },
            interrupt_line: Register { offset: 0x3C, shift_left: 0, width: RegisterWidth::Byte, read_only: false, reserved: false },
            interrupt_pin: Register { offset: 0x3C, shift_left: 8, width: RegisterWidth::Byte, read_only: false, reserved: false },
            bridge_control: Register { offset: 0x3C, shift_left: 16, width: RegisterWidth::Word, read_only: true, reserved: false },
        }
    }

    pub fn new() -> (r: PciToPciBridgeConfSpace)
        ensures
            r == Self::spec_layout(),
    {
        PciToPciBridgeConfSpace {
            vendor_id: Register::read_only(0x00, 0, RegisterWidth::Word),
            device_id: Register::read_only(0x00, 16, RegisterWidth::Word),
            command: Register::read_only(0x04, 0, RegisterWidth::Word),
            status: Register::read_only(0x04, 16, RegisterWidth::Word),
            revision_id: Register::read_only(0x08, 0, RegisterWidth::Byte),
            prog_if: Register::read_only(0x08, 8, RegisterWidth::Byte),
            subclass: Register::read_only(0x08, 16, RegisterWidth::Byte),
            class_code: Register::read_only(0x08, 24, RegisterWidth::Byte),
            cache_line_size: Register::read_write(0x0C, 0, RegisterWidth::Byte),
            latency_timer: Register::read_only(0x0C, 8, RegisterWidth::Byte),
            header_type: Register::read_only(0x0C, 16, RegisterWidth::Byte),
            bist: Register::read_only(0x0C, 24, RegisterWidth::Byte),
            bar0: Register::read_write(0x10, 0, RegisterWidth::Dword),
            bar1: Register::read_write(0x14, 0, RegisterWidth::Dword),
            primary_bus_num: Register::read_only(0x18, 0, RegisterWidth::Byte),
            secondary_bus_num: Register::read_only(0x18, 8, RegisterWidth::Byte),
            subordinate_bus_num: Register::read_only(0x18, 16, RegisterWidth::Byte),
            secondary_latency_timer: Register::read_only(0x18, 24, RegisterWidth::Byte),
            io_base: Register::read_only(0x1C, 0, RegisterWidth::Byte),
            io_limit: Register::read_only(0x1C, 8, RegisterWidth::Byte),
            secondary_status: Register::read_only(0x1C, 16, RegisterWidth::Word),
            memory_base: Register::read_only(0x20, 0, RegisterWidth::Word),
            memory_limit: Register::read_only(0x20, 16, RegisterWidth::Word),
            prefetchable_memory_base: Register::read_only(0x24, 0, RegisterWidth::Word),
            prefetchable_memory_limit: Register::read_only(0x24, 16, RegisterWidth::Word),
            prefetchable_base_upper_32_bits: Register::read_only(0x28, 0, RegisterWidth::Dword),
            prefetchable_limit_upper_32_bits: Register::read_only(0x2C, 0, RegisterWidth::Dword),
            io_limit_upper_16_bits: Register::read_only(0x30, 0, RegisterWidth::Word),
            io_base_upper_16_bits: Register::read_only(0x30, 16, RegisterWidth::Word),
            capability_ptr: Register::read_only(0x34, 0, RegisterWidth::Byte),
            expansion_rom_base_addr: Register::read_only(0x38, 0, RegisterWidth::Dword),
            interrupt_line: Register::read_write(0x3C, 0, RegisterWidth::Byte),
            interrupt_pin: Register::read_write(0x3C, 8, RegisterWidth::Byte),
            bridge_control: Register::read_only(0x3C, 16, RegisterWidth::Word),
        }
    }
}

} // verus!
