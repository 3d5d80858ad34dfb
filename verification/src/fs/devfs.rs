use vstd::prelude::*;

use super::{NodeType, ReadFileErr};

verus! {

/// The ID of the device file system's only directory.
pub const ROOT_ID: usize = 200;

/// Block devices get IDs `0..100`, character devices `100..200`.
pub const MAX_BLOCK_DEVICES: usize = 100;
pub const MAX_CHAR_DEVICES: usize = 100;

/// The device file system: the registered block and character devices, by
/// their indices in the kernel's device lists.
pub struct DevFs {
    pub block_devices: Vec<usize>,
    pub char_devices: Vec<usize>,
}

/// What an ID of the device file system names.
#[derive(Clone, Copy, Debug, PartialEq, Eq, Structural)]
pub enum ResolveId {
    BlockDevice(usize),
    CharDevice(usize),
}

/// What the device ID `id` names: block device `id`, or character device
/// `id - MAX_BLOCK_DEVICES`.
pub open spec fn spec_resolve_id(id: usize) -> ResolveId {
    if id < MAX_BLOCK_DEVICES {
        ResolveId::BlockDevice(id)
    } else {
        ResolveId::CharDevice((id - MAX_BLOCK_DEVICES) as usize)
    }
}

/// The ID that registering a device gives names the slot that the device
/// was put in.
pub proof fn lemma_register_then_resolve(before: DevFs, after: DevFs, device: usize, id: usize, block: bool)
    requires
        block ==> id == before.block_devices@.len() && after.block_devices@ == before.block_devices@.push(device),
        block ==> before.block_devices@.len() < MAX_BLOCK_DEVICES,
        !block ==> id == MAX_BLOCK_DEVICES + before.char_devices@.len() && after.char_devices@
            == before.char_devices@.push(device),
        !block ==> before.char_devices@.len() < MAX_CHAR_DEVICES,
    ensures
        id < MAX_BLOCK_DEVICES + MAX_CHAR_DEVICES,
        match spec_resolve_id(id) {
            ResolveId::BlockDevice(k) => block && after.block_devices@[k as int] == device,
            ResolveId::CharDevice(k) => !block && after.char_devices@[k as int] == device,
        },
{
}

/// A file of the device directory.
pub struct DevNode {
    pub node_type: NodeType,
    pub name: Vec<u8>,
    pub id_in_fs: usize,
}

/// The decimal digits of `n`, most significant first.
pub open spec fn decimal(n: nat) -> Seq<u8>
    decreases n,
{
    if n < 10 {
        seq![(0x30 + n) as u8]
    } else {
        decimal(n / 10).push((0x30 + n % 10) as u8)
    }
}

/// `prefix` followed by the decimal digits of `n`.
pub fn name_with_number(prefix: &[u8], n: usize) -> (r: Vec<u8>)
    ensures
        r@ == prefix@ + decimal(n as nat),
{
    let mut digits: Vec<u8> = Vec::new();
    let mut m = n;
    loop
        invariant_except_break
            decimal(n as nat) == decimal(m as nat) + digits@.reverse(),
        ensures
            decimal(n as nat) == digits@.reverse(),
        decreases m,
    {
        let c: u8 = 0x30 + (m % 10) as u8;
        let ghost before = digits@;
        digits.push(c);
        assert(digits@.reverse() =~= seq![c] + before.reverse());
        if m < 10 {
            assert(decimal(m as nat) =~= seq![c]);
            break;
        }
        assert(decimal(m as nat) == decimal((m / 10) as nat).push(c));
        assert(decimal((m / 10) as nat).push(c) + before.reverse() =~= decimal((m / 10) as nat) + digits@.reverse());
        m = m / 10;
    }
    let mut out: Vec<u8> = Vec::new();
    let mut i: usize = 0;
    while i < prefix.len()
        invariant
            i <= prefix@.len(),
            out@ == prefix@.subrange(0, i as int),
        decreases prefix@.len() - i,
    {
        out.push(prefix[i]);
        i = i + 1;
    }
    let mut j = digits.len();
    while j > 0
        invariant
            j <= digits@.len(),
            out@ == prefix@ + digits@.subrange(j as int, digits@.len() as int).reverse(),
        decreases j,
    {
        j = j - 1;
        assert(digits@.subrange(j as int, digits@.len() as int).reverse() =~= digits@.subrange(
            j + 1,
            digits@.len() as int,
        ).reverse().push(digits@[j as int]));
        out.push(digits[j]);
    }
    assert(digits@.subrange(0, digits@.len() as int) =~= digits@);
    out
}

impl DevFs {
    /// A device file system with no devices.
    pub fn new() -> (r: DevFs)
        ensures
            r.block_devices@.len() == 0,
            r.char_devices@.len() == 0,
    {
        DevFs { block_devices: Vec::new(), char_devices: Vec::new() }
    }

    /// A device file system with the first `num_block_devices` block
    /// devices and `num_char_devices` character devices registered.
    pub fn init(num_block_devices: usize, num_char_devices: usize) -> (r: DevFs)
        requires
            num_block_devices <= MAX_BLOCK_DEVICES,
            num_char_devices <= MAX_CHAR_DEVICES,
        ensures
            r.block_devices@ == Seq::new(num_block_devices as nat, |i: int| i as usize),
            r.char_devices@ == Seq::new(num_char_devices as nat, |i: int| i as usize),
    {
        let mut fs = DevFs::new();
        let mut i: usize = 0;
        while i < num_block_devices
            invariant
                i <= num_block_devices <= MAX_BLOCK_DEVICES,
                fs.block_devices@ == Seq::new(i as nat, |k: int| k as usize),
                fs.char_devices@.len() == 0,
            decreases num_block_devices - i,
        {
            let _ = fs.register_block_device(i);
            assert(fs.block_devices@ =~= Seq::new((i + 1) as nat, |k: int| k as usize));
            i = i + 1;
        }
        let mut j: usize = 0;
        while j < num_char_devices
            invariant
                j <= num_char_devices <= MAX_CHAR_DEVICES,
                fs.block_devices@ == Seq::new(num_block_devices as nat, |k: int| k as usize),
                fs.char_devices@ == Seq::new(j as nat, |k: int| k as usize),
            decreases num_char_devices - j,
        {
            let _ = fs.register_char_device(j);
            assert(fs.char_devices@ =~= Seq::new((j + 1) as nat, |k: int| k as usize));
            j = j + 1;
        }
        fs
    }

    /// The ID the next device gets: block devices count from 0, character
    /// devices from [`MAX_BLOCK_DEVICES`].
    pub fn allocate_id(&self, is_block_device: bool) -> (r: usize)
        requires
            is_block_device ==> self.block_devices@.len() < MAX_BLOCK_DEVICES,
            !is_block_device ==> self.char_devices@.len() < MAX_CHAR_DEVICES,
        ensures
            is_block_device ==> r == self.block_devices@.len(),
            !is_block_device ==> r == MAX_BLOCK_DEVICES + self.char_devices@.len(),
    {
        if is_block_device {
            self.block_devices.len()
        } else {
            MAX_BLOCK_DEVICES + self.char_devices.len()
        }
    }

    /// The device an ID names; it must be a device ID.
    pub fn resolve_id(&self, id_in_fs: usize) -> (r: ResolveId)
        requires
            id_in_fs < MAX_BLOCK_DEVICES + MAX_CHAR_DEVICES,
        ensures
            r == spec_resolve_id(id_in_fs),
    {
        if id_in_fs < MAX_BLOCK_DEVICES {
            ResolveId::BlockDevice(id_in_fs)
        } else {
            ResolveId::CharDevice(id_in_fs - MAX_BLOCK_DEVICES)
        }
    }

    /// The size of a device file: devices have no size, so zero.
    pub fn file_size_bytes(&self, id: usize) -> (r: Result<usize, ReadFileErr>)
        ensures
            r == Ok::<usize, ReadFileErr>(0),
    {
        Ok(0)
    }

    /// Registers block device `device` and returns its ID.
    pub fn register_block_device(&mut self, device: usize) -> (r: usize)
        requires
            old(self).block_devices@.len() < MAX_BLOCK_DEVICES,
        ensures
            r == old(self).block_devices@.len(),
            final(self).block_devices@ == old(self).block_devices@.push(device),
            final(self).char_devices@ == old(self).char_devices@,
    {
        let id = self.allocate_id(true);
        self.block_devices.push(device);
        id
    }

    /// Registers character device `device` and returns its ID.
    pub fn register_char_device(&mut self, device: usize) -> (r: usize)
        requires
            old(self).char_devices@.len() < MAX_CHAR_DEVICES,
        ensures
            r == MAX_BLOCK_DEVICES + old(self).char_devices@.len(),
            final(self).char_devices@ == old(self).char_devices@.push(device),
            final(self).block_devices@ == old(self).block_devices@,
    {
        let id = self.allocate_id(false);
        self.char_devices.push(device);
        id
    }

    /// The files of the root directory, the only one: "blk0", "blk1", ...
    /// for the block devices, then "chr0", "chr1", ... for the character
    /// devices.
    pub fn read_dir(&self, id: usize) -> (r: Vec<DevNode>)
        requires
            id == ROOT_ID,
            self.block_devices@.len() <= MAX_BLOCK_DEVICES,
            self.char_devices@.len() <= MAX_CHAR_DEVICES,
        ensures
            r@.len() == self.block_devices@.len() + self.char_devices@.len(),
            forall|i: int| 0 <= i < self.block_devices@.len() ==> (#[trigger] r@[i]).node_type == NodeType::BlockDevice
                && r@[i].id_in_fs == i && r@[i].name@ == seq![0x62u8, 0x6cu8, 0x6bu8] + decimal(i as nat),
            forall|i: int|
                0 <= i < self.char_devices@.len() ==> (#[trigger] r@[self.block_devices@.len() + i]).node_type
                    == NodeType::CharDevice && r@[self.block_devices@.len() + i].id_in_fs == i + MAX_BLOCK_DEVICES
                    && r@[self.block_devices@.len() + i].name@ == seq![0x63u8, 0x68u8, 0x72u8] + decimal(i as nat),
    {
        let blk: [u8; 3] = [0x62, 0x6c, 0x6b];
        let chr: [u8; 3] = [0x63, 0x68, 0x72];
        assert(blk@ =~= seq![0x62u8, 0x6cu8, 0x6bu8]);
        assert(chr@ =~= seq![0x63u8, 0x68u8, 0x72u8]);
        let nb = self.block_devices.len();
        let mut out: Vec<DevNode> = Vec::new();
        let mut i: usize = 0;
        while i < nb
            invariant
                nb == self.block_devices@.len() <= MAX_BLOCK_DEVICES,
                blk@ == seq![0x62u8, 0x6cu8, 0x6bu8],
                i <= nb,
                out@.len() == i,
                forall|k: int| 0 <= k < i ==> (#[trigger] out@[k]).node_type == NodeType::BlockDevice
                    && out@[k].id_in_fs == k && out@[k].name@ == seq![0x62u8, 0x6cu8, 0x6bu8] + decimal(k as nat),
            decreases nb - i,
        {
            let name = name_with_number(blk.as_slice(), i);
            out.push(DevNode { node_type: NodeType::BlockDevice, name, id_in_fs: i });
            i = i + 1;
        }
        let nc = self.char_devices.len();
        let mut j: usize = 0;
        while j < nc
            invariant
                nb == self.block_devices@.len() <= MAX_BLOCK_DEVICES,
                nc == self.char_devices@.len() <= MAX_CHAR_DEVICES,
                chr@ == seq![0x63u8, 0x68u8, 0x72u8],
                j <= nc,
                out@.len() == nb + j,
                forall|k: int| 0 <= k < nb ==> (#[trigger] out@[k]).node_type == NodeType::BlockDevice
                    && out@[k].id_in_fs == k && out@[k].name@ == seq![0x62u8, 0x6cu8, 0x6bu8] + decimal(k as nat),
                forall|k: int| 0 <= k < j ==> (#[trigger] out@[nb + k]).node_type == NodeType::CharDevice
                    && out@[nb + k].id_in_fs == k + MAX_BLOCK_DEVICES && out@[nb + k].name@ == seq![0x63u8, 0x68u8, 0x72u8]
                    + decimal(k as nat),
            decreases nc - j,
        {
            let name = name_with_number(chr.as_slice(), j);
            out.push(DevNode { node_type: NodeType::CharDevice, name, id_in_fs: j + MAX_BLOCK_DEVICES });
            j = j + 1;
        }
        out
    }
}

/// The blocks a read of `len` bytes at `offset` spans on a device with
/// blocks of `block_size` bytes: the first block, how many, and how many
/// bytes of the first block come before the read.
pub fn block_span(offset: usize, len: usize, block_size: usize) -> (r: (usize, usize, usize))
    requires
        len > 0,
        block_size > 0,
        offset + len <= usize::MAX,
    ensures
        r.0 == offset / block_size,
        r.1 == (offset + len - 1) / (block_size as int) + 1 - offset / block_size,
        r.2 == offset % block_size,
{
    let start_block = offset / block_size;
    let end_block = (offset + len - 1) / block_size + 1;
    assert(start_block <= (offset + len - 1) / (block_size as int)) by (nonlinear_arith)
        requires
            start_block == offset / block_size,
            block_size > 0,
            len > 0,
    ;
    (start_block, end_block - start_block, offset % block_size)
}

} // verus!
