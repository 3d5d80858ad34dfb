use vstd::prelude::*;

use crate::bits::{
    byte_sum, le32, le64, lemma_byte_sum_concat, lemma_byte_sum_bound, lemma_byte_sum_short, lemma_le32_of_u32_at,
    lemma_le64_of_u64_at, read_u32_le, read_u64_le, sum_bytes, sum_le32, sum_le64, u32_at,
    u64_at,
};

verus! {

/// The signature that opens a root system description pointer: "RSD PTR ".
pub open spec fn rsdp_signature() -> Seq<u8> {
    seq![0x52u8, 0x53u8, 0x44u8, 0x20u8, 0x50u8, 0x54u8, 0x52u8, 0x20u8]
}

/// The root system description pointer of ACPI 1.0.
#[derive(Clone, Copy, Debug)]
pub struct OldRsdp {
    pub signature: [u8; 8],
    pub checksum: u8,
    pub oemid: [u8; 6],
    pub revision: u8,
    pub rsdt_phys_addr: u32,
}

/// Size in bytes of [`OldRsdp`] as laid out in memory.
pub const OLD_RSDP_SIZE: usize = 20;

impl OldRsdp {
    /// The bytes of the structure as laid out in memory.
    pub open spec fn raw(self) -> Seq<u8> {
        self.signature@ + seq![self.checksum] + self.oemid@ + seq![self.revision] + le32(
            self.rsdt_phys_addr,
        )
    }

    /// Reads the structure from the bytes it is laid out in.
    pub fn from_bytes(b: &[u8]) -> (r: OldRsdp)
        requires
            b@.len() >= OLD_RSDP_SIZE,
        ensures
            r.raw() == b@.subrange(0, OLD_RSDP_SIZE as int),
    {
        let mut signature = [0u8; 8];
        let mut i: usize = 0;
        while i < 8
            invariant
                i <= 8,
                b@.len() >= 20,
                forall|k: int| 0 <= k < i ==> signature@[k] == b@[k],
            decreases 8 - i,
        {
            signature[i] = b[i];
            i = i + 1;
        }
        let mut oemid = [0u8; 6];
        let mut j: usize = 0;
        while j < 6
            invariant
                j <= 6,
                b@.len() >= 20,
                forall|k: int| 0 <= k < j ==> oemid@[k] == b@[9 + k],
            decreases 6 - j,
        {
            oemid[j] = b[9 + j];
            j = j + 1;
        }
        let r = OldRsdp {
            signature,
            checksum: b[8],
            oemid,
            revision: b[15],
            rsdt_phys_addr: read_u32_le(b, 16),
        };
        proof {
            lemma_le32_of_u32_at(b@, 16);
            assert(r.raw() =~= b@.subrange(0, 20));
        }
        r
    }

    /// The signature matches and all bytes sum to zero modulo 256.
    pub fn is_valid(&self) -> (r: bool)
        ensures
            r == (self.signature@ == rsdp_signature() && byte_sum(self.raw()) % 256 == 0),
    {
        let expected: [u8; 8] = [0x52, 0x53, 0x44, 0x20, 0x50, 0x54, 0x52, 0x20];
        let mut i: usize = 0;
        while i < 8
            invariant
                i <= 8,
                expected@ == rsdp_signature(),
                forall|k: int| 0 <= k < i ==> self.signature@[k] == expected@[k],
            decreases 8 - i,
        {
            if self.signature[i] != expected[i] {
                assert(self.signature@[i as int] != rsdp_signature()[i as int]);
                return false;
            }
            i = i + 1;
        }
        assert(self.signature@ =~= rsdp_signature());
        if self.sum_fields() % 256 != 0 {
            return false;
        }
        true
    }

    /// The sum of all bytes of the structure.
    pub fn sum_fields(&self) -> (r: usize)
        ensures
            r == byte_sum(self.raw()),
            r <= 20 * 255,
    {
        let a = sum_bytes(self.signature.as_slice());
        let b = sum_bytes(self.oemid.as_slice());
        proof {
            lemma_byte_sum_bound(self.signature@);
            lemma_byte_sum_bound(self.oemid@);
            let s1 = self.signature@;
            let s2 = seq![self.checksum];
            let s3 = self.oemid@;
            let s4 = seq![self.revision];
            let s5 = le32(self.rsdt_phys_addr);
            lemma_byte_sum_concat(s1, s2);
            lemma_byte_sum_concat(s1 + s2, s3);
            lemma_byte_sum_concat(s1 + s2 + s3, s4);
            lemma_byte_sum_concat(s1 + s2 + s3 + s4, s5);
            lemma_byte_sum_short(self.checksum, 0);
            lemma_byte_sum_short(self.revision, 0);
        }
        a + self.checksum as usize + b + self.revision as usize + sum_le32(self.rsdt_phys_addr)
    }
}

/// The root system description pointer of ACPI 2.0 and later.
#[derive(Clone, Copy, Debug)]
pub struct NewRsdp {
    pub old_rsdp: OldRsdp,
    pub length: u32,
    pub xsdt_phys_addr: u64,
    pub ext_checksum: u8,
    pub reserved: [u8; 3],
}

impl NewRsdp {
    /// The bytes that follow the first part, as laid out in memory.
    pub open spec fn raw_ext(self) -> Seq<u8> {
        le32(self.length) + le64(self.xsdt_phys_addr) + seq![self.ext_checksum] + self.reserved@
    }

    /// The bytes of the whole structure as laid out in memory.
    pub open spec fn raw(self) -> Seq<u8> {
        self.old_rsdp.raw() + self.raw_ext()
    }

    /// Both the first part and the whole structure check out.
    pub fn is_valid(&self) -> (r: bool)
        ensures
            r == (self.old_rsdp.signature@ == rsdp_signature() && byte_sum(self.old_rsdp.raw())
                % 256 == 0 && byte_sum(self.raw()) % 256 == 0),
    {
        if !self.old_rsdp.is_valid() {
            return false;
        }
        if self.sum_fields() % 256 != 0 {
            return false;
        }
        true
    }

    fn sum_fields(&self) -> (r: usize)
        ensures
            r == byte_sum(self.raw()),
    {
        let reserved_sum = sum_bytes(self.reserved.as_slice());
        proof {
            lemma_byte_sum_bound(self.reserved@);
            let s1 = le32(self.length);
            let s2 = le64(self.xsdt_phys_addr);
            let s3 = seq![self.ext_checksum];
            let s4 = self.reserved@;
            lemma_byte_sum_concat(s1, s2);
            lemma_byte_sum_concat(s1 + s2, s3);
            lemma_byte_sum_concat(s1 + s2 + s3, s4);
            lemma_byte_sum_concat(self.old_rsdp.raw(), self.raw_ext());
            lemma_byte_sum_short(self.ext_checksum, 0);
        }
        self.old_rsdp.sum_fields() + sum_le32(self.length) + sum_le64(self.xsdt_phys_addr)
            + self.ext_checksum as usize + reserved_sum
    }
}

/// The header common to all system description tables.
#[derive(Clone, Copy, Debug)]
pub struct Sdt {
    pub signature: [u8; 4],
    pub length: u32,
    pub revision: u8,
    pub checksum: u8,
    pub oemid: [u8; 6],
    pub oemtableid: [u8; 8],
    pub oemrevision: u32,
    pub creator_id: u32,
    pub creator_revision: u32,
}

/// Size in bytes of [`Sdt`] as laid out in memory.
pub const SDT_SIZE: usize = 36;

impl Sdt {
    /// The bytes of the header as laid out in memory.
    pub open spec fn raw(self) -> Seq<u8> {
        self.signature@ + le32(self.length) + seq![self.revision, self.checksum] + self.oemid@
            + self.oemtableid@ + le32(self.oemrevision) + le32(self.creator_id) + le32(
            self.creator_revision,
        )
    }

    /// The sum of all bytes of the header.
    pub fn sum_fields(&self) -> (r: usize)
        ensures
            r == byte_sum(self.raw()),
            r <= 36 * 255,
    {
        let a = sum_bytes(self.signature.as_slice());
        let b = sum_bytes(self.oemid.as_slice());
        let c = sum_bytes(self.oemtableid.as_slice());
        proof {
            lemma_byte_sum_bound(self.signature@);
            lemma_byte_sum_bound(self.oemid@);
            lemma_byte_sum_bound(self.oemtableid@);
            let s1 = self.signature@;
            let s2 = le32(self.length);
            let s3 = seq![self.revision, self.checksum];
            let s4 = self.oemid@;
            let s5 = self.oemtableid@;
            let s6 = le32(self.oemrevision);
            let s7 = le32(self.creator_id);
            let s8 = le32(self.creator_revision);
            lemma_byte_sum_concat(s1, s2);
            lemma_byte_sum_concat(s1 + s2, s3);
            lemma_byte_sum_concat(s1 + s2 + s3, s4);
            lemma_byte_sum_concat(s1 + s2 + s3 + s4, s5);
            lemma_byte_sum_concat(s1 + s2 + s3 + s4 + s5, s6);
            lemma_byte_sum_concat(s1 + s2 + s3 + s4 + s5 + s6, s7);
            lemma_byte_sum_concat(s1 + s2 + s3 + s4 + s5 + s6 + s7, s8);
            lemma_byte_sum_short(self.revision, self.checksum);
        }
        a + sum_le32(self.length) + self.revision as usize + self.checksum as usize + b + c
            + sum_le32(self.oemrevision) + sum_le32(self.creator_id) + sum_le32(
            self.creator_revision,
        )
    }
}

/// The signature of the HPET description table: "HPET".
pub open spec fn hpet_signature() -> Seq<u8> {
    seq![0x48u8, 0x50u8, 0x45u8, 0x54u8]
}

/// The sum of the bytes of the RSDT: its header and its `num` entries.
pub open spec fn rsdt_sum(header: Sdt, body: Seq<u8>, num: int) -> nat {
    byte_sum(header.raw()) + byte_sum(body.subrange(0, 4 * num))
}

impl Sdt {
    /// Reads a header from the bytes it is laid out in.
    pub fn from_bytes(b: &[u8]) -> (r: Sdt)
        requires
            b@.len() >= SDT_SIZE,
        ensures
            r.raw() == b@.subrange(0, SDT_SIZE as int),
    {
        let mut signature = [0u8; 4];
        let mut oemid = [0u8; 6];
        let mut oemtableid = [0u8; 8];
        let mut i: usize = 0;
        while i < 8
            invariant
                i <= 8,
                b@.len() >= 36,
                forall|k: int| 0 <= k < i && k < 4 ==> signature@[k] == b@[k],
                forall|k: int| 0 <= k < i && k < 6 ==> oemid@[k] == b@[10 + k],
                forall|k: int| 0 <= k < i ==> oemtableid@[k] == b@[16 + k],
            decreases 8 - i,
        {
            if i < 4 {
                signature[i] = b[i];
            }
            if i < 6 {
                oemid[i] = b[10 + i];
            }
            oemtableid[i] = b[16 + i];
            i = i + 1;
        }
        let r = Sdt {
            signature,
            length: read_u32_le(b, 4),
            revision: b[8],
            checksum: b[9],
            oemid,
            oemtableid,
            oemrevision: read_u32_le(b, 24),
            creator_id: read_u32_le(b, 28),
            creator_revision: read_u32_le(b, 32),
        };
        proof {
            lemma_le32_of_u32_at(b@, 4);
            lemma_le32_of_u32_at(b@, 24);
            lemma_le32_of_u32_at(b@, 28);
            lemma_le32_of_u32_at(b@, 32);
            assert(r.raw() =~= b@.subrange(0, 36));
        }
        r
    }

    /// Whether this is the header of the HPET description table.
    pub fn is_hpet(&self) -> (r: bool)
        ensures
            r == (self.signature@ == hpet_signature()),
    {
        let r = self.signature[0] == 0x48 && self.signature[1] == 0x50 && self.signature[2] == 0x45
            && self.signature[3] == 0x54;
        proof {
            if r {
                assert(self.signature@ =~= hpet_signature());
            }
        }
        r
    }

    /// Taking this as the header of the RSDT and `body` as the bytes that
    /// follow it, the physical addresses of the other tables, one per four
    /// bytes; `None` when the bytes of the header and the entries do not sum
    /// to zero modulo 256.
    pub fn rsdt_entries(&self, body: &[u8]) -> (r: Option<Vec<u32>>)
        requires
            self.length >= SDT_SIZE,
            body@.len() >= (self.length - SDT_SIZE) as int / 4 * 4,
        ensures
            ({
                let num = (self.length - SDT_SIZE) as int / 4;
                match r {
                    None => rsdt_sum(*self, body@, num) % 256 != 0,
                    Some(v) => rsdt_sum(*self, body@, num) % 256 == 0 && v@.len() == num
                        && forall|k: int| 0 <= k < num ==> #[trigger] v@[k] == u32_at(body@, 4 * k),
                }
            }),
    {
        let num = (self.length as usize - SDT_SIZE) / 4;
        let n = body.len();
        let mut entries: Vec<u32> = Vec::new();
        let mut sum: usize = self.sum_fields() % 256;
        let mut i: usize = 0;
        while i < num
            invariant
                i <= num,
                num == (self.length - SDT_SIZE) as int / 4,
                n == body@.len(),
                4 * num <= n,
                sum < 256,
                sum == (byte_sum(self.raw()) + byte_sum(body@.subrange(0, 4 * i))) % 256,
                entries@.len() == i,
                forall|k: int| 0 <= k < i ==> #[trigger] entries@[k] == u32_at(body@, 4 * k),
            decreases num - i,
        {
            let x = read_u32_le(body, 4 * i);
            proof {
                lemma_le32_of_u32_at(body@, 4 * i);
                lemma_byte_sum_concat(body@.subrange(0, 4 * i), body@.subrange(4 * i, 4 * i + 4));
                assert(body@.subrange(0, 4 * i) + body@.subrange(4 * i, 4 * i + 4) =~= body@.subrange(
                    0,
                    4 * i + 4,
                ));
            }
            sum = (sum + sum_le32(x)) % 256;
            entries.push(x);
            i = i + 1;
        }
        if sum != 0 {
            None
        } else {
            Some(entries)
        }
    }
}

} // verus!
