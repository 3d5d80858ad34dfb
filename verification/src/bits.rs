use vstd::prelude::*;

verus! {

/// Bit `i` of `x`.
pub open spec fn bit64(x: u64, i: u64) -> bool {
    (x >> i) & 1u64 != 0u64
}

/// `x` with bit `i` set to `v`.
pub open spec fn with_bit64(x: u64, i: u64, v: bool) -> u64 {
    if v {
        x | (1u64 << i)
    } else {
        x & !(1u64 << i)
    }
}

/// Setting one bit leaves every other bit as it was.
pub proof fn lemma_with_bit64(x: u64, i: u64, j: u64, v: bool)
    requires
        i < 64,
        j < 64,
    ensures
        bit64(with_bit64(x, i, v), j) == (if i == j { v } else { bit64(x, j) }),
{
    assert(((x | (1u64 << i)) >> j) & 1u64 == (if i == j { 1u64 } else { (x >> j) & 1u64 })
        && ((x & !(1u64 << i)) >> j) & 1u64 == (if i == j { 0u64 } else { (x >> j) & 1u64 }))
        by (bit_vector)
        requires
            i < 64,
            j < 64,
    ;
}

/// Small fields extracted from a 64-bit value are bounded by their width.
pub proof fn lemma_u64_fields(x: u64, s: u64)
    by (bit_vector)
    ensures
        (x >> s) & 1u64 <= 1u64,
        (x >> s) & 0b11111u64 < 32u64,
        (x >> s) & 0xFFu64 <= 0xFFu64,
{
}

/// Small fields extracted from a 32-bit value are bounded by their width.
pub proof fn lemma_u32_fields(x: u32, s: u32)
    by (bit_vector)
    ensures
        (x >> s) & 1u32 <= 1u32,
        (x >> s) & 0b11111u32 < 32u32,
        (x >> s) & 0xFFu32 <= 0xFFu32,
        (x >> s) & 0x3FFu32 < 1024u32,
{
}

/// Bit `i` of a 32-bit value.
pub open spec fn bit32(x: u32, i: u32) -> bool {
    (x >> i) & 1u32 != 0u32
}

/// `x` with bit `i` set to `v`.
pub open spec fn with_bit32(x: u32, i: u32, v: bool) -> u32 {
    if v {
        x | (1u32 << i)
    } else {
        x & !(1u32 << i)
    }
}

/// Setting one bit of a 32-bit value leaves every other bit as it was.
pub proof fn lemma_with_bit32(x: u32, i: u32, j: u32, v: bool)
    requires
        i < 32,
        j < 32,
    ensures
        bit32(with_bit32(x, i, v), j) == (if i == j { v } else { bit32(x, j) }),
{
    assert(((x | (1u32 << i)) >> j) & 1u32 == (if i == j { 1u32 } else { (x >> j) & 1u32 })
        && ((x & !(1u32 << i)) >> j) & 1u32 == (if i == j { 0u32 } else { (x >> j) & 1u32 }))
        by (bit_vector)
        requires
            i < 32,
            j < 32,
    ;
}

} // verus!

verus! {

/// The little-endian bytes of a 16-bit value.
pub open spec fn le16(x: u16) -> Seq<u8> {
    seq![(x & 0xffu16) as u8, ((x >> 8u16) & 0xffu16) as u8]
}

/// The little-endian bytes of a 32-bit value.
pub open spec fn le32(x: u32) -> Seq<u8> {
    seq![
        (x & 0xffu32) as u8,
        ((x >> 8u32) & 0xffu32) as u8,
        ((x >> 16u32) & 0xffu32) as u8,
        ((x >> 24u32) & 0xffu32) as u8,
    ]
}

/// The little-endian bytes of a 64-bit value.
pub open spec fn le64(x: u64) -> Seq<u8> {
    le32((x & 0xffff_ffffu64) as u32) + le32(((x >> 32u64) & 0xffff_ffffu64) as u32)
}

/// The 16-bit value stored little-endian at `off`.
pub open spec fn u16_at(s: Seq<u8>, off: int) -> u16 {
    (s[off] as u16) | ((s[off + 1] as u16) << 8u16)
}

/// The 32-bit value stored little-endian at `off`.
pub open spec fn u32_at(s: Seq<u8>, off: int) -> u32 {
    (s[off] as u32) | ((s[off + 1] as u32) << 8u32) | ((s[off + 2] as u32) << 16u32) | ((s[off
        + 3] as u32) << 24u32)
}

/// The 64-bit value stored little-endian at `off`.
pub open spec fn u64_at(s: Seq<u8>, off: int) -> u64 {
    (u32_at(s, off) as u64) | ((u32_at(s, off + 4) as u64) << 32u64)
}

pub fn read_u16_le(b: &[u8], off: usize) -> (r: u16)
    requires
        off + 2 <= b@.len(),
    ensures
        r == u16_at(b@, off as int),
{
    (b[off] as u16) | ((b[off + 1] as u16) << 8u16)
}

pub fn read_u32_le(b: &[u8], off: usize) -> (r: u32)
    requires
        off + 4 <= b@.len(),
    ensures
        r == u32_at(b@, off as int),
{
    (b[off] as u32) | ((b[off + 1] as u32) << 8u32) | ((b[off + 2] as u32) << 16u32) | ((b[off
        + 3] as u32) << 24u32)
}

pub fn read_u64_le(b: &[u8], off: usize) -> (r: u64)
    requires
        off + 8 <= b@.len(),
    ensures
        r == u64_at(b@, off as int),
{
    let _len = b.len();
    let lo = read_u32_le(b, off);
    let hi = read_u32_le(b, off + 4);
    (lo as u64) | ((hi as u64) << 32u64)
}

/// The bytes of a 32-bit value read little-endian are the bytes it was read
/// from.
pub proof fn lemma_le32_of_u32_at(s: Seq<u8>, off: int)
    requires
        0 <= off,
        off + 4 <= s.len(),
    ensures
        le32(u32_at(s, off)) == s.subrange(off, off + 4),
{
    let b0 = s[off];
    let b1 = s[off + 1];
    let b2 = s[off + 2];
    let b3 = s[off + 3];
    let x = u32_at(s, off);
    assert(x & 0xffu32 == b0 as u32 && ((x >> 8u32) & 0xffu32) == b1 as u32 && ((x >> 16u32)
        & 0xffu32) == b2 as u32 && ((x >> 24u32) & 0xffu32) == b3 as u32) by (bit_vector)
        requires
            x == (b0 as u32) | ((b1 as u32) << 8u32) | ((b2 as u32) << 16u32) | ((b3 as u32)
                << 24u32),
    ;
    assert(le32(x) =~= s.subrange(off, off + 4));
}

/// The bytes of a 16-bit value read little-endian are the bytes it was read
/// from.
pub proof fn lemma_le16_of_u16_at(s: Seq<u8>, off: int)
    requires
        0 <= off,
        off + 2 <= s.len(),
    ensures
        le16(u16_at(s, off)) == s.subrange(off, off + 2),
{
    let b0 = s[off];
    let b1 = s[off + 1];
    let x = u16_at(s, off);
    assert(x & 0xffu16 == b0 as u16 && ((x >> 8u16) & 0xffu16) == b1 as u16) by (bit_vector)
        requires
            x == (b0 as u16) | ((b1 as u16) << 8u16),
    ;
    assert(le16(x) =~= s.subrange(off, off + 2));
}

/// The bytes of a 64-bit value read little-endian are the bytes it was read
/// from.
pub proof fn lemma_le64_of_u64_at(s: Seq<u8>, off: int)
    requires
        0 <= off,
        off + 8 <= s.len(),
    ensures
        le64(u64_at(s, off)) == s.subrange(off, off + 8),
{
    let lo = u32_at(s, off);
    let hi = u32_at(s, off + 4);
    let x = u64_at(s, off);
    assert(((x & 0xffff_ffffu64) as u32) == lo && (((x >> 32u64) & 0xffff_ffffu64) as u32) == hi)
        by (bit_vector)
        requires
            x == (lo as u64) | ((hi as u64) << 32u64),
    ;
    lemma_le32_of_u32_at(s, off);
    lemma_le32_of_u32_at(s, off + 4);
    assert(s.subrange(off, off + 8) =~= s.subrange(off, off + 4) + s.subrange(off + 4, off + 8));
}

/// The sum of a sequence of bytes.
pub open spec fn byte_sum(s: Seq<u8>) -> nat
    decreases s.len(),
{
    if s.len() == 0 {
        0
    } else {
        byte_sum(s.drop_last()) + (s.last() as nat)
    }
}

/// The sum of two concatenated sequences is the sum of their sums.
pub proof fn lemma_byte_sum_concat(a: Seq<u8>, b: Seq<u8>)
    ensures
        byte_sum(a + b) == byte_sum(a) + byte_sum(b),
    decreases b.len(),
{
    if b.len() == 0 {
        assert(a + b =~= a);
    } else {
        assert((a + b).drop_last() =~= a + b.drop_last());
        lemma_byte_sum_concat(a, b.drop_last());
    }
}

/// The sum of one or two bytes.
pub proof fn lemma_byte_sum_short(a: u8, b: u8)
    ensures
        byte_sum(seq![a]) == a,
        byte_sum(seq![a, b]) == a + b,
{
    reveal_with_fuel(byte_sum, 3);
    assert(seq![a].drop_last() =~= Seq::<u8>::empty());
    assert(seq![a, b].drop_last() =~= seq![a]);
}

/// Every byte adds at most 255 to the sum.
pub proof fn lemma_byte_sum_bound(s: Seq<u8>)
    ensures
        byte_sum(s) <= 255 * s.len(),
    decreases s.len(),
{
    if s.len() > 0 {
        lemma_byte_sum_bound(s.drop_last());
    }
}

/// Sums the bytes of a slice.
pub fn sum_bytes(b: &[u8]) -> (r: usize)
    requires
        b@.len() <= 0x10000,
    ensures
        r == byte_sum(b@),
{
    let mut acc: usize = 0;
    let mut i: usize = 0;
    while i < b.len()
        invariant
            i <= b@.len(),
            b@.len() <= 0x10000,
            acc == byte_sum(b@.take(i as int)),
        decreases b@.len() - i,
    {
        proof {
            assert(b@.take(i as int + 1).drop_last() =~= b@.take(i as int));
            lemma_byte_sum_bound(b@.take(i as int));
        }
        acc = acc + b[i] as usize;
        i = i + 1;
    }
    assert(b@.take(i as int) =~= b@);
    acc
}

/// Sums the little-endian bytes of a 32-bit value.
pub fn sum_le32(x: u32) -> (r: usize)
    ensures
        r == byte_sum(le32(x)),
        r <= 4 * 255,
{
    let a = x & 0xff;
    let b = (x >> 8u32) & 0xff;
    let c = (x >> 16u32) & 0xff;
    let d = (x >> 24u32) & 0xff;
    assert(a <= 0xff && b <= 0xff && c <= 0xff && d <= 0xff) by (bit_vector)
        requires
            a == x & 0xff,
            b == (x >> 8u32) & 0xff,
            c == (x >> 16u32) & 0xff,
            d == (x >> 24u32) & 0xff,
    ;
    proof {
        reveal_with_fuel(byte_sum, 5);
        let s = le32(x);
        assert(s.drop_last().drop_last().drop_last().drop_last() =~= Seq::<u8>::empty());
        assert(s.drop_last().drop_last().drop_last() =~= seq![s[0]]);
        assert(s.drop_last().drop_last() =~= seq![s[0], s[1]]);
        assert(s.drop_last() =~= seq![s[0], s[1], s[2]]);
    }
    (a as usize) + (b as usize) + (c as usize) + (d as usize)
}

/// Sums the little-endian bytes of a 64-bit value.
pub fn sum_le64(x: u64) -> (r: usize)
    ensures
        r == byte_sum(le64(x)),
        r <= 8 * 255,
{
    let lo = (x & 0xffff_ffffu64) as u32;
    let hi = ((x >> 32u64) & 0xffff_ffffu64) as u32;
    proof {
        lemma_byte_sum_concat(le32(lo), le32(hi));
    }
    sum_le32(lo) + sum_le32(hi)
}

} // verus!

verus! {

/// Setting or clearing a flag bit (below bit 12) keeps the page address bits.
pub proof fn lemma_flag_keeps_addr(v: u32, k: u32, b: bool)
    requires
        k < 12,
    ensures
        with_bit32(v, k, b) & !0xFFFu32 == v & !0xFFFu32,
{
    assert((v | (1u32 << k)) & !0xFFFu32 == v & !0xFFFu32 && (v & !(1u32 << k)) & !0xFFFu32 == v
        & !0xFFFu32) by (bit_vector)
        requires
            k < 12,
    ;
}

/// Replacing the page address bits of an entry keeps its flag bits.
pub proof fn lemma_set_addr_bits(v: u32, a: u32, k: u32)
    requires
        a & 0xFFFu32 == 0,
        k < 12,
    ensures
        (a | (v & 0xFFFu32)) & !0xFFFu32 == a,
        (a | (v & 0xFFFu32)) & 0xFFFu32 == v & 0xFFFu32,
        bit32(a | (v & 0xFFFu32), k) == bit32(v, k),
{
    assert((a | (v & 0xFFFu32)) & !0xFFFu32 == a && (a | (v & 0xFFFu32)) & 0xFFFu32 == v
        & 0xFFFu32 && (((a | (v & 0xFFFu32)) >> k) & 1u32 != 0u32) == ((v >> k) & 1u32 != 0u32))
        by (bit_vector)
        requires
            a & 0xFFFu32 == 0,
            k < 12,
    ;
}

} // verus!

verus! {

/// Rounding down to a page boundary never increases an address.
pub proof fn lemma_align_down_le(x: usize)
    ensures
        x & !0xFFFusize <= x,
{
    assert(x & !0xFFFusize <= x) by (bit_vector);
}

/// `x` rounded up to a page boundary; meaningful for `x` at most
/// `usize::MAX - 0xFFF`.
pub open spec fn page_up(x: usize) -> usize {
    ((x + 0xFFFusize) as usize) & !0xFFFusize
}

/// `x` rounded down to a page boundary.
pub open spec fn page_down(x: usize) -> usize {
    x & !0xFFFusize
}

/// Rounding down to a page boundary gives a page-aligned address that is
/// not above `x` and less than a page below it.
pub proof fn lemma_page_down(x: usize)
    ensures
        page_down(x) <= x,
        x < page_down(x) + 4096,
        page_down(x) % 4096 == 0,
{
    assert(x & !0xFFFusize <= x && x < (x & !0xFFFusize) + 4096 && (x & !0xFFFusize) % 4096 == 0)
        by (bit_vector);
}

/// Rounding up to a page boundary gives a page-aligned address that is not
/// below `x` and less than a page above it.
pub proof fn lemma_page_up(x: usize)
    requires
        x <= usize::MAX - 0xFFF,
    ensures
        x <= page_up(x),
        page_up(x) <= x + 0xFFF,
        page_up(x) % 4096 == 0,
{
    let y = (x + 0xFFFusize) as usize;
    assert(y == x + 0xFFF);
    assert(x <= y & !0xFFFusize && y & !0xFFFusize <= x + 0xFFF && (y & !0xFFFusize) % 4096 == 0)
        by (bit_vector)
        requires
            y == x + 0xFFF,
    ;
}

} // verus!

verus! {

/// A 32-bit address is page-aligned exactly when it is a multiple of 4096.
pub proof fn lemma_page_aligned_u32(x: u32)
    ensures
        (x & 0xFFFu32 == 0) == (x % 4096 == 0),
        x & 0xFFFu32 == 0 ==> x & !0xFFFu32 == x,
{
    assert((x & 0xFFFu32 == 0) == (x % 4096 == 0) && (x & 0xFFFu32 == 0 ==> x & !0xFFFu32 == x))
        by (bit_vector);
}

} // verus!
