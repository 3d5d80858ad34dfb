use vstd::prelude::*;

use crate::memory_region::Region;

verus! {

/// Size in bytes of a tag on the 32-bit target: two magic words, the value
/// and the alignment.
pub const TAG_SIZE: usize = 16;

pub const TAG_MAGIC_1: u32 = 0xDEAD_BEEF;
pub const TAG_MAGIC_2: u32 = 0xCAFE_BABE;

/// Size of the kernel heap: 4 MiB.
pub const KERNEL_HEAP_SIZE: usize = 0x40_0000;

/// The header of a heap chunk: the address of the next tag with the lowest
/// bit telling whether the chunk is used, and the alignment the chunk was
/// allocated with.  The end tag has the value zero.
#[derive(Clone, Copy, Debug, PartialEq, Eq, Structural)]
pub struct Tag {
    pub magic_1: u32,
    pub value: usize,
    pub align: usize,
    pub magic_2: u32,
}

/// A tag built from its parts.
pub open spec fn tag_of(used: bool, align: usize, next: usize) -> Tag {
    Tag {
        magic_1: TAG_MAGIC_1,
        value: (next + if used { 1usize } else { 0usize }) as usize,
        align,
        magic_2: TAG_MAGIC_2,
    }
}

/// `x` is a power of two.
pub open spec fn is_power_of_two(x: usize) -> bool {
    x != 0 && x & ((x - 1) as usize) == 0
}

proof fn lemma_low_bit(x: usize)
    ensures
        x & 1 == x % 2,
        x & !1usize == x - x % 2,
        x | 1 == x - x % 2 + 1,
{
    assert(x & 1 == x % 2 && x & !1usize == x - x % 2 && x | 1 == x - x % 2 + 1) by (bit_vector);
}

impl Tag {
    pub open spec fn spec_used(self) -> bool {
        self.value % 2 == 1
    }

    pub open spec fn spec_is_end(self) -> bool {
        self.value == 0
    }

    pub open spec fn spec_next(self) -> usize {
        (self.value - self.value % 2) as usize
    }

    pub open spec fn magic_ok(self) -> bool {
        self.magic_1 == TAG_MAGIC_1 && self.magic_2 == TAG_MAGIC_2
    }

    /// A tag of a chunk that ends at `next_tag`, an even address.
    pub fn new(used: bool, align: usize, next_tag: usize) -> (r: Tag)
        requires
            next_tag % 2 == 0,
            is_power_of_two(align),
        ensures
            r == tag_of(used, align, next_tag),
            r.magic_ok(),
            r.align == align,
            r.spec_next() == next_tag,
            r.spec_used() == used,
            r.value == next_tag + if used { 1usize } else { 0usize },
    {
        proof {
            lemma_low_bit(next_tag);
        }
        Tag {
            magic_1: TAG_MAGIC_1,
            value: if used {
                next_tag | 1
            } else {
                next_tag
            },
            align,
            magic_2: TAG_MAGIC_2,
        }
    }

    /// Whether both magic words are intact.
    pub fn check_magic(&self) -> (r: bool)
        ensures
            r == self.magic_ok(),
    {
        self.magic_1 == TAG_MAGIC_1 && self.magic_2 == TAG_MAGIC_2
    }

    pub fn is_used(&self) -> (r: bool)
        ensures
            r == self.spec_used(),
    {
        proof {
            lemma_low_bit(self.value);
        }
        self.value & 1 == 1
    }

    pub fn is_end_tag(&self) -> (r: bool)
        ensures
            r == self.spec_is_end(),
    {
        self.value == 0
    }

    pub fn next_tag_addr(&self) -> (r: usize)
        ensures
            r == self.spec_next(),
    {
        proof {
            lemma_low_bit(self.value);
        }
        self.value & !1usize
    }

    pub fn align(&self) -> (r: usize)
        ensures
            r == self.align,
    {
        self.align
    }

    /// The size of the chunk of this tag, which lies at `at`: from the end
    /// of the tag to the next tag; zero for the end tag.
    pub fn chunk_size(&self, at: usize) -> (r: usize)
        requires
            !self.spec_is_end() ==> at + TAG_SIZE < self.spec_next(),
        ensures
            r == if self.spec_is_end() {
                0
            } else {
                self.spec_next() - at - TAG_SIZE
            },
    {
        if self.is_end_tag() {
            0
        } else {
            self.next_tag_addr() - (at + TAG_SIZE)
        }
    }

    pub fn set_used(&mut self, used: bool)
        ensures
            final(self).spec_used() == used,
            final(self).spec_next() == old(self).spec_next(),
            final(self).align == old(self).align,
            final(self).magic_1 == old(self).magic_1,
            final(self).magic_2 == old(self).magic_2,
            final(self).value == old(self).spec_next() + if used { 1usize } else { 0usize },
    {
        proof {
            lemma_low_bit(self.value);
        }
        if used {
            self.value = self.value | 1;
        } else {
            self.value = self.value & !1usize;
        }
        proof {
            lemma_low_bit(self.value);
        }
    }
}

/// Tag `i` of the chain links to tag `i + 1`: it is not the end tag, it
/// ends where the next one starts, and its chunk is not empty.
pub open spec fn links(t: Seq<(usize, Tag)>, i: int) -> bool {
    &&& !t[i].1.spec_is_end()
    &&& t[i].1.spec_next() == t[i + 1].0
    &&& t[i].0 + TAG_SIZE < t[i + 1].0
}

/// The tags of a heap over `start..end`, in address order: the first at the
/// start, each linking to the next, and the end tag at the very end.
pub open spec fn chain_ok(t: Seq<(usize, Tag)>, start: usize, end: usize) -> bool {
    &&& t.len() >= 2
    &&& t[0].0 == start
    &&& t.last().0 + TAG_SIZE == end
    &&& t.last().1.spec_is_end()
    &&& forall|i: int| 0 <= i < t.len() ==> (#[trigger] t[i]).1.magic_ok() && t[i].0 % 2 == 0
    &&& forall|i: int| 0 <= i < t.len() - 1 ==> #[trigger] links(t, i)
}

/// The size of the chunk of tag `i`.
pub open spec fn spec_chunk_size(t: Seq<(usize, Tag)>, i: int) -> int {
    if t[i].1.spec_is_end() {
        0
    } else {
        t[i].1.spec_next() - t[i].0 - TAG_SIZE
    }
}

/// The free bytes of the chunks of the first `n` tags.
pub open spec fn free_bytes(t: Seq<(usize, Tag)>, n: int) -> int
    decreases n,
{
    if n <= 0 {
        0
    } else {
        free_bytes(t, n - 1) + if !t[n - 1].1.spec_used() {
            spec_chunk_size(t, n - 1)
        } else {
            0
        }
    }
}

/// The kernel heap: its region, the smallest chunk it splits off, and its
/// chain of tags.
pub struct Heap {
    pub region: Region,
    pub min_chunk_size: usize,
    pub tags: Vec<(usize, Tag)>,
}

impl Heap {
    pub open spec fn wf(&self) -> bool {
        &&& self.min_chunk_size >= 1
        &&& chain_ok(self.tags@, self.region.start, self.region.end)
    }

    /// A heap over `region`: one free chunk from its start to an end tag at
    /// its very end.  The region must hold two tags and more, and start and
    /// end at even addresses.
    pub fn new(region: Region) -> (r: Heap)
        requires
            region.start + 2 * TAG_SIZE < region.end,
            region.start % 2 == 0,
            region.end % 2 == 0,
        ensures
            r.wf(),
            r.region == region,
            r.min_chunk_size == 1,
            r.tags@.len() == 2,
            !r.tags@[0].1.spec_used(),
            r.tags@[0].1.align == 1,
            r.tags@[1].0 == region.end - TAG_SIZE,
            plain_free_tags(r.tags@),
            no_adjacent_free(r.tags@),
    {
        let end_at = region.end - TAG_SIZE;
        assert(1usize & ((1 - 1) as usize) == 0) by (bit_vector);
        let start_tag = Tag::new(false, 1, end_at);
        let end_tag = Tag::new(false, 1, 0);
        let mut tags: Vec<(usize, Tag)> = Vec::new();
        tags.push((region.start, start_tag));
        tags.push((end_at, end_tag));
        let h = Heap { region, min_chunk_size: 1, tags };
        assert(links(h.tags@, 0));
        assert(not_both_free(h.tags@, 0));
        h
    }

    /// The free bytes of the heap.
    pub fn total_free(&self) -> (r: usize)
        requires
            self.wf(),
        ensures
            r == free_bytes(self.tags@, self.tags@.len() as int),
    {
        let t = &self.tags;
        let mut total: usize = 0;
        let mut i: usize = 0;
        while i < t.len()
            invariant
                chain_ok(t@, self.region.start, self.region.end),
                i <= t@.len(),
                total == free_bytes(t@, i as int),
                total <= t@[i as int].0 - t@[0].0 || i == t@.len(),
                i == t@.len() ==> total <= t@.last().0,
            decreases t@.len() - i,
        {
            let (at, tag) = t[i];
            if !tag.is_used() {
                if !tag.is_end_tag() {
                    proof {
                        assert(links(t@, i as int));
                    }
                    total = total + tag.chunk_size(at);
                }
            }
            proof {
                if i + 1 < t@.len() {
                    assert(links(t@, i as int));
                }
            }
            i = i + 1;
        }
        total
    }
}

/// A free tag that is not the end tag.
pub open spec fn free_chunk(x: (usize, Tag)) -> bool {
    !x.1.spec_used() && !x.1.spec_is_end()
}

/// The tag that heads a run of merged free chunks that ends at `next`.
pub open spec fn merged_tag(at: usize, next: usize) -> (usize, Tag) {
    (at, Tag { magic_1: TAG_MAGIC_1, value: next, align: 1, magic_2: TAG_MAGIC_2 })
}

/// The chain from tag `k` on, joined onto `acc`, where the last `run` tags
/// looked at were free: each run of two or more free chunks becomes its
/// first tag, which then reaches to the end of the run.
pub open spec fn join_from(t: Seq<(usize, Tag)>, k: int, acc: Seq<(usize, Tag)>, run: int) -> Seq<(usize, Tag)>
    decreases t.len() - k,
{
    if k >= t.len() || k < 0 {
        acc
    } else if free_chunk(t[k]) {
        if run == 0 {
            join_from(t, k + 1, acc.push(t[k]), 1)
        } else {
            join_from(t, k + 1, acc, run + 1)
        }
    } else {
        let acc2 = if run >= 2 && acc.len() > 0 {
            acc.update(acc.len() - 1, merged_tag(acc.last().0, t[k].0))
        } else {
            acc
        };
        join_from(t, k + 1, acc2.push(t[k]), 0)
    }
}

/// The chain with its runs of free chunks joined.
pub open spec fn spec_join(t: Seq<(usize, Tag)>) -> Seq<(usize, Tag)> {
    join_from(t, 0, Seq::empty(), 0)
}


/// Tags `i` and `i + 1` are not both free chunks.
pub open spec fn not_both_free(t: Seq<(usize, Tag)>, i: int) -> bool {
    !(free_chunk(t[i]) && free_chunk(t[i + 1]))
}

/// No two adjacent tags of the chain head free chunks.
pub open spec fn no_adjacent_free(t: Seq<(usize, Tag)>) -> bool {
    forall|i: int| 0 <= i < t.len() - 1 ==> #[trigger] not_both_free(t, i)
}

/// Tags lie in increasing address order along a chain.
proof fn lemma_chain_increasing(t: Seq<(usize, Tag)>, s: usize, e: usize, i: int, j: int)
    requires
        chain_ok(t, s, e),
        0 <= i < j < t.len(),
    ensures
        t[i].0 + TAG_SIZE < t[j].0,
    decreases j - i,
{
    assert(links(t, j - 1));
    if i < j - 1 {
        lemma_chain_increasing(t, s, e, i, j - 1);
    }
}

/// What holds of the chain joined so far, after looking at the first `k`
/// tags.
pub open spec fn join_inv(t: Seq<(usize, Tag)>, k: int, acc: Seq<(usize, Tag)>, run: int) -> bool {
    &&& acc.len() >= 1
    &&& acc[0].0 == t[0].0
    &&& 0 <= run <= k
    &&& run == 0 ==> acc.last() == t[k - 1] && !free_chunk(t[k - 1])
    &&& run >= 1 ==> acc.last() == t[k - run] && forall|j: int| k - run <= j < k ==> #[trigger] free_chunk(t[j])
    &&& forall|j: int| 0 <= j < acc.len() ==> (#[trigger] acc[j]).1.magic_ok() && acc[j].0 % 2 == 0
    &&& forall|j: int| 0 <= j < acc.len() - 1 ==> #[trigger] links(acc, j)
    &&& no_adjacent_free(acc)
}

proof fn lemma_join_from(t: Seq<(usize, Tag)>, s: usize, e: usize, k: int, acc: Seq<(usize, Tag)>, run: int)
    requires
        chain_ok(t, s, e),
        1 <= k <= t.len(),
        join_inv(t, k, acc, run),
    ensures
        chain_ok(join_from(t, k, acc, run), s, e),
        no_adjacent_free(join_from(t, k, acc, run)),
    decreases t.len() - k,
{
    if k == t.len() {
        if run >= 1 {
            assert(free_chunk(t[k - 1]));
        }
        lemma_chain_increasing(t, s, e, 0, t.len() - 1);
        assert(acc.len() >= 2);
    } else {
        assert(links(t, k - 1));
        let x = t[k];
        if free_chunk(x) {
            if run == 0 {
                let acc2 = acc.push(x);
                assert(links(acc2, acc.len() - 1));
                assert forall|j: int| 0 <= j < acc2.len() - 1 implies #[trigger] links(acc2, j) by {
                    if j < acc.len() - 1 {
                        assert(links(acc, j));
                    }
                }
                assert forall|j: int| 0 <= j < acc2.len() - 1 implies #[trigger] not_both_free(acc2, j) by {
                    if j < acc.len() - 1 {
                        assert(not_both_free(acc, j));
                    }
                }
                assert forall|j: int| k + 1 - 1 <= j < k + 1 implies #[trigger] free_chunk(t[j]) by {}
                lemma_join_from(t, s, e, k + 1, acc2, 1);
            } else {
                assert forall|j: int| k + 1 - (run + 1) <= j < k + 1 implies #[trigger] free_chunk(t[j]) by {
                    if j < k {
                        assert(free_chunk(t[j]));
                    }
                }
                lemma_join_from(t, s, e, k + 1, acc, run + 1);
            }
        } else {
            let acc2 = if run >= 2 && acc.len() > 0 {
                acc.update(acc.len() - 1, merged_tag(acc.last().0, x.0))
            } else {
                acc
            };
            let acc3 = acc2.push(x);
            if run >= 2 {
                lemma_chain_increasing(t, s, e, k - run, k);
                assert(free_chunk(t[k - run]));
            }
            if run == 1 {
                assert(free_chunk(t[k - 1]));
            }
            assert(acc2.len() == acc.len());
            assert(acc2.last().0 == acc.last().0);
            assert(links(acc3, acc2.len() - 1));
            assert forall|j: int| 0 <= j < acc3.len() implies (#[trigger] acc3[j]).1.magic_ok() && acc3[j].0 % 2 == 0 by {
                if j < acc.len() {
                    assert(acc[j].1.magic_ok() && acc[j].0 % 2 == 0);
                }
            }
            assert forall|j: int| 0 <= j < acc3.len() - 1 implies #[trigger] links(acc3, j) by {
                if j < acc.len() - 1 {
                    assert(links(acc, j));
                }
            }
            assert forall|j: int| 0 <= j < acc3.len() - 1 implies #[trigger] not_both_free(acc3, j) by {
                if j < acc.len() - 1 {
                    assert(not_both_free(acc, j));
                    if j == acc.len() - 2 && run >= 2 {
                        assert(free_chunk(acc.last()));
                    }
                }
            }
            lemma_join_from(t, s, e, k + 1, acc3, 0);
        }
    }
}

/// Joining the free chunks of a well-formed chain gives a well-formed chain
/// over the same region in which no two adjacent chunks are free.
pub proof fn lemma_join_keeps_chain(t: Seq<(usize, Tag)>, s: usize, e: usize)
    requires
        chain_ok(t, s, e),
    ensures
        chain_ok(spec_join(t), s, e),
        no_adjacent_free(spec_join(t)),
{
    let acc = seq![t[0]];
    let run: int = if free_chunk(t[0]) { 1 } else { 0 };
    assert(spec_join(t) == join_from(t, 1, acc, run));
    assert(t[0] == t[0]);
    assert(forall|j: int| 0 <= j < acc.len() ==> (#[trigger] acc[j]) == t[0]);
    lemma_join_from(t, s, e, 1, acc, run);
}

/// Joining keeps every free chunk's tag plain.
proof fn lemma_join_plain(t: Seq<(usize, Tag)>, s: usize, e: usize, k: int, acc: Seq<(usize, Tag)>, run: int)
    requires
        chain_ok(t, s, e),
        plain_free_tags(t),
        plain_free_tags(acc),
        0 <= k,
    ensures
        plain_free_tags(join_from(t, k, acc, run)),
    decreases t.len() - k,
{
    if 0 <= k < t.len() {
        assert(t[k].0 % 2 == 0);
        let x = t[k];
        if free_chunk(x) {
            if run == 0 {
                let acc2 = acc.push(x);
                assert forall|j: int| 0 <= j < acc2.len() && #[trigger] free_chunk(acc2[j]) implies acc2[j].1
                    == tag_of(false, 1, acc2[j].1.spec_next()) by {
                    if j < acc.len() {
                        assert(acc2[j] == acc[j]);
                    }
                }
                lemma_join_plain(t, s, e, k + 1, acc2, 1);
            } else {
                lemma_join_plain(t, s, e, k + 1, acc, run + 1);
            }
        } else {
            let acc2 = if run >= 2 && acc.len() > 0 {
                acc.update(acc.len() - 1, merged_tag(acc.last().0, x.0))
            } else {
                acc
            };
            let acc3 = acc2.push(x);
            assert forall|j: int| 0 <= j < acc3.len() && #[trigger] free_chunk(acc3[j]) implies acc3[j].1
                == tag_of(false, 1, acc3[j].1.spec_next()) by {
                if j < acc.len() && !(run >= 2 && j == acc.len() - 1) {
                    assert(acc3[j] == acc[j]);
                }
            }
            lemma_join_plain(t, s, e, k + 1, acc3, 0);
        }
    }
}

impl Heap {
    /// Joins each run of adjacent free chunks into one.
    pub fn join_adjacent_free_chunks(&mut self)
        requires
            old(self).wf(),
        ensures
            final(self).wf(),
            final(self).tags@ == spec_join(old(self).tags@),
            no_adjacent_free(final(self).tags@),
            final(self).region == old(self).region,
            final(self).min_chunk_size == old(self).min_chunk_size,
            plain_free_tags(old(self).tags@) ==> plain_free_tags(final(self).tags@),
    {
        proof {
            lemma_join_keeps_chain(self.tags@, self.region.start, self.region.end);
            if plain_free_tags(self.tags@) {
                lemma_join_plain(self.tags@, self.region.start, self.region.end, 0, Seq::empty(), 0);
            }
        }
        let ghost t = self.tags@;
        let mut out: Vec<(usize, Tag)> = Vec::new();
        let mut run: usize = 0;
        let mut k: usize = 0;
        while k < self.tags.len()
            invariant
                self.tags@ == t,
                chain_ok(t, self.region.start, self.region.end),
                k <= t.len(),
                run <= k,
                run > 0 ==> out@.len() > 0,
                spec_join(t) == join_from(t, k as int, out@, run as int),
            decreases t.len() - k,
        {
            let (at, tag) = self.tags[k];
            if !tag.is_used() && !tag.is_end_tag() {
                if run == 0 {
                    out.push((at, tag));
                    run = 1;
                } else {
                    run = run + 1;
                }
            } else {
                if run >= 2 {
                    let last = out.len() - 1;
                    let (head_at, _) = out[last];
                    out.set(last, (head_at, Tag { magic_1: TAG_MAGIC_1, value: at, align: 1, magic_2: TAG_MAGIC_2 }));
                }
                out.push((at, tag));
                run = 0;
            }
            k = k + 1;
        }
        self.tags = out;
    }
}

/// `x` rounded up to a multiple of `al`.
pub open spec fn align_up(x: int, al: int) -> int {
    (x + al - 1) / al * al
}

/// The bytes a chunk at `at` must have to hold `size` bytes aligned at
/// `align`.
pub open spec fn needed(at: usize, size: usize, align: usize) -> int {
    align_up(at + TAG_SIZE, align as int) - (at + TAG_SIZE) + size
}

/// Tag `i` heads a free chunk that can hold the allocation.
pub open spec fn fits(t: Seq<(usize, Tag)>, i: int, size: usize, align: usize) -> bool {
    !t[i].1.spec_used() && spec_chunk_size(t, i) >= needed(t[i].0, size, align)
}

/// The first chunk of the chain that can hold the allocation.
pub open spec fn first_fit(t: Seq<(usize, Tag)>, size: usize, align: usize) -> Option<int> {
    if exists|i: int| 0 <= i < t.len() && #[trigger] fits(t, i, size, align) {
        Some(
            choose|i: int|
                0 <= i < t.len() && #[trigger] fits(t, i, size, align) && forall|k: int|
                    0 <= k < i ==> !#[trigger] fits(t, k, size, align),
        )
    } else {
        None
    }
}

/// The chain after allocating `size` bytes aligned at `align` from the chunk
/// of tag `i`: the chunk is used whole when what would be left is too small
/// for a tag and a chunk of the least size, else it is split at the first
/// even address after the allocation, and the rest becomes a free chunk.
pub open spec fn spec_take_chunk(t: Seq<(usize, Tag)>, i: int, min_chunk: usize, size: usize, align: usize) -> Seq<(usize, Tag)> {
    let at = t[i].0;
    let n = needed(at, size, align);
    if spec_chunk_size(t, i) - n < TAG_SIZE + min_chunk + 1 {
        t.update(i, (at, tag_of(true, t[i].1.align, t[i].1.spec_next())))
    } else {
        let y = at + TAG_SIZE + n + 1;
        let second = (y - y % 2) as usize;
        t.update(i, (at, tag_of(true, align, second))).insert(i + 1, (second, tag_of(false, 1, t[i].1.spec_next())))
    }
}

/// The address handed out for an allocation from the chunk at `at`.
pub open spec fn spec_alloc_addr(at: usize, align: usize) -> int {
    align_up(at + TAG_SIZE, align as int)
}

/// The chunk of tag `i` holds `ptr`.
pub open spec fn holds(t: Seq<(usize, Tag)>, i: int, ptr: usize) -> bool {
    0 <= i < t.len() - 1 && t[i].0 + TAG_SIZE <= ptr < t[i + 1].0
}

/// Index of the chunk that holds `ptr`.
pub open spec fn owner(t: Seq<(usize, Tag)>, ptr: usize) -> int {
    choose|i: int| #[trigger] holds(t, i, ptr)
}

proof fn lemma_align_up(x: int, al: int)
    requires
        x >= 0,
        al > 0,
    ensures
        x <= align_up(x, al) <= x + al - 1,
        align_up(x, al) % al == 0,
{
    assert(x <= (x + al - 1) / al * al <= x + al - 1 && ((x + al - 1) / al * al) % al == 0) by (nonlinear_arith)
        requires
            x >= 0,
            al > 0,
    ;
}

/// Taking a chunk for an allocation keeps every free chunk's tag plain, and
/// keeps adjacent chunks from both being free.
proof fn lemma_take_chunk_keeps(t: Seq<(usize, Tag)>, s: usize, e: usize, i: int, min_chunk: usize, size: usize, align: usize)
    requires
        chain_ok(t, s, e),
        0 <= i < t.len(),
        fits(t, i, size, align),
        size > 0,
        align > 0,
    ensures
        ({
            let t2 = spec_take_chunk(t, i, min_chunk, size, align);
            &&& plain_free_tags(t) ==> plain_free_tags(t2)
            &&& no_adjacent_free(t) ==> no_adjacent_free(t2)
        }),
{
    let t2 = spec_take_chunk(t, i, min_chunk, size, align);
    let at = t[i].0;
    let nxt = t[i].1.spec_next();
    let n = needed(at, size, align);
    lemma_align_up(at + TAG_SIZE, align as int);
    assert(!t[i].1.spec_is_end());
    assert(i < t.len() - 1) by {
        if i == t.len() - 1 {
            assert(t.last().1.spec_is_end());
        }
    }
    assert(links(t, i));
    assert(t[i + 1].0 % 2 == 0);
    if spec_chunk_size(t, i) - n < TAG_SIZE + min_chunk + 1 {
        assert(t2 == t.update(i, (at, tag_of(true, t[i].1.align, nxt))));
        assert(!free_chunk(t2[i]));
        if plain_free_tags(t) {
            assert forall|j: int| 0 <= j < t2.len() && #[trigger] free_chunk(t2[j]) implies t2[j].1 == tag_of(
                false,
                1,
                t2[j].1.spec_next(),
            ) by {
                assert(t2[j] == t[j]);
            }
        }
        if no_adjacent_free(t) {
            assert forall|j: int| 0 <= j < t2.len() - 1 implies #[trigger] not_both_free(t2, j) by {
                assert(not_both_free(t, j));
            }
        }
    } else {
        let y = at + TAG_SIZE + n + 1;
        let second = (y - y % 2) as usize;
        assert(t2 == t.update(i, (at, tag_of(true, align, second))).insert(i + 1, (second, tag_of(false, 1, nxt))));
        assert(!free_chunk(t2[i]));
        assert(t2[i + 1] == (second, tag_of(false, 1, nxt)));
        assert(forall|j: int| 0 <= j < i ==> t2[j] == t[j]);
        assert(forall|j: int| i + 2 <= j < t2.len() ==> t2[j] == t[j - 1]);
        if plain_free_tags(t) {
            assert forall|j: int| 0 <= j < t2.len() && #[trigger] free_chunk(t2[j]) implies t2[j].1 == tag_of(
                false,
                1,
                t2[j].1.spec_next(),
            ) by {
                if j < i {
                    assert(t2[j] == t[j]);
                } else if j >= i + 2 {
                    assert(t2[j] == t[j - 1]);
                }
            }
        }
        if no_adjacent_free(t) {
            assert(!free_chunk(t[i + 1])) by {
                if i + 1 < t.len() - 1 {
                    assert(not_both_free(t, i));
                } else {
                    assert(t[i + 1].1.spec_is_end());
                }
            }
            assert forall|j: int| 0 <= j < t2.len() - 1 implies #[trigger] not_both_free(t2, j) by {
                if j < i - 1 {
                    assert(not_both_free(t, j));
                } else if j >= i + 2 {
                    assert(not_both_free(t, j - 1));
                }
            }
        }
    }
}

impl Heap {
    /// Allocates `size` bytes aligned at `align` from the first free chunk
    /// that can hold them, and returns their address; `None` when no chunk
    /// can.
    pub fn allocate(&mut self, size: usize, align: usize) -> (r: Option<usize>)
        requires
            old(self).wf(),
            size > 0,
            is_power_of_two(align),
            old(self).region.end + align + size + 2 <= usize::MAX,
        ensures
            final(self).wf(),
            final(self).region == old(self).region,
            final(self).min_chunk_size == old(self).min_chunk_size,
            match first_fit(old(self).tags@, size, align) {
                None => r is None && final(self).tags@ == old(self).tags@,
                Some(i) => r == Some(spec_alloc_addr(old(self).tags@[i].0, align) as usize) && final(self).tags@
                    == spec_take_chunk(old(self).tags@, i, old(self).min_chunk_size, size, align),
            },
            plain_free_tags(old(self).tags@) ==> plain_free_tags(final(self).tags@),
            no_adjacent_free(old(self).tags@) ==> no_adjacent_free(final(self).tags@),
            r matches Some(p) ==> p % align == 0,
            r matches Some(p) ==> ({
                let i = first_fit(old(self).tags@, size, align)->Some_0;
                &&& final(self).tags@[i].1.spec_used()
                &&& final(self).tags@[i].0 + TAG_SIZE <= p
                &&& p + size <= final(self).tags@[i].1.spec_next()
            }),
    {
        let ghost t = self.tags@;
        let n_tags = self.tags.len();
        let mut i: usize = 0;
        let mut found = false;
        let mut need: usize = 0;
        while i < n_tags
            invariant_except_break
                !found,
            invariant
                self.tags@ == t,
                n_tags == t.len(),
                self.wf(),
                self.region.end + align + size + 2 <= usize::MAX,
                is_power_of_two(align),
                i <= n_tags,
                forall|k: int| 0 <= k < i ==> !#[trigger] fits(t, k, size, align),
            ensures
                self.tags@ == t,
                self.wf(),
                forall|k: int| 0 <= k < i ==> !#[trigger] fits(t, k, size, align),
                found ==> i < n_tags && fits(t, i as int, size, align) && need == needed(t[i as int].0, size, align),
                !found ==> i == n_tags,
            decreases n_tags - i,
        {
            let (at, tag) = self.tags[i];
            proof {
                if i + 1 < n_tags {
                    assert(links(t, i as int));
                }
                lemma_chain_increasing_to_end(t, self.region.start, self.region.end, i as int);
                lemma_align_up(at + TAG_SIZE, align as int);
            }
            if !tag.is_used() {
                let chunk_start = at + TAG_SIZE;
                let n = (chunk_start + align - 1) / align * align - chunk_start + size;
                let csz = if tag.is_end_tag() {
                    0
                } else {
                    tag.chunk_size(at)
                };
                if csz >= n {
                    need = n;
                    found = true;
                    break;
                }
            }
            i = i + 1;
        }
        if !found {
            proof {
                if exists|j: int| 0 <= j < t.len() && #[trigger] fits(t, j, size, align) {
                    let j = choose|j: int| 0 <= j < t.len() && #[trigger] fits(t, j, size, align);
                    assert(!fits(t, j, size, align));
                }
            }
            return None;
        }
        proof {
            let c = choose|j: int|
                0 <= j < t.len() && #[trigger] fits(t, j, size, align) && forall|k: int|
                    0 <= k < j ==> !#[trigger] fits(t, k, size, align);
            assert(0 <= i < t.len() && fits(t, i as int, size, align) && forall|k: int|
                0 <= k < i ==> !#[trigger] fits(t, k, size, align));
            if c < i {
                assert(!fits(t, c, size, align));
            } else if c > i {
                assert(!fits(t, i as int, size, align));
            }
            assert(first_fit(t, size, align) == Some(i as int));
            lemma_take_chunk_keeps(t, self.region.start, self.region.end, i as int, self.min_chunk_size, size, align);
        }
        let (at, tag) = self.tags[i];
        proof {
            lemma_align_up(at + TAG_SIZE, align as int);
            lemma_chain_increasing_to_end(t, self.region.start, self.region.end, i as int);
            assert(!tag.spec_is_end());
            assert(links(t, i as int));
        }
        let csz = tag.chunk_size(at);
        let next = tag.next_tag_addr();
        let chunk_start = at + TAG_SIZE;
        let addr = (chunk_start + align - 1) / align * align;
        if csz - need < TAG_SIZE + 1 || csz - need - (TAG_SIZE + 1) < self.min_chunk_size {
            let mut used = tag;
            used.set_used(true);
            self.tags.set(i, (at, used));
            proof {
                assert(used == tag_of(true, tag.align, tag.spec_next()));
                let t2 = self.tags@;
                assert forall|j: int| 0 <= j < t2.len() implies (#[trigger] t2[j]).1.magic_ok() && t2[j].0 % 2 == 0 by {
                    assert(t[j].1.magic_ok() && t[j].0 % 2 == 0);
                }
                assert forall|j: int| 0 <= j < t2.len() - 1 implies #[trigger] links(t2, j) by {
                    assert(links(t, j));
                }
            }
        } else {
            let y = at + TAG_SIZE + need + 1;
            let second = y & !1usize;
            proof {
                lemma_low_bit(y);
            }
            let first_tag = Tag::new(true, align, second);
            assert(1usize & ((1 - 1) as usize) == 0) by (bit_vector);
            let second_tag = Tag::new(false, 1, next);
            self.tags.set(i, (at, first_tag));
            self.tags.insert(i + 1, (second, second_tag));
            proof {
                let t2 = self.tags@;
                assert(t2 == spec_take_chunk(t, i as int, self.min_chunk_size, size, align));
                assert(links(t2, i as int));
                assert(links(t2, i + 1));
                assert forall|j: int| 0 <= j < t2.len() implies (#[trigger] t2[j]).1.magic_ok() && t2[j].0 % 2 == 0 by {
                    if j < i {
                        assert(t[j].1.magic_ok() && t[j].0 % 2 == 0);
                    } else if j > i + 1 {
                        assert(t[j - 1].1.magic_ok() && t[j - 1].0 % 2 == 0);
                    }
                }
                assert forall|j: int| 0 <= j < t2.len() - 1 implies #[trigger] links(t2, j) by {
                    if j < i {
                        assert(links(t, j));
                    } else if j > i + 1 {
                        assert(links(t, j - 1));
                    }
                }
            }
        }
        Some(addr)
    }

    /// Frees the chunk that holds `ptr`, which must be aligned at `align`,
    /// and joins adjacent free chunks.
    pub fn deallocate(&mut self, ptr: usize, align: usize)
        requires
            old(self).wf(),
            align > 0,
            ptr % align == 0,
            exists|i: int| #[trigger] holds(old(self).tags@, i, ptr),
        ensures
            final(self).wf(),
            no_adjacent_free(final(self).tags@),
            final(self).region == old(self).region,
            plain_free_tags(old(self).tags@) ==> plain_free_tags(final(self).tags@),
            ({
                let t = old(self).tags@;
                let i = owner(t, ptr);
                final(self).tags@ == spec_join(t.update(i, (t[i].0, tag_of(false, 1, t[i].1.spec_next()))))
            }),
    {
        let ghost t = self.tags@;
        let ghost w = owner(t, ptr);
        let n_tags = self.tags.len();
        let mut i: usize = 0;
        while i + 1 < n_tags
            invariant
                self.tags@ == t,
                n_tags == t.len(),
                self.wf(),
                holds(t, w, ptr),
                i <= w,
            ensures
                self.tags@ == t,
                self.wf(),
                holds(t, i as int, ptr),
            decreases n_tags - i,
        {
            proof {
                lemma_chain_increasing_to_end(t, self.region.start, self.region.end, i as int);
            }
            let (a, _) = self.tags[i];
            let (b, _) = self.tags[i + 1];
            if a + TAG_SIZE <= ptr && ptr < b {
                break;
            }
            proof {
                if i == w {
                    assert(false);
                }
            }
            i = i + 1;
        }
        proof {
            let o = owner(t, ptr);
            assert(holds(t, i as int, ptr));
            assert(holds(t, o, ptr));
            if o < i {
                if o + 1 < i {
                    lemma_chain_increasing(t, self.region.start, self.region.end, o + 1, i as int);
                }
            } else if o > i {
                if i + 1 < o {
                    lemma_chain_increasing(t, self.region.start, self.region.end, i + 1, o);
                }
            }
        }
        let (at, tag) = self.tags[i];
        proof {
            assert(links(t, i as int));
        }
        let mut freed = tag;
        freed.set_used(false);
        freed.align = 1;
        self.tags.set(i, (at, freed));
        proof {
            let t2 = self.tags@;
            assert(freed == tag_of(false, 1, tag.spec_next()));
            assert forall|j: int| 0 <= j < t2.len() implies (#[trigger] t2[j]).1.magic_ok() && t2[j].0 % 2 == 0 by {
                assert(t[j].1.magic_ok() && t[j].0 % 2 == 0);
            }
            assert forall|j: int| 0 <= j < t2.len() - 1 implies #[trigger] links(t2, j) by {
                assert(links(t, j));
            }
            if plain_free_tags(t) {
                assert(links(t, i as int));
                assert(t[i as int + 1].0 % 2 == 0);
                assert forall|j: int| 0 <= j < t2.len() && #[trigger] free_chunk(t2[j]) implies t2[j].1 == tag_of(
                    false,
                    1,
                    t2[j].1.spec_next(),
                ) by {
                    if j != i {
                        assert(t2[j] == t[j]);
                    }
                }
            }
        }
        self.join_adjacent_free_chunks();
    }
}

/// Every tag before the end tag lies at least a tag below the region's end.
proof fn lemma_chain_increasing_to_end(t: Seq<(usize, Tag)>, s: usize, e: usize, i: int)
    requires
        chain_ok(t, s, e),
        0 <= i < t.len(),
    ensures
        t[i].0 + TAG_SIZE <= e,
{
    if i < t.len() - 1 {
        lemma_chain_increasing(t, s, e, i, t.len() - 1);
    }
}

/// Every free chunk's tag is the plain one that freeing writes: alignment
/// 1, and the next tag's address as its value.
pub open spec fn plain_free_tags(t: Seq<(usize, Tag)>) -> bool {
    forall|j: int| 0 <= j < t.len() && #[trigger] free_chunk(t[j]) ==> t[j].1 == tag_of(false, 1, t[j].1.spec_next())
}

/// Joining leaves alone the rest of a chain in which no two adjacent chunks
/// are free.
proof fn lemma_join_tail(u: Seq<(usize, Tag)>, k: int, acc: Seq<(usize, Tag)>, run: int)
    requires
        0 <= k <= u.len(),
        run == 0 || run == 1,
        run == 1 && k < u.len() ==> !free_chunk(u[k]),
        forall|j: int| k <= j < u.len() - 1 ==> #[trigger] not_both_free(u, j),
    ensures
        join_from(u, k, acc, run) == acc + u.subrange(k, u.len() as int),
    decreases u.len() - k,
{
    if k < u.len() {
        if k + 1 < u.len() {
            assert(not_both_free(u, k));
        }
        lemma_join_tail(u, k + 1, acc.push(u[k]), if free_chunk(u[k]) { 1int } else { 0int });
        assert(acc.push(u[k]) + u.subrange(k + 1, u.len() as int) =~= acc + u.subrange(k, u.len() as int));
    } else {
        assert(acc + u.subrange(k, u.len() as int) =~= acc);
    }
}

/// Joining walks through a prefix of the chain in which no two adjacent
/// chunks are free without changing it.
proof fn lemma_join_prefix(u: Seq<(usize, Tag)>, m: int)
    requires
        0 <= m <= u.len(),
        forall|j: int| 0 <= j < m - 1 ==> #[trigger] not_both_free(u, j),
    ensures
        spec_join(u) == join_from(u, m, u.take(m), if m > 0 && free_chunk(u[m - 1]) { 1int } else { 0int }),
    decreases m,
{
    if m > 0 {
        lemma_join_prefix(u, m - 1);
        if m - 1 > 0 {
            assert(not_both_free(u, m - 2));
        }
        assert(u.take(m - 1).push(u[m - 1]) =~= u.take(m));
    } else {
        assert(u.take(0) =~= Seq::<(usize, Tag)>::empty());
    }
}

/// A chunk that can hold the allocation has a first one.
proof fn lemma_first_fit_exists(t: Seq<(usize, Tag)>, size: usize, align: usize, j: int)
    requires
        0 <= j < t.len(),
        fits(t, j, size, align),
    ensures
        exists|i: int|
            0 <= i < t.len() && #[trigger] fits(t, i, size, align) && forall|k: int| 0 <= k < i ==> !#[trigger] fits(t, k, size, align),
    decreases j,
{
    if exists|k: int| 0 <= k < j && #[trigger] fits(t, k, size, align) {
        let k = choose|k: int| 0 <= k < j && #[trigger] fits(t, k, size, align);
        lemma_first_fit_exists(t, size, align, k);
    } else {
        assert(forall|k: int| 0 <= k < j ==> !#[trigger] fits(t, k, size, align));
    }
}

/// The first fit is a chunk that can hold the allocation.
proof fn lemma_first_fit_fits(t: Seq<(usize, Tag)>, size: usize, align: usize)
    requires
        first_fit(t, size, align) is Some,
    ensures
        0 <= first_fit(t, size, align)->Some_0 < t.len(),
        fits(t, first_fit(t, size, align)->Some_0, size, align),
{
    let j = choose|i: int| 0 <= i < t.len() && #[trigger] fits(t, i, size, align);
    lemma_first_fit_exists(t, size, align, j);
}

/// Joining a chain in which no two adjacent chunks are free changes
/// nothing.
pub proof fn lemma_join_nothing_to_join(t: Seq<(usize, Tag)>)
    requires
        no_adjacent_free(t),
    ensures
        spec_join(t) == t,
{
    lemma_join_prefix(t, 0);
    lemma_join_tail(t, 0, t.take(0), 0);
    assert(t.take(0) + t.subrange(0, t.len() as int) =~= t);
}

/// Freeing the first part of a split chunk joins it with the free rest,
/// which gives back the chunk as it was before the split.
proof fn lemma_free_split_chunk(t: Seq<(usize, Tag)>, i: int, at: usize, second: usize, nxt: usize)
    requires
        no_adjacent_free(t),
        0 <= i < t.len() - 1,
        t[i] == (at, tag_of(false, 1, nxt)),
        t[i + 1].0 == nxt,
        !free_chunk(t[i + 1]),
        second != 0,
        nxt != 0,
        second % 2 == 0,
        nxt % 2 == 0,
    ensures
        spec_join(t.update(i, (at, tag_of(false, 1, second))).insert(i + 1, (second, tag_of(false, 1, nxt)))) == t,
{
    let u = t.update(i, (at, tag_of(false, 1, second))).insert(i + 1, (second, tag_of(false, 1, nxt)));
    assert(u.len() == t.len() + 1);
    assert(forall|j: int| 0 <= j < i ==> u[j] == t[j]);
    assert(forall|j: int| i + 2 <= j < u.len() ==> u[j] == t[j - 1]);
    assert(free_chunk(u[i]));
    assert(free_chunk(u[i + 1]));
    assert(u[i + 2] == t[i + 1]);
    assert forall|j: int| 0 <= j < i - 1 implies #[trigger] not_both_free(u, j) by {
        assert(not_both_free(t, j));
        assert(u[j] == t[j] && u[j + 1] == t[j + 1]);
    }
    lemma_join_prefix(u, i);
    if i > 0 {
        assert(not_both_free(t, i - 1));
        assert(u[i - 1] == t[i - 1]);
    }
    assert(u.take(i) =~= t.take(i));
    let acc1 = t.take(i).push(u[i]);
    assert(join_from(u, i, t.take(i), 0) == join_from(u, i + 1, acc1, 1));
    assert(join_from(u, i + 1, acc1, 1) == join_from(u, i + 2, acc1, 2));
    let acc2 = acc1.update(acc1.len() - 1, merged_tag(at, t[i + 1].0));
    assert(acc2 =~= t.take(i + 1));
    assert(join_from(u, i + 2, acc1, 2) == join_from(u, i + 3, t.take(i + 1).push(t[i + 1]), 0));
    assert(t.take(i + 1).push(t[i + 1]) =~= t.take(i + 2));
    assert forall|j: int| i + 3 <= j < u.len() - 1 implies #[trigger] not_both_free(u, j) by {
        assert(not_both_free(t, j - 1));
        assert(u[j] == t[j - 1] && u[j + 1] == t[j]);
    }
    lemma_join_tail(u, i + 3, t.take(i + 2), 0);
    assert(t.take(i + 2) + u.subrange(i + 3, u.len() as int) =~= t);
}

/// The block that an allocation hands out lies in the chunk it was taken
/// from, and in no other.
#[verifier::rlimit(60)]
proof fn lemma_alloc_owner(t: Seq<(usize, Tag)>, s: usize, e: usize, min_chunk: usize, size: usize, align: usize)
    requires
        chain_ok(t, s, e),
        size > 0,
        align > 0,
        first_fit(t, size, align) is Some,
        chain_ok(spec_take_chunk(t, first_fit(t, size, align)->Some_0, min_chunk, size, align), s, e),
    ensures
        ({
            let i = first_fit(t, size, align)->Some_0;
            let t2 = spec_take_chunk(t, i, min_chunk, size, align);
            let p = spec_alloc_addr(t[i].0, align) as usize;
            &&& 0 <= i < t.len() - 1
            &&& free_chunk(t[i])
            &&& fits(t, i, size, align)
            &&& holds(t2, i, p)
            &&& owner(t2, p) == i
        }),
{
    lemma_first_fit_fits(t, size, align);
    let i = first_fit(t, size, align)->Some_0;
    let t2 = spec_take_chunk(t, i, min_chunk, size, align);
    let at = t[i].0;
    let p = spec_alloc_addr(at, align);
    lemma_align_up(at + TAG_SIZE, align as int);
    assert(free_chunk(t[i]));
    assert(links(t, i));
    assert(holds(t2, i, p as usize)) by {
        assert(links(t2, i));
    }
    assert forall|j: int| #[trigger] holds(t2, j, p as usize) implies j == i by {
        if j < i {
            lemma_chain_increasing(t2, s, e, j + 1, i);
        } else if j > i {
            lemma_chain_increasing(t2, s, e, i + 1, j);
        }
    }
}

/// Freeing the block that an allocation handed out gives back the chain of
/// tags that the heap had before the allocation, when no two adjacent
/// chunks were free and each free chunk had a plain tag, as is the case
/// for every heap that this module makes.
pub proof fn lemma_free_undoes_allocate(
    t: Seq<(usize, Tag)>,
    s: usize,
    e: usize,
    min_chunk: usize,
    size: usize,
    align: usize,
)
    requires
        chain_ok(t, s, e),
        no_adjacent_free(t),
        plain_free_tags(t),
        size > 0,
        align > 0,
        first_fit(t, size, align) is Some,
        chain_ok(spec_take_chunk(t, first_fit(t, size, align)->Some_0, min_chunk, size, align), s, e),
    ensures
        ({
            let i = first_fit(t, size, align)->Some_0;
            let t2 = spec_take_chunk(t, i, min_chunk, size, align);
            let p = spec_alloc_addr(t[i].0, align) as usize;
            let o = owner(t2, p);
            &&& holds(t2, i, p)
            &&& o == i
            &&& spec_join(t2.update(o, (t2[o].0, tag_of(false, 1, t2[o].1.spec_next())))) == t
        }),
{
    lemma_alloc_owner(t, s, e, min_chunk, size, align);
    let i = first_fit(t, size, align)->Some_0;
    lemma_free_chain_facts(t, s, e, i);
    lemma_free_taken_chunk(t, i, min_chunk, size, align);
}

/// What the chain tells of a free chunk `i` that is not the last tag.
proof fn lemma_free_chain_facts(t: Seq<(usize, Tag)>, s: usize, e: usize, i: int)
    requires
        chain_ok(t, s, e),
        no_adjacent_free(t),
        plain_free_tags(t),
        0 <= i < t.len() - 1,
        free_chunk(t[i]),
    ensures
        t[i].0 % 2 == 0,
        t[i].1 == tag_of(false, 1, t[i].1.spec_next()),
        t[i].1.spec_next() % 2 == 0,
        t[i].1.spec_next() == t[i + 1].0,
        t[i].0 + TAG_SIZE < t[i + 1].0,
        !free_chunk(t[i + 1]),
{
    assert(links(t, i));
    assert(t[i + 1].0 % 2 == 0);
    if i + 1 < t.len() - 1 {
        assert(not_both_free(t, i));
    } else {
        assert(t[i + 1].1.spec_is_end());
    }
}

/// Freeing the chunk that was taken from free chunk `i` undoes the taking:
/// either the chunk's tag comes back, or its two parts are joined again.
#[verifier::spinoff_prover]
proof fn lemma_free_taken_chunk(t: Seq<(usize, Tag)>, i: int, min_chunk: usize, size: usize, align: usize)
    requires
        no_adjacent_free(t),
        0 <= i < t.len() - 1,
        align > 0,
        t[i].0 % 2 == 0,
        t[i].1 == tag_of(false, 1, t[i].1.spec_next()),
        t[i].1.spec_next() % 2 == 0,
        t[i].1.spec_next() == t[i + 1].0,
        t[i].0 + TAG_SIZE < t[i + 1].0,
        !free_chunk(t[i + 1]),
        spec_chunk_size(t, i) >= needed(t[i].0, size, align),
    ensures
        ({
            let t2 = spec_take_chunk(t, i, min_chunk, size, align);
            spec_join(t2.update(i, (t2[i].0, tag_of(false, 1, t2[i].1.spec_next())))) == t
        }),
{
    let t2 = spec_take_chunk(t, i, min_chunk, size, align);
    let at = t[i].0;
    let nxt = t[i].1.spec_next();
    let n = needed(at, size, align);
    lemma_align_up(at + TAG_SIZE, align as int);
    if spec_chunk_size(t, i) - n < TAG_SIZE + min_chunk + 1 {
        assert(t2[i].1.spec_next() == nxt);
        assert(t2.update(i, (at, tag_of(false, 1, t2[i].1.spec_next()))) =~= t);
        lemma_join_nothing_to_join(t);
    } else {
        let y = at + TAG_SIZE + n + 1;
        let second = (y - y % 2) as usize;
        assert(t2[i].1.spec_next() == second);
        assert(t2.update(i, (at, tag_of(false, 1, second))) =~= t.update(i, (at, tag_of(false, 1, second))).insert(
            i + 1,
            (second, tag_of(false, 1, nxt)),
        ));
        lemma_free_split_chunk(t, i, at, second, nxt);
    }
}

/// The number of slots of a size count table.
pub const SIZE_SLOTS: usize = 32;

/// The first slot, from `start` on, whose size is `size`.
pub open spec fn slot_of(h: Seq<(usize, usize)>, size: usize, start: int) -> Option<int>
    decreases h.len() - start,
{
    if start < 0 || start >= h.len() {
        None
    } else if h[start].0 == size {
        Some(start)
    } else {
        slot_of(h, size, start + 1)
    }
}

/// Counts one more chunk of `size`: in the first slot of that size, else
/// in the first empty slot (size 0); the chunk is left out when neither
/// exists.
pub open spec fn count_size(h: Seq<(usize, usize)>, size: usize) -> Seq<(usize, usize)> {
    match slot_of(h, size, 0) {
        Some(i) => h.update(i, (size, (h[i].1 + 1) as usize)),
        None => match slot_of(h, 0, 0) {
            Some(i) => h.update(i, (size, 1usize)),
            None => h,
        },
    }
}

/// The size counts of the first `n` tags whose chunks are used (or free,
/// after `used`), end tag included with size 0.
pub open spec fn size_table(t: Seq<(usize, Tag)>, used: bool, n: int) -> Seq<(usize, usize)>
    decreases n,
{
    if n <= 0 {
        Seq::new(SIZE_SLOTS as nat, |i: int| (0usize, 0usize))
    } else {
        let h = size_table(t, used, n - 1);
        if t[n - 1].1.spec_used() == used {
            count_size(h, spec_chunk_size(t, n - 1) as usize)
        } else {
            h
        }
    }
}

/// Counts in slots are at most `n`.
pub open spec fn counts_below(h: Seq<(usize, usize)>, n: int) -> bool {
    forall|i: int| 0 <= i < h.len() ==> #[trigger] h[i].1 <= n
}

proof fn lemma_slot_of_in_range(h: Seq<(usize, usize)>, size: usize, start: int)
    requires
        slot_of(h, size, start) is Some,
    ensures
        start <= slot_of(h, size, start)->Some_0 < h.len(),
        h[slot_of(h, size, start)->Some_0].0 == size,
    decreases h.len() - start,
{
    if h[start].0 != size {
        lemma_slot_of_in_range(h, size, start + 1);
    }
}

proof fn lemma_size_table_shape(t: Seq<(usize, Tag)>, used: bool, n: int)
    requires
        0 <= n,
    ensures
        size_table(t, used, n).len() == SIZE_SLOTS,
        counts_below(size_table(t, used, n), n),
    decreases n,
{
    if n > 0 {
        lemma_size_table_shape(t, used, n - 1);
        let h = size_table(t, used, n - 1);
        let size = spec_chunk_size(t, n - 1) as usize;
        if t[n - 1].1.spec_used() == used {
            match slot_of(h, size, 0) {
                Some(i) => lemma_slot_of_in_range(h, size, 0),
                None => match slot_of(h, 0, 0) {
                    Some(i) => lemma_slot_of_in_range(h, 0, 0),
                    None => {},
                },
            }
            let h2 = count_size(h, size);
            assert forall|i: int| 0 <= i < h2.len() implies #[trigger] h2[i].1 <= n by {
                assert(h[i].1 <= n - 1);
            }
        }
    }
}

/// The first slot of `h` whose size is `size`.
fn find_slot(h: &Vec<(usize, usize)>, size: usize) -> (r: Option<usize>)
    ensures
        match slot_of(h@, size, 0) {
            Some(i) => r == Some(i as usize),
            None => r is None,
        },
{
    let mut i: usize = 0;
    while i < h.len()
        invariant
            i <= h@.len(),
            slot_of(h@, size, 0) == slot_of(h@, size, i as int),
        decreases h@.len() - i,
    {
        if h[i].0 == size {
            return Some(i);
        }
        i = i + 1;
    }
    None
}

/// Whether `v` is sorted from the largest count down.
pub open spec fn by_count_desc(v: Seq<(usize, usize)>) -> bool {
    forall|i: int, j: int| 0 <= i < j < v.len() ==> #[trigger] v[i].1 >= #[trigger] v[j].1
}

/// Sorts size counts from the largest count down.
pub fn sort_by_count_desc(v: Vec<(usize, usize)>) -> (r: Vec<(usize, usize)>)
    ensures
        r@.to_multiset() == v@.to_multiset(),
        r@.len() == v@.len(),
        by_count_desc(r@),
{
    let mut v = v;
    let ghost m0 = v@.to_multiset();
    let n = v.len();
    let mut i: usize = 0;
    while i < n
        invariant
            n == v@.len(),
            i <= n,
            v@.to_multiset() == m0,
            forall|a: int, b: int| 0 <= a < b < v@.len() && a < i ==> #[trigger] v@[a].1 >= #[trigger] v@[b].1,
        decreases n - i,
    {
        let mut best = i;
        let mut j = i + 1;
        while j < n
            invariant
                n == v@.len(),
                i < n,
                i <= best < n,
                i < j <= n,
                forall|b: int| i <= b < j ==> #[trigger] v@[b].1 <= v@[best as int].1,
            decreases n - j,
        {
            if v[j].1 > v[best].1 {
                best = j;
            }
            j = j + 1;
        }
        let a = v[i];
        let b = v[best];
        let ghost s0 = v@;
        v.set(i, b);
        v.set(best, a);
        proof {
            broadcast use vstd::seq_lib::to_multiset_update;
            broadcast use vstd::multiset::group_multiset_properties;
            let s1 = s0.update(i as int, b);
            assert(v@ == s1.update(best as int, a));
            assert(s1.to_multiset() == s0.to_multiset().insert(b).remove(a));
            assert(v@.to_multiset() == s1.to_multiset().insert(a).remove(s1[best as int]));
            if best == i {
                assert(v@ =~= s0);
            } else {
                broadcast use vstd::multiset::group_multiset_axioms;
                assert(s1[best as int] == b);
                let m = s0.to_multiset();
                assert(m.count(a) > 0) by {
                    vstd::seq_lib::to_multiset_contains(s0, a);
                    assert(s0[i as int] == a);
                }
                assert(v@.to_multiset() =~= m);
            }
        }
        i = i + 1;
    }
    v
}

impl Heap {
    /// The size counts of the used (or free, after `used`) chunks, in
    /// slots: each slot holds a size and how many chunks have it.
    pub fn size_counts(&self, used: bool) -> (r: Vec<(usize, usize)>)
        requires
            self.wf(),
        ensures
            r@ == size_table(self.tags@, used, self.tags@.len() as int),
    {
        let t = &self.tags;
        let mut h: Vec<(usize, usize)> = Vec::new();
        let mut k: usize = 0;
        while k < SIZE_SLOTS
            invariant
                k <= SIZE_SLOTS,
                h@ == Seq::new(k as nat, |i: int| (0usize, 0usize)),
            decreases SIZE_SLOTS - k,
        {
            h.push((0, 0));
            k = k + 1;
        }
        let mut i: usize = 0;
        while i < t.len()
            invariant
                chain_ok(t@, self.region.start, self.region.end),
                i <= t@.len(),
                h@ == size_table(t@, used, i as int),
            decreases t@.len() - i,
        {
            let (at, tag) = t[i];
            proof {
                lemma_size_table_shape(t@, used, i as int);
                if i + 1 < t@.len() {
                    assert(links(t@, i as int));
                }
            }
            if tag.is_used() == used {
                let size = tag.chunk_size(at);
                let ghost h0 = h@;
                match find_slot(&h, size) {
                    Some(s) => {
                        proof {
                            lemma_slot_of_in_range(h0, size, 0);
                            assert(h0[s as int].1 <= i);
                        }
                        let c = h[s].1;
                        h.set(s, (size, c + 1));
                    },
                    None => match find_slot(&h, 0) {
                        Some(s) => {
                            proof {
                                lemma_slot_of_in_range(h0, 0, 0);
                            }
                            h.set(s, (size, 1));
                        },
                        None => {},
                    },
                }
            }
            i = i + 1;
        }
        h
    }

    /// The size counts of the used chunks and of the free ones, each from
    /// the largest count down.
    pub fn stats(&self) -> (r: (Vec<(usize, usize)>, Vec<(usize, usize)>))
        requires
            self.wf(),
        ensures
            r.0@.to_multiset() == size_table(self.tags@, true, self.tags@.len() as int).to_multiset(),
            r.1@.to_multiset() == size_table(self.tags@, false, self.tags@.len() as int).to_multiset(),
            by_count_desc(r.0@),
            by_count_desc(r.1@),
    {
        let used = sort_by_count_desc(self.size_counts(true));
        let free = sort_by_count_desc(self.size_counts(false));
        (used, free)
    }
}

} // verus!
