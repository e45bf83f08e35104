//! The bump-pointer state machine and its alignment arithmetic.

use vstd::prelude::*;
use vstd::arithmetic::div_mod::{
    lemma_div_is_ordered, lemma_fundamental_div_mod, lemma_mod_bound, lemma_mod_multiples_basic,
};
use vstd::arithmetic::mul::lemma_mul_inequality;
use vstd::arithmetic::power2::{lemma2_to64, lemma_pow2_adds, lemma_pow2_strictly_increases, pow2};
use vstd::bits::{lemma_usize_low_bits_mask_is_mod, low_bits_mask};

verus! {

/// `align` is a nonzero power of two, stated over its bit pattern:
/// exactly one bit is set.
pub open spec fn is_power_of_two(align: usize) -> bool {
    align != 0 && align & ((align - 1) as usize) == 0
}

/// The smallest multiple of `align` that is greater than or equal to `addr`.
pub open spec fn align_up_spec(addr: int, align: int) -> int {
    ((addr + align - 1) / align) * align
}

/// A nonzero value with a single set bit is `pow2` of some exponent below
/// the word width.
proof fn lemma_pow2_exponent(align: usize) -> (n: nat)
    requires
        is_power_of_two(align),
    ensures
        n < usize::BITS,
        align == pow2(n),
    decreases align,
{
    lemma2_to64();
    if align == 1 {
        0
    } else {
        assert(align % 2 == 0 && align / 2 != 0 && (align / 2) & (((align / 2) - 1) as usize)
            == 0) by (bit_vector)
            requires
                align != 0usize,
                align != 1usize,
                align & ((align - 1) as usize) == 0usize,
        ;
        let m = lemma_pow2_exponent(align / 2);
        lemma_pow2_adds(m, 1);
        assert(align == pow2(m + 1));
        if m + 1 >= usize::BITS {
            if usize::BITS == 32 {
                if m + 1 > 32 {
                    lemma_pow2_strictly_increases(32, m + 1);
                }
                assert(false);
            } else {
                if m + 1 > 64 {
                    lemma_pow2_strictly_increases(64, m + 1);
                }
                assert(false);
            }
        }
        m + 1
    }
}

/// `align_up_spec` names a multiple of `align` within `[addr, addr + align)`.
proof fn lemma_align_up_spec_properties(addr: int, align: int)
    requires
        addr >= 0,
        align > 0,
    ensures
        align_up_spec(addr, align) % align == 0,
        addr <= align_up_spec(addr, align) < addr + align,
{
    let x = addr + align - 1;
    let q = x / align;
    lemma_fundamental_div_mod(x, align);
    lemma_mod_bound(x, align);
    assert(q * align == x - x % align);
    lemma_mod_multiples_basic(q, align);
}

/// Rounds `addr` up to the next multiple of `align`.
///
/// The caller must supply a power-of-two `align`; the bitwise formula is
/// proved equal to the arithmetic rounding `align_up_spec`.
pub fn align_up(addr: usize, align: usize) -> (r: usize)
    requires
        is_power_of_two(align),
        addr + align - 1 <= usize::MAX,
    ensures
        r == align_up_spec(addr as int, align as int),
        r % align == 0,
        addr <= r < addr + align,
{
    let mask: usize = align - 1;
    let x = addr + mask;
    let r = x & !mask;
    proof {
        let n = lemma_pow2_exponent(align);
        assert(mask == low_bits_mask(n));
        lemma_usize_low_bits_mask_is_mod(x, n);
        assert((x & mask) + (x & !mask) == x) by (bit_vector);
        lemma_fundamental_div_mod(x as int, align as int);
        lemma_mod_bound(x as int, align as int);
        lemma_mod_multiples_basic(x as int / align as int, align as int);
    }
    r
}

/// A bump allocator over the fixed address range `[heap_start, heap_end)`.
///
/// `next` is the cursor: the lowest address not yet handed out.  The cursor
/// only ever advances; individual blocks are never reclaimed.
pub struct BumpAllocator {
    heap_start: usize,
    heap_end: usize,
    next: usize,
}

impl BumpAllocator {
    /// The base address of the backing region.
    pub closed spec fn spec_heap_start(self) -> usize {
        self.heap_start
    }

    /// The exclusive upper bound of the backing region.
    pub closed spec fn spec_heap_end(self) -> usize {
        self.heap_end
    }

    /// The cursor: the next unused address.
    pub closed spec fn spec_next(self) -> usize {
        self.next
    }

    /// The allocator's invariant: the cursor stays inside the region.
    pub open spec fn wf(self) -> bool {
        self.spec_heap_start() <= self.spec_next() <= self.spec_heap_end()
    }

    /// Where a request with this `align` would start: the cursor rounded up.
    pub open spec fn alloc_start(self, align: usize) -> int {
        align_up_spec(self.spec_next() as int, align as int)
    }

    /// Whether a request of `size` bytes at alignment `align` fits in what
    /// remains of the region.
    pub open spec fn can_allocate(self, size: usize, align: usize) -> bool {
        self.alloc_start(align) + size <= self.spec_heap_end()
    }

    /// Binds a fresh allocator to the region `[heap_start, heap_start + heap_size)`
    /// with the cursor at its base.
    ///
    /// The caller must supply a region whose end does not overflow the
    /// address space; no other validation is performed.
    pub fn new(heap_start: usize, heap_size: usize) -> (r: Self)
        requires
            heap_start + heap_size <= usize::MAX,
        ensures
            r.spec_heap_start() == heap_start,
            r.spec_heap_end() == heap_start + heap_size,
            r.spec_next() == heap_start,
            r.wf(),
    {
        BumpAllocator { heap_start, heap_end: heap_start + heap_size, next: heap_start }
    }

    /// Serves a request of `size` bytes at power-of-two alignment `align`.
    ///
    /// Returns the base address of the reserved block, or `None` when no
    /// such block fits (out of memory).  On success the cursor advances to
    /// the end of the block; on failure the state is unchanged.
    pub fn allocate(&mut self, size: usize, align: usize) -> (r: Option<usize>)
        requires
            old(self).wf(),
            is_power_of_two(align),
            old(self).spec_heap_end() + align - 1 + size <= usize::MAX,
        ensures
            final(self).wf(),
            final(self).spec_heap_start() == old(self).spec_heap_start(),
            final(self).spec_heap_end() == old(self).spec_heap_end(),
            r is Some <==> old(self).can_allocate(size, align),
            old(self).can_allocate(size, align) ==> {
                &&& r == Some(old(self).alloc_start(align) as usize)
                &&& final(self).spec_next() == old(self).alloc_start(align) + size
                &&& old(self).spec_heap_start() <= old(self).alloc_start(align)
                &&& old(self).spec_next() <= old(self).alloc_start(align)
            },
            !old(self).can_allocate(size, align) ==> *final(self) == *old(self),
            old(self).spec_next() <= final(self).spec_next(),
    {
        proof {
            lemma_align_up_spec_properties(self.next as int, align as int);
        }
        let alloc_start = align_up(self.next, align);
        let alloc_end = alloc_start + size;
        if alloc_end > self.heap_end {
            None
        } else {
            self.next = alloc_end;
            Some(alloc_start)
        }
    }

    /// The rounded cursor never falls below the cursor itself: a served
    /// block always starts at or past every address already passed.
    pub proof fn lemma_alloc_start_past_cursor(self, align: usize)
        requires
            is_power_of_two(align),
        ensures
            self.spec_next() <= self.alloc_start(align),
            self.alloc_start(align) < self.spec_next() + align,
    {
        lemma_align_up_spec_properties(self.spec_next() as int, align as int);
    }

    /// Releases a previously returned block: deliberately a no-op.
    ///
    /// Arena semantics: nothing is recorded, nothing is validated, and the
    /// cursor never moves backwards, so the state is exactly as before.
    pub fn deallocate(&mut self, _addr: usize, _size: usize)
        ensures
            *final(self) == *old(self),
    {
    }
}

/// The half-open intervals `[a1, a1 + s1)` and `[a2, a2 + s2)` share no
/// address.
pub open spec fn disjoint(a1: int, s1: int, a2: int, s2: int) -> bool {
    a1 + s1 <= a2 || a2 + s2 <= a1
}

/// Monotonicity: each successfully returned base address lies at or past
/// the end of every block returned before it.
///
/// `first` is a state from which a request `(size1, align1)` succeeds, and
/// `later` is any state the allocator reaches after serving that block: by
/// `allocate`'s contract the cursor has then passed the block's end.  A
/// request at any alignment from `later` starts at or past that end.
pub proof fn lemma_allocate_monotonic(
    first: BumpAllocator,
    size1: usize,
    align1: usize,
    later: BumpAllocator,
    align2: usize,
)
    requires
        is_power_of_two(align1),
        is_power_of_two(align2),
        first.can_allocate(size1, align1),
        first.alloc_start(align1) + size1 <= later.spec_next(),
    ensures
        first.alloc_start(align1) + size1 <= later.alloc_start(align2),
{
    later.lemma_alloc_start_past_cursor(align2);
}

/// No overlap: two blocks served one after the other occupy disjoint
/// address intervals, whatever their sizes and alignments.
pub proof fn lemma_no_overlap(
    first: BumpAllocator,
    size1: usize,
    align1: usize,
    later: BumpAllocator,
    size2: usize,
    align2: usize,
)
    requires
        is_power_of_two(align1),
        is_power_of_two(align2),
        first.can_allocate(size1, align1),
        first.alloc_start(align1) + size1 <= later.spec_next(),
    ensures
        disjoint(
            first.alloc_start(align1),
            size1 as int,
            later.alloc_start(align2),
            size2 as int,
        ),
{
    lemma_allocate_monotonic(first, size1, align1, later, align2);
}

/// Monotonicity over a whole run.  `blocks` lists the `(base, size)` pairs
/// a run of successful allocations returned, in order; `allocate`'s
/// contract makes each block end at or before the next one begins.  Then
/// every later base lies at or past the end of every earlier block, not
/// only its neighbour's.
pub proof fn lemma_run_monotonic(blocks: Seq<(usize, usize)>, i: int, j: int)
    requires
        forall|k: int| #![auto]
            0 <= k < blocks.len() - 1 ==> blocks[k].0 + blocks[k].1 <= blocks[k + 1].0,
        0 <= i < j < blocks.len(),
    ensures
        blocks[i].0 + blocks[i].1 <= blocks[j].0,
    decreases j - i,
{
    if i + 1 < j {
        lemma_run_monotonic(blocks, i + 1, j);
    }
}

/// No overlap over a whole run: under the same ordering, every pair of
/// distinct blocks occupies disjoint address intervals.
pub proof fn lemma_run_no_overlap(blocks: Seq<(usize, usize)>, i: int, j: int)
    requires
        forall|k: int| #![auto]
            0 <= k < blocks.len() - 1 ==> blocks[k].0 + blocks[k].1 <= blocks[k + 1].0,
        0 <= i < blocks.len(),
        0 <= j < blocks.len(),
        i != j,
    ensures
        disjoint(blocks[i].0 as int, blocks[i].1 as int, blocks[j].0 as int, blocks[j].1 as int),
{
    if i < j {
        lemma_run_monotonic(blocks, i, j);
    } else {
        lemma_run_monotonic(blocks, j, i);
    }
}

/// Exhaustion is permanent: once a request does not fit, the same request
/// never fits again, since the cursor only advances and the bound of the
/// region never moves.
pub proof fn lemma_exhaustion_permanent(
    s: BumpAllocator,
    t: BumpAllocator,
    size: usize,
    align: usize,
)
    requires
        is_power_of_two(align),
        !s.can_allocate(size, align),
        s.spec_next() <= t.spec_next(),
        s.spec_heap_end() == t.spec_heap_end(),
    ensures
        !t.can_allocate(size, align),
{
    let d = align as int;
    let q1 = (s.spec_next() + d - 1) / d;
    let q2 = (t.spec_next() + d - 1) / d;
    lemma_div_is_ordered(s.spec_next() + d - 1, t.spec_next() + d - 1, d);
    lemma_mul_inequality(q1, q2, d);
}

} // verus!
