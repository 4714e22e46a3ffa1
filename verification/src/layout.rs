//! Blocks of memory and the header byte that goes in front of them.
use vstd::arithmetic::div_mod::*;
use vstd::arithmetic::mul::*;
use vstd::arithmetic::power::pow;
use vstd::arithmetic::power2::*;
use vstd::prelude::*;

verus! {

/// Bytes that the owner tag of a block takes.
pub const HEADER_SIZE: usize = 1;

/// The least multiple of `unit` that is not below `n`.
pub open spec fn round_up(n: int, unit: int) -> int {
    (n + unit - 1) / unit * unit
}

/// Size and alignment of a block of memory.
#[derive(Clone, Copy, Debug, PartialEq, Eq, Structural)]
pub struct BlockLayout {
    pub size: usize,
    pub align: usize,
}

/// What is asked of the underlying allocator for a block with its header.
#[derive(Clone, Copy, Debug, PartialEq, Eq, Structural)]
pub struct WrappedLayout {
    /// Bytes for header, padding and block.
    pub size: usize,
    /// Alignment of the whole.
    pub align: usize,
    /// Where the block starts; the header is at 0.
    pub offset: usize,
}

impl BlockLayout {
    /// The alignment is a power of two, and the size, rounded up to it, does
    /// not overflow `isize`.
    pub open spec fn valid(self) -> bool {
        &&& self.align > 0
        &&& is_pow2(self.align as int)
        &&& round_up(self.size as int, self.align as int) <= isize::MAX
    }

    /// Where the block starts behind its header.
    pub open spec fn block_offset(self) -> int {
        round_up(HEADER_SIZE as int, self.align as int)
    }

    /// How many bytes header, padding and block take.
    pub open spec fn wrapped_size(self) -> int {
        round_up(self.block_offset() + self.size, self.align as int)
    }

    /// There is room for the header.
    pub open spec fn wraps(self) -> bool {
        self.wrapped_size() <= isize::MAX
    }

    /// The layout with its header.
    pub open spec fn wrapped(self) -> WrappedLayout {
        WrappedLayout {
            size: self.wrapped_size() as usize,
            align: self.align,
            offset: self.block_offset() as usize,
        }
    }

    /// The layout of this size and alignment.
    ///
    /// `None` when it is not valid.
    pub fn from_size_align(size: usize, align: usize) -> (layout: Option<BlockLayout>)
        ensures
            layout is Some <==> (BlockLayout { size, align }).valid(),
            layout is Some ==> layout == Some(BlockLayout { size, align }),
    {
        if align == 0 {
            return None;
        }
        let bits: u64 = align as u64;
        proof {
            lemma_single_bit(bits);
        }
        if bits & (bits - 1) != 0 {
            return None;
        }
        proof {
            lemma_round_up_bound(size as int, align);
        }
        if size <= isize::MAX as usize - (align - 1) {
            Some(BlockLayout { size, align })
        } else {
            None
        }
    }

    /// Puts the header in front of the block.
    ///
    /// `None` when that would overflow.
    pub fn wrap(&self) -> (wrapped: Option<WrappedLayout>)
        requires
            self.valid(),
        ensures
            wrapped is Some <==> self.wraps(),
            wrapped is Some ==> wrapped == Some(self.wrapped()),
    {
        proof {
            lemma_block_offset(*self);
            lemma_round_up_bound(self.block_offset() + self.size, self.align);
            lemma_round_up(self.block_offset() + self.size, self.align as int);
        }
        let offset: usize = self.align;
        if self.size > isize::MAX as usize - (self.align - 1) {
            return None;
        }
        if offset > isize::MAX as usize - (self.align - 1) - self.size {
            return None;
        }
        let unpadded: usize = offset + self.size;
        let groups: usize = (unpadded + (self.align - 1)) / self.align;
        let size: usize = groups * self.align;
        Some(WrappedLayout { size, align: self.align, offset })
    }
}

/// Rounding up reaches the nearest multiple.
pub proof fn lemma_round_up(n: int, unit: int)
    requires
        n >= 0,
        unit > 0,
    ensures
        n <= round_up(n, unit) < n + unit,
        round_up(n, unit) % unit == 0,
{
    let q = (n + unit - 1) / unit;
    lemma_fundamental_div_mod(n + unit - 1, unit);
    lemma_mul_is_commutative(q, unit);
    lemma_mod_multiples_basic(q, unit);
}

/// A power of two has a single bit.
proof fn lemma_single_bit(x: u64)
    requires
        x > 0,
    ensures
        x & ((x - 1) as u64) == 0 <==> is_pow2(x as int),
    decreases x,
{
    reveal(is_pow2);
    let below = (x - 1) as u64;
    if x == 1 {
        assert(1u64 & 0u64 == 0) by (bit_vector);
    } else if x % 2 == 1 {
        assert(x & below != 0) by (bit_vector)
            requires
                x % 2 == 1,
                x > 1,
                below == x - 1,
        ;
    } else {
        let half = x / 2;
        let half_below = (half - 1) as u64;
        assert(x & below == 0 <==> half & half_below == 0) by (bit_vector)
            requires
                x % 2 == 0,
                x > 1,
                below == x - 1,
                half == x / 2,
                half_below == half - 1,
        ;
        lemma_single_bit(half);
    }
}

/// A power of two that a `usize` can hold divides the range of `isize`.
proof fn lemma_isize_range(align: usize)
    requires
        align > 0,
        is_pow2(align as int),
    ensures
        align <= isize::MAX + 1,
        (isize::MAX + 1) % align as int == 0,
{
    is_pow2_equiv(align as int);
    let k = choose|k: nat| pow(2, k) == align as int;
    lemma_pow2(k);
    lemma2_to64();
    lemma2_to64_rest();
    let top: nat = if usize::BITS == 32 {
        31
    } else {
        63
    };
    assert(pow2(top) == isize::MAX + 1);
    if k > top {
        lemma_pow2_adds(1, top);
        if k > top + 1 {
            lemma_pow2_strictly_increases((top + 1) as nat, k);
        }
    } else {
        if k < top {
            lemma_pow2_strictly_increases(k, top);
        }
        lemma_pow2_adds(k, (top - k) as nat);
        lemma_mul_is_commutative(pow2(k) as int, pow2((top - k) as nat) as int);
        lemma_mod_multiples_basic(pow2((top - k) as nat) as int, align as int);
    }
}

/// A size rounds up within `isize` exactly if it is this far below the end.
pub proof fn lemma_round_up_bound(n: int, align: usize)
    requires
        align > 0,
        is_pow2(align as int),
        n >= 0,
    ensures
        align <= isize::MAX + 1,
        round_up(n, align as int) <= isize::MAX <==> n <= isize::MAX - (align - 1),
{
    lemma_isize_range(align);
    let align = align as int;
    lemma_round_up(n, align);
    let end = isize::MAX + 1;
    let top = round_up(n, align);
    if top <= isize::MAX {
        // Two multiples of `align` that differ are at least `align` apart.
        lemma_fundamental_div_mod(top, align);
        lemma_fundamental_div_mod(end, align);
        let a = top / align;
        let b = end / align;
        assert(a < b) by (nonlinear_arith)
            requires
                align * a < align * b,
                align > 0,
        ;
        assert(align * a + align <= align * b) by (nonlinear_arith)
            requires
                a + 1 <= b,
                align > 0,
        ;
    }
}

/// The block starts one alignment unit behind the start of the header.
pub proof fn lemma_block_offset(layout: BlockLayout)
    requires
        layout.align > 0,
    ensures
        layout.block_offset() == layout.align,
{
    let a = layout.align as int;
    assert((1 + a - 1) / a == 1) by {
        lemma_div_by_self(a);
    }
}

} // verus!
