use vstd::prelude::*;
use vstd::arithmetic::power::pow;
use vstd::arithmetic::power2::{is_pow2, pow2, is_pow2_equiv, lemma2_to64, lemma_pow2_strictly_increases};
use vstd::bits::{low_bits_mask, lemma_u64_low_bits_mask_is_mod};
use vstd::layout::{size_of, align_of, align_properties, align_nonzero, unsigned_int_max_values};
use vstd::arithmetic::power2::lemma_pow2_unfold;
use crate::error::ChannelError;

verus! {

/// A value whose low bits under a power-of-two mask are clear is a multiple
/// of that power of two.
proof fn lemma_clear_low_bits_is_multiple(r: usize, align: usize)
    requires
        is_pow2(align as int),
        r & ((align - 1) as usize) == 0,
    ensures
        r % align == 0,
{
    broadcast use is_pow2_equiv;
    reveal(is_pow2);
    let n = choose|i: nat| pow(2, i) == align;
    assert(pow2(n) == align);
    lemma2_to64();
    if n >= 64 {
        if n > 64 {
            lemma_pow2_strictly_increases(64, n);
        }
        assert(false);
    }
    assert(low_bits_mask(n) == align - 1);
    lemma_u64_low_bits_mask_is_mod(r as u64, n);
    assert((r as u64) & ((align - 1) as u64) == (r & ((align - 1) as usize)) as u64) by (bit_vector);
}

/// Rounds `value` up to the next multiple of `align`, a power of two.
pub fn align_up(value: usize, align: usize) -> (r: usize)
    requires
        is_pow2(align as int),
        value + align - 1 <= usize::MAX,
    ensures
        r % align == 0,
        value <= r < value + align,
{
    proof { reveal(is_pow2); }
    let mask = align - 1;
    let sum = value + mask;
    let r = sum & !mask;
    assert(r & mask == 0 && r <= sum && sum - r <= mask) by (bit_vector)
        requires
            sum == value + mask,
            r == sum & !mask;
    proof { lemma_clear_low_bits_is_multiple(r, align); }
    r
}


/// Size in bytes of the control header at the start of every ring mapping.
pub const HEADER_SIZE: usize = 64;

/// Alignment in bytes of the control header (one cache line).
pub const HEADER_ALIGN: usize = 64;

/// A power of two that fits in a `usize` is at most half of `usize::MAX + 1`.
proof fn lemma_pow2_usize_bound(a: usize)
    requires
        is_pow2(a as int),
    ensures
        a <= (usize::MAX as int + 1) / 2,
{
    broadcast use is_pow2_equiv;
    let n = choose|i: nat| pow(2, i) == a;
    assert(pow2(n) == a);
    unsigned_int_max_values();
    let b = usize::BITS as nat;
    lemma_pow2_unfold(b);
    if n >= b {
        if n > b {
            lemma_pow2_strictly_increases(b, n);
        }
        assert(false);
    }
    if n < (b - 1) as nat {
        lemma_pow2_strictly_increases(n, (b - 1) as nat);
    }
}

/// In `[align, 2 * align)` the only multiple of `align` is `align` itself.
proof fn lemma_single_multiple(x: int, align: int)
    requires
        align >= 64,
        x % align == 0,
        64 <= x < 64 + align,
    ensures
        x == align || (x == 64 && align == 64),
{
    vstd::arithmetic::div_mod::lemma_fundamental_div_mod(x, align);
    let k = x / align;
    assert(x == align * k);
    assert(k >= 1) by (nonlinear_arith) requires x == align * k, x >= 64, align >= 64;
    assert(k < 2) by (nonlinear_arith) requires x == align * k, x < 64 + align, align >= 64;
    assert(x == align) by (nonlinear_arith) requires x == align * k, k == 1;
}

/// Where the header ends and the slots begin, and how large the whole mapping is,
/// for a ring of `capacity` slots of `item_size` bytes each.
pub struct RingLayout {
    pub capacity: usize,
    pub item_size: usize,
    pub data_offset: usize,
    pub total_size: usize,
}

/// The alignment the slot area needs: that of the item type, but never less than the header's.
pub open spec fn slot_align<T>() -> nat {
    if align_of::<T>() > HEADER_ALIGN as nat { align_of::<T>() } else { HEADER_ALIGN as nat }
}

/// Where the slots of a ring of items of type `T` start.
pub open spec fn slot_offset<T>() -> int {
    if (HEADER_SIZE as nat) % slot_align::<T>() == 0 {
        HEADER_SIZE as int
    } else {
        slot_align::<T>() as int
    }
}

/// A ring of `capacity` items of type `T` can be laid out: a positive capacity, items
/// that take space, and a total size that fits in a `usize`.
pub open spec fn layout_fits<T>(capacity: usize) -> bool {
    &&& capacity > 0
    &&& size_of::<T>() > 0
    &&& slot_offset::<T>() + capacity * size_of::<T>() <= usize::MAX
}

/// What building the layout of `capacity` items of type `T` gives: the layout, or
/// `InvalidCapacity` for a zero capacity or a size beyond `usize`, or `TypeMismatch`
/// for a zero-sized item type.
pub open spec fn layout_outcome<T>(capacity: usize, r: Result<RingLayout, ChannelError>) -> bool {
    match r {
        Ok(l) => {
            &&& capacity > 0
            &&& size_of::<T>() > 0
            &&& l.capacity == capacity
            &&& l.item_size == size_of::<T>()
            &&& (l.data_offset as nat) % slot_align::<T>() == 0
            &&& HEADER_SIZE <= l.data_offset < HEADER_SIZE + slot_align::<T>()
            &&& l.data_offset == slot_offset::<T>()
            &&& l.total_size == l.data_offset + capacity * size_of::<T>()
            &&& l.wf()
        },
        Err(ChannelError::InvalidCapacity) => {
            ||| capacity == 0
            ||| (size_of::<T>() > 0 && slot_offset::<T>() + capacity * size_of::<T>() > usize::MAX)
        },
        Err(ChannelError::TypeMismatch { expected, found }) => {
            &&& capacity > 0
            &&& size_of::<T>() == 0
            &&& expected == 1
            &&& found == 0
        },
        _ => false,
    }
}

impl RingLayout {
    /// The layout is consistent: slots follow the header, aligned, and all of it fits.
    pub open spec fn wf(&self) -> bool {
        &&& self.capacity > 0
        &&& self.item_size > 0
        &&& HEADER_SIZE <= self.data_offset
        &&& self.total_size == self.data_offset + self.capacity * self.item_size
    }

    /// The layout of a ring of `capacity` items of type `T`.
    pub fn new<T>(capacity: usize) -> (r: Result<RingLayout, ChannelError>)
        ensures
            layout_outcome::<T>(capacity, r),
            r is Ok <==> layout_fits::<T>(capacity),
    {
        if capacity == 0 {
            return Err(ChannelError::InvalidCapacity);
        }
        let item_size = core::mem::size_of::<T>();
        if item_size == 0 {
            return Err(ChannelError::TypeMismatch { expected: 1, found: 0 });
        }
        let item_align = core::mem::align_of::<T>();
        let align = if item_align > HEADER_ALIGN { item_align } else { HEADER_ALIGN };
        proof {
            broadcast use align_properties, align_nonzero;
            reveal_with_fuel(is_pow2, 8);
            assert(is_pow2(HEADER_ALIGN as int));
            lemma_pow2_usize_bound(align);
        }
        let data_offset = align_up(HEADER_SIZE, align);
        proof {
            lemma_single_multiple(data_offset as int, align as int);
            if (HEADER_SIZE as nat) % slot_align::<T>() == 0 {
                assert(align == HEADER_SIZE) by (nonlinear_arith)
                    requires align >= 64, 64usize % align == 0;
            }
        }
        let data_bytes = match item_size.checked_mul(capacity) {
            Some(b) => b,
            None => {
                proof { vstd::arithmetic::mul::lemma_mul_is_commutative(item_size as int, capacity as int); }
                return Err(ChannelError::InvalidCapacity);
            },
        };
        let total_size = match data_offset.checked_add(data_bytes) {
            Some(t) => t,
            None => {
                proof { vstd::arithmetic::mul::lemma_mul_is_commutative(item_size as int, capacity as int); }
                return Err(ChannelError::InvalidCapacity);
            },
        };
        proof { vstd::arithmetic::mul::lemma_mul_is_commutative(item_size as int, capacity as int); }
        Ok(RingLayout { capacity, item_size, data_offset, total_size })
    }
}

} // verus!
