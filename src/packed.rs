//! Bit layout of the packed state word: the handle count in the high 64 bits,
//! the tag of the installed value in the low 64 bits.
use vstd::prelude::*;

verus! {

/// Selects the handle-count half of a packed word.
pub const MASK_STRONG: u128 = 0xFFFF_FFFF_FFFF_FFFF_0000_0000_0000_0000;

/// Selects the value-tag half of a packed word.
pub const MASK_PTR: u128 = 0x0000_0000_0000_0000_FFFF_FFFF_FFFF_FFFF;

/// One handle, in the count's position.
pub const ONE_STRONG: u128 = 0x0000_0000_0000_0001_0000_0000_0000_0000;

/// The handle count stored in `w`.
pub open spec fn strong_of(w: u128) -> u64 {
    (w >> 64u128) as u64
}

/// The value tag stored in `w`.
pub open spec fn ptr_of(w: u128) -> u64 {
    (w & MASK_PTR) as u64
}

/// The word that holds `strong` handles and the tag `ptr`.
pub open spec fn pack(strong: u64, ptr: u64) -> u128 {
    ((strong as u128) << 64u128) | (ptr as u128)
}

/// Unpacking a packed word gives back the two halves it was made of.
pub broadcast proof fn lemma_unpack_pack(strong: u64, ptr: u64)
    ensures
        strong_of(#[trigger] pack(strong, ptr)) == strong,
        ptr_of(pack(strong, ptr)) == ptr,
{
    assert((((strong as u128) << 64u128) | (ptr as u128)) >> 64u128 == strong as u128)
        by (bit_vector);
    assert(((((strong as u128) << 64u128) | (ptr as u128)) & 0xFFFF_FFFF_FFFF_FFFFu128)
        == ptr as u128) by (bit_vector);
}

/// Every word is the packing of its two halves.
pub proof fn lemma_pack_unpack(w: u128)
    ensures
        pack(strong_of(w), ptr_of(w)) == w,
{
    assert((((w >> 64u128) as u64 as u128) << 64u128) | ((w & 0xFFFF_FFFF_FFFF_FFFFu128) as u64
        as u128) == w) by (bit_vector);
}

/// Builds the word that holds `strong` handles and the tag `ptr`.
pub fn pack_word(strong: u64, ptr: u64) -> (w: u128)
    ensures
        w == pack(strong, ptr),
        strong_of(w) == strong,
        ptr_of(w) == ptr,
{
    proof {
        lemma_unpack_pack(strong, ptr);
    }
    ((strong as u128) << 64u128) | (ptr as u128)
}

/// Reads the handle count out of `w`.
pub fn strong_bits(w: u128) -> (r: u64)
    ensures
        r == strong_of(w),
{
    assert((w & 0xFFFF_FFFF_FFFF_FFFF_0000_0000_0000_0000u128) >> 64u128 == w >> 64u128)
        by (bit_vector);
    assert(w >> 64u128 <= 0xFFFF_FFFF_FFFF_FFFFu128) by (bit_vector);
    ((w & MASK_STRONG) >> 64u128) as u64
}

/// Reads the value tag out of `w`.
pub fn ptr_bits(w: u128) -> (r: u64)
    ensures
        r == ptr_of(w),
{
    (w & MASK_PTR) as u64
}

/// Replaces the value tag of `w`, keeping its handle count.
pub fn with_ptr(w: u128, ptr: u64) -> (r: u128)
    ensures
        r == pack(strong_of(w), ptr),
        strong_of(r) == strong_of(w),
        ptr_of(r) == ptr,
{
    let strong = strong_bits(w);
    pack_word(strong, ptr)
}

/// Replaces the handle count of `w`, keeping its value tag.
pub fn with_strong(w: u128, strong: u64) -> (r: u128)
    ensures
        r == pack(strong, ptr_of(w)),
        strong_of(r) == strong,
        ptr_of(r) == ptr_of(w),
{
    let ptr = ptr_bits(w);
    pack_word(strong, ptr)
}

/// Adds one handle to `w`, whose count must be below its maximum; the tag
/// is not touched.
pub fn add_one_strong(w: u128) -> (r: u128)
    requires
        strong_of(w) < u64::MAX,
    ensures
        r == pack((strong_of(w) + 1) as u64, ptr_of(w)),
        strong_of(r) == strong_of(w) + 1,
        ptr_of(r) == ptr_of(w),
{
    let strong = strong_bits(w);
    with_strong(w, strong + 1)
}

/// Takes one handle from `w`, whose count must be positive.
pub fn sub_one_strong(w: u128) -> (r: u128)
    requires
        strong_of(w) > 0,
    ensures
        r == pack((strong_of(w) - 1) as u64, ptr_of(w)),
        strong_of(r) == strong_of(w) - 1,
        ptr_of(r) == ptr_of(w),
{
    let strong = strong_bits(w);
    with_strong(w, strong - 1)
}

} // verus!
