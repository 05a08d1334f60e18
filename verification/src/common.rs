//! Shared width definitions and the bit-level helpers of the core:
//! field extraction and sign extension.

use vstd::prelude::*;

verus! {

/// The register and instruction width of the guest.
pub type Word = u32;

/// A guest virtual address.
pub type Vaddr = Word;

/// The failures a single step can raise: a word no registry entry matches,
/// at the address that held it, or an access outside the mapped physical
/// window, at the offending address.
#[derive(Clone, Copy, PartialEq, Eq, Structural, Debug)]
pub enum EmuError {
    InvalidInstruction(Vaddr),
    OutOfBoundAccess(Vaddr),
}

/// A mask with the low `len` bits set.
pub open spec fn low_mask(len: u64) -> u64
    recommends
        len < 64,
{
    (((1u64 << len) - 1) as u64)
}

/// The field of `x` between bit positions `hi` and `lo`, both included.
pub open spec fn spec_bits(x: u32, hi: u32, lo: u32) -> u32
    recommends
        lo <= hi < 32,
{
    ((((x as u64) >> (lo as u64)) & low_mask((hi - lo + 1) as u64)) as u32)
}

/// Extracts bits `hi..=lo` of `x`, shifted down to the low end.
pub fn bits(x: u32, hi: u32, lo: u32) -> (r: u32)
    requires
        lo <= hi < 32,
    ensures
        r == spec_bits(x, hi, lo),
{
    let width: u64 = (hi - lo + 1) as u64;
    proof {
        assert(width < 64 ==> (1u64 << width) >= 1) by (bit_vector);
    }
    ((((x as u64) >> (lo as u64)) & ((1u64 << width) - 1)) as u32)
}

/// Sign extension: keep the low `len` bits of `x`; if the kept field's top
/// bit is set, fill every higher bit, otherwise return the field unchanged.
pub open spec fn spec_signext(x: u64, len: u64) -> u32
    recommends
        1 <= len < 64,
{
    let mask = low_mask(len);
    let value = (x & mask) as u64;
    if value & ((1u64 << ((len - 1) as u64)) as u64) != 0 {
        ((value | !mask) as u32)
    } else {
        (value as u32)
    }
}

/// Extends the low `len`-bit field of `x` to a full-width two's-complement
/// value.
pub fn signext(x: u64, len: u64) -> (r: Word)
    requires
        1 <= len < 64,
    ensures
        r == spec_signext(x, len),
{
    proof {
        assert(len < 64 ==> (1u64 << len) >= 1) by (bit_vector);
    }
    let mask: u64 = (1u64 << len) - 1;
    let value: u64 = x & mask;
    if value & (1u64 << (len - 1)) != 0 {
        ((value | !mask) as u32)
    } else {
        (value as u32)
    }
}

/// Sign extension leaves a field with a clear top bit unchanged, and turns
/// a one-bit field holding 1 into the all-bits-set full-width value.
pub proof fn lemma_signext_properties(x: u64, len: u64)
    requires
        1 <= len < 64,
    ensures
        x & (1u64 << ((len - 1) as u64)) == 0 ==> spec_signext(x, len) == ((x & low_mask(
            len,
        )) as u32),
        spec_signext(1, 1) == u32::MAX,
{
    let lm1: u64 = ((len - 1) as u64);
    let mask: u64 = low_mask(len);
    let value: u64 = ((x & mask) as u64);
    assert(mask == (((1u64 << (lm1 + 1) as u64) - 1) as u64));
    assert(x & (1u64 << lm1) == 0 ==> value & (1u64 << lm1) == 0) by (bit_vector)
        requires
            lm1 < 64,
            mask == (((1u64 << (lm1 + 1) as u64) - 1) as u64),
            value == ((x & mask) as u64),
    ;
    assert((((1u64 << 1u64) - 1) as u64) == 1u64) by (bit_vector);
    assert(1u64 & 1u64 == 1u64) by (bit_vector);
    assert((1u64 << 0u64) == 1u64) by (bit_vector);
    assert(((1u64 | !1u64) as u32) == u32::MAX) by (bit_vector);
}

} // verus!
