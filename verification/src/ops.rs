//! The arithmetic and logic operations of the machine, as specification
//! functions over words, together with the laws they obey.
//!
//! All architected values live in the 15-bit space `0..=32767`; every
//! operation here maps words in that space back into it.

use vstd::prelude::*;

verus! {

/// Sum of two words, reduced modulo 2^15.
pub open spec fn sum15(b: u16, c: u16) -> u16 {
    ((b + c) % 0x8000) as u16
}

/// Product of two words, reduced modulo 2^15.
pub open spec fn prod15(b: u16, c: u16) -> u16 {
    ((b * c) % 0x8000) as u16
}

/// Remainder of `b` divided by `c`; meaningful only for `c != 0`
/// (the dispatcher rejects a zero divisor before this is applied).
pub open spec fn rem15(b: u16, c: u16) -> u16 {
    if c == 0 {
        0
    } else {
        (b % c) as u16
    }
}

/// Bitwise conjunction.
pub open spec fn and15(b: u16, c: u16) -> u16 {
    b & c
}

/// Bitwise disjunction.
pub open spec fn or15(b: u16, c: u16) -> u16 {
    b | c
}

/// Bitwise complement, masked to 15 bits.
pub open spec fn not15(b: u16) -> u16 {
    !b & 0x7fff
}

/// Equality flag: 1 when the operands are equal, 0 otherwise.
pub open spec fn eq_flag(b: u16, c: u16) -> u16 {
    if b == c {
        1
    } else {
        0
    }
}

/// Strict greater-than flag: 1 when `b > c` (unsigned), 0 otherwise.
pub open spec fn gt_flag(b: u16, c: u16) -> u16 {
    if b > c {
        1
    } else {
        0
    }
}

/// The sum and the product land back in the 15-bit value space, and are
/// exactly the mathematical sum and product reduced modulo 32768.
pub proof fn lemma_sum_prod_mod(b: u16, c: u16)
    ensures
        sum15(b, c) < 32768,
        prod15(b, c) < 32768,
        sum15(b, c) == (b + c) % 32768,
        prod15(b, c) == (b * c) % 32768,
{
}

/// The remainder is below the divisor, hence in the value space.
pub proof fn lemma_rem_bound(b: u16, c: u16)
    requires
        c != 0,
    ensures
        rem15(b, c) < c,
        rem15(b, c) == b % c,
{
}

/// Conjunction and disjunction of words in the value space stay in it.
pub proof fn lemma_bitwise_bounds(b: u16, c: u16)
    requires
        b < 32768,
        c < 32768,
    ensures
        and15(b, c) < 32768,
        or15(b, c) < 32768,
        not15(b) < 32768,
{
    assert((b & c) < 32768 && (b | c) < 32768 && (!b & 0x7fff) < 32768) by (bit_vector)
        requires
            b < 32768,
            c < 32768,
    ;
}

/// The 15-bit complement is an involution on the value space.
pub proof fn lemma_not_involution(b: u16)
    requires
        b < 32768,
    ensures
        not15(not15(b)) == b,
{
    assert((!(!b & 0x7fff) & 0x7fff) == b) by (bit_vector)
        requires
            b < 32768,
    ;
}

/// The comparison flags take only the values 0 and 1; the greater-than
/// flag is strict, and the equality flag is symmetric.
pub proof fn lemma_flag_laws(b: u16, c: u16)
    ensures
        eq_flag(b, c) == 0 || eq_flag(b, c) == 1,
        gt_flag(b, c) == 0 || gt_flag(b, c) == 1,
        gt_flag(b, c) == 1 <==> b > c,
        gt_flag(b, b) == 0,
        eq_flag(b, c) == eq_flag(c, b),
{
}

} // verus!
