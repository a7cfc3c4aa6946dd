//! Arithmetic in the Goldilocks prime field, the base field of every trace
//! table. Elements are kept in canonical form: a `u64` strictly below
//! `FIELD_ORDER`.

use vstd::prelude::*;

verus! {

/// The Goldilocks prime 2^64 - 2^32 + 1.
pub const FIELD_ORDER: u64 = 0xFFFF_FFFF_0000_0001;

/// The field order as a mathematical integer.
pub open spec fn fp() -> int {
    FIELD_ORDER as int
}

/// A canonical field element.
pub open spec fn is_canon(x: u64) -> bool {
    x < FIELD_ORDER
}

/// Field addition, mathematically.
pub open spec fn fadd(a: int, b: int) -> int {
    (a + b) % fp()
}

/// Field subtraction, mathematically.
pub open spec fn fsub(a: int, b: int) -> int {
    (a + fp() - b) % fp()
}

/// Field multiplication, mathematically.
pub open spec fn fmul(a: int, b: int) -> int {
    (a * b) % fp()
}

/// Adds two canonical field elements.
pub fn f_add(a: u64, b: u64) -> (r: u64)
    requires
        is_canon(a),
        is_canon(b),
    ensures
        r as int == fadd(a as int, b as int),
        is_canon(r),
{
    let s: u128 = (a as u128) + (b as u128);
    let m: u128 = s % (FIELD_ORDER as u128);
    m as u64
}

/// Subtracts one canonical field element from another.
pub fn f_sub(a: u64, b: u64) -> (r: u64)
    requires
        is_canon(a),
        is_canon(b),
    ensures
        r as int == fsub(a as int, b as int),
        is_canon(r),
{
    let s: u128 = (a as u128) + (FIELD_ORDER as u128) - (b as u128);
    let m: u128 = s % (FIELD_ORDER as u128);
    m as u64
}

/// Multiplies two canonical field elements.
pub fn f_mul(a: u64, b: u64) -> (r: u64)
    requires
        is_canon(a),
        is_canon(b),
    ensures
        r as int == fmul(a as int, b as int),
        is_canon(r),
{
    proof {
        assert((a as int) * (b as int) <= 0xFFFF_FFFF_FFFF_FFFFint * 0xFFFF_FFFF_FFFF_FFFFint)
            by (nonlinear_arith)
            requires
                a as int <= 0xFFFF_FFFF_FFFF_FFFFint,
                b as int <= 0xFFFF_FFFF_FFFF_FFFFint,
        ;
    }
    let pr: u128 = (a as u128) * (b as u128);
    let m: u128 = pr % (FIELD_ORDER as u128);
    m as u64
}

} // verus!
