//! Arithmetic in the prime field the library computes in.
//!
//! The circuits here only need a field of odd characteristic large enough to
//! hold the handful of small values the demo circuits exchange, so the modulus
//! is kept small: every fact about the field that the correctness arguments
//! need (chiefly that `x * (x - 1) = 0` has no root besides 0 and 1) can then
//! be established by finite enumeration rather than by a primality argument.
//! Nothing in the constraint logic depends on the particular odd prime.

use vstd::prelude::*;

verus! {

/// The field modulus: a prime, and odd, so that 0 and 1 are the only
/// square roots of themselves.
pub const FIELD_MODULUS: u64 = 11;

/// The canonical representative of `-1`, the coefficient subtraction uses in
/// a linear combination.
pub const MINUS_ONE: u64 = FIELD_MODULUS - 1;

/// A value is a canonical field element when it lies in `[0, FIELD_MODULUS)`.
pub open spec fn in_field(a: int) -> bool {
    0 <= a < FIELD_MODULUS
}

/// Field addition on canonical representatives.
pub open spec fn fadd(a: int, b: int) -> int {
    (a + b) % (FIELD_MODULUS as int)
}

/// Field subtraction on canonical representatives. `%` on `int` is the
/// Euclidean remainder, so the result is canonical even when `a < b`.
pub open spec fn fsub(a: int, b: int) -> int {
    (a - b) % (FIELD_MODULUS as int)
}

/// Field multiplication on canonical representatives.
pub open spec fn fmul(a: int, b: int) -> int {
    (a * b) % (FIELD_MODULUS as int)
}

/// A field element that is a bit: the only values a booleanity constraint
/// admits.
pub open spec fn is_bit(a: int) -> bool {
    a == 0 || a == 1
}

/// Adds two field elements.
pub fn add_fe(a: u64, b: u64) -> (r: u64)
    requires
        in_field(a as int),
        in_field(b as int),
    ensures
        in_field(r as int),
        r == fadd(a as int, b as int),
{
    (a + b) % FIELD_MODULUS
}

/// Subtracts one field element from another.
pub fn sub_fe(a: u64, b: u64) -> (r: u64)
    requires
        in_field(a as int),
        in_field(b as int),
    ensures
        in_field(r as int),
        r == fsub(a as int, b as int),
{
    (a + FIELD_MODULUS - b) % FIELD_MODULUS
}

/// Multiplies two field elements.
pub fn mul_fe(a: u64, b: u64) -> (r: u64)
    requires
        in_field(a as int),
        in_field(b as int),
    ensures
        in_field(r as int),
        r == fmul(a as int, b as int),
{
    proof {
        assert((a as int) * (b as int) < 121) by (nonlinear_arith)
            requires
                a < 11,
                b < 11,
        ;
    }
    (a * b) % FIELD_MODULUS
}

/// Every field operation yields a canonical element.
pub proof fn lemma_field_range(a: int, b: int)
    ensures
        in_field(fadd(a, b)),
        in_field(fsub(a, b)),
        in_field(fmul(a, b)),
{
}

/// Multiplying a canonical element by 1 leaves it unchanged.
pub proof fn lemma_fmul_one(a: int)
    requires
        in_field(a),
    ensures
        fmul(1, a) == a,
        fmul(a, 1) == a,
{
}

/// Adding 0 to a canonical element leaves it unchanged.
pub proof fn lemma_fadd_zero(a: int)
    requires
        in_field(a),
    ensures
        fadd(a, 0) == a,
        fadd(0, a) == a,
{
}

/// Subtracting 0 from a canonical element leaves it unchanged.
pub proof fn lemma_fsub_zero(a: int)
    requires
        in_field(a),
    ensures
        fsub(a, 0) == a,
{
}

/// Adding the canonical representative of -1 subtracts one.
pub proof fn lemma_fadd_minus_one(a: int)
    requires
        in_field(a),
    ensures
        fadd(a, MINUS_ONE as int) == fsub(a, 1),
{
}

/// Rearranges a field sum of four addends: `(a + b) + (x + y)` equals
/// `(a + x) + (b + y)`.
pub proof fn lemma_fadd_assoc_comm(a: int, b: int, x: int, y: int)
    ensures
        fadd(fadd(a, b), fadd(x, y)) == fadd(fadd(a, x), fadd(b, y)),
{
    let m = FIELD_MODULUS as int;
    vstd::arithmetic::div_mod::lemma_add_mod_noop(a + b, x + y, m);
    vstd::arithmetic::div_mod::lemma_add_mod_noop(a + x, b + y, m);
}

/// Multiplying by 0 yields 0.
pub proof fn lemma_fmul_zero(a: int)
    ensures
        fmul(0, a) == 0,
        fmul(a, 0) == 0,
{
}

/// In this field, a value whose booleanity product `x * (x - 1)` vanishes is
/// 0 or 1: the booleanity constraint admits no other assignment. Established
/// by enumerating the whole field, which is what keeping the modulus small
/// buys.
pub proof fn lemma_bit_of_vanishing_square(x: int)
    requires
        in_field(x),
        fmul(x, fsub(x, 1)) == 0,
    ensures
        is_bit(x),
{
    if !is_bit(x) {
        if x == 2 {
            assert(fmul(2, fsub(2, 1)) == 2);
        } else if x == 3 {
            assert(fmul(3, fsub(3, 1)) == 6);
        } else if x == 4 {
            assert(fmul(4, fsub(4, 1)) == 1);
        } else if x == 5 {
            assert(fmul(5, fsub(5, 1)) == 9);
        } else if x == 6 {
            assert(fmul(6, fsub(6, 1)) == 8);
        } else if x == 7 {
            assert(fmul(7, fsub(7, 1)) == 9);
        } else if x == 8 {
            assert(fmul(8, fsub(8, 1)) == 1);
        } else if x == 9 {
            assert(fmul(9, fsub(9, 1)) == 6);
        } else {
            assert(x == 10);
            assert(fmul(10, fsub(10, 1)) == 2);
        }
    }
}

} // verus!

