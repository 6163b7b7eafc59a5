//! Congruence modulo the field order, and how the field operations respect
//! it.

use crate::field::{fadd, fmul, fneg, modulus};
use vstd::arithmetic::div_mod::{
    lemma_add_mod_noop, lemma_mod_twice, lemma_mul_mod_noop_general, lemma_small_mod,
    lemma_sub_mod_noop,
};
use vstd::prelude::*;

verus! {

/// Two integers name the same residue.
pub open spec fn congruent(a: int, b: int) -> bool {
    a % modulus() == b % modulus()
}

/// Congruence is kept by sums.
pub proof fn lemma_congruent_add(a: int, b: int, c: int, d: int)
    requires
        congruent(a, b),
        congruent(c, d),
    ensures
        congruent(a + c, b + d),
{
    lemma_add_mod_noop(a, c, modulus());
    lemma_add_mod_noop(b, d, modulus());
}

/// Congruence is kept by differences.
pub proof fn lemma_congruent_sub(a: int, b: int, c: int, d: int)
    requires
        congruent(a, b),
        congruent(c, d),
    ensures
        congruent(a - c, b - d),
{
    lemma_sub_mod_noop(a, c, modulus());
    lemma_sub_mod_noop(b, d, modulus());
}

/// Congruence is kept by products.
pub proof fn lemma_congruent_mul(a: int, b: int, c: int, d: int)
    requires
        congruent(a, b),
        congruent(c, d),
    ensures
        congruent(a * c, b * d),
{
    lemma_mul_mod_noop_general(a, c, modulus());
    lemma_mul_mod_noop_general(b, d, modulus());
}

/// A residue is congruent to the integer it was reduced from.
pub proof fn lemma_congruent_reduced(a: int)
    ensures
        congruent(a % modulus(), a),
        0 <= a % modulus() < modulus(),
{
    lemma_mod_twice(a, modulus());
}

/// A sum of residues names the sum of what they stand for.
pub proof fn lemma_fadd(a: int, a0: int, b: int, b0: int)
    requires
        congruent(a, a0),
        congruent(b, b0),
    ensures
        congruent(fadd(a, b), a0 + b0),
        0 <= fadd(a, b) < modulus(),
{
    lemma_congruent_add(a, a0, b, b0);
    lemma_congruent_reduced(a + b);
}

/// A difference of residues, written as a sum with a negation, names the
/// difference of what they stand for.
pub proof fn lemma_fsub(a: int, a0: int, b: int, b0: int)
    requires
        congruent(a, a0),
        congruent(b, b0),
    ensures
        congruent(fadd(a, fneg(b)), a0 - b0),
        0 <= fadd(a, fneg(b)) < modulus(),
{
    lemma_congruent_sub(0, 0, b, b0);
    lemma_congruent_reduced(-b);
    lemma_fadd(a, a0, fneg(b), -b0);
}

/// A product of residues names the product of what they stand for.
pub proof fn lemma_fmul(a: int, a0: int, b: int, b0: int)
    requires
        congruent(a, a0),
        congruent(b, b0),
    ensures
        congruent(fmul(a, b), a0 * b0),
        0 <= fmul(a, b) < modulus(),
{
    lemma_congruent_mul(a, a0, b, b0);
    lemma_congruent_reduced(a * b);
}

/// A product with a factor that reads one takes the other factor's value;
/// with a factor that reads zero it vanishes.
pub proof fn lemma_weighted(weight: int, value: int)
    requires
        0 <= value < modulus(),
    ensures
        weight == 1 ==> fmul(weight, value) == value,
        weight == 0 ==> fmul(weight, value) == 0,
{
    if weight == 1 {
        assert(weight * value == value) by (nonlinear_arith)
            requires
                weight == 1,
        ;
        lemma_small_mod(value as nat, modulus() as nat);
    }
    if weight == 0 {
        assert(weight * value == 0) by (nonlinear_arith)
            requires
                weight == 0,
        ;
    }
}

/// Congruent residues are equal.
pub proof fn lemma_congruent_residues(a: int, b: int)
    requires
        congruent(a, b),
        0 <= a < modulus(),
        0 <= b < modulus(),
    ensures
        a == b,
{
    lemma_small_mod(a as nat, modulus() as nat);
    lemma_small_mod(b as nat, modulus() as nat);
}

} // verus!
