//! Elements of the Pallas base field and the modular arithmetic the gates are
//! stated in.

use halo2_proofs::pasta::group::ff::{Field, PrimeField};
use halo2_proofs::pasta::Fp;
use vstd::arithmetic::div_mod::{lemma_add_mod_noop_right, lemma_sub_mod_noop_right};
use vstd::prelude::*;

verus! {

/// The order of the Pallas base field,
/// `0x40000000000000000000000000000000224698fc094cf91b992d30ed00000001`.
pub open spec fn modulus() -> int {
    28948022309329048855892746252171976963363056481941560715954676764349967630337int
}

/// Sum of two residues.
pub open spec fn fadd(a: int, b: int) -> int {
    (a + b) % modulus()
}

/// Product of two residues.
pub open spec fn fmul(a: int, b: int) -> int {
    (a * b) % modulus()
}

/// Additive inverse of a residue.
pub open spec fn fneg(a: int) -> int {
    (-a) % modulus()
}

/// The number that a little-endian byte string stands for.
pub open spec fn le_value(bytes: Seq<u8>) -> int
    decreases bytes.len(),
{
    if bytes.len() == 0 {
        0
    } else {
        bytes[0] as int + 256 * le_value(bytes.skip(1))
    }
}

/// Calls `Fp::from(u64)` and `PrimeField::to_repr` of pasta_curves: the
/// canonical little-endian bytes of the field element that the integer names.
/// Every `u64` is below the modulus, so the bytes stand for `v` itself.
#[verifier::external_body]
fn repr_from_u64(v: u64) -> (r: [u8; 32])
    ensures
        le_value(r@) == v,
{
    Fp::from(v).to_repr()
}

/// Calls `PrimeField::from_repr` of pasta_curves, which accepts a byte string
/// exactly when the number it stands for is below the modulus.
#[verifier::external_body]
fn repr_is_canonical(bytes: &[u8; 32]) -> (r: bool)
    ensures
        r == (le_value(bytes@) < modulus()),
{
    bool::from(Fp::from_repr(*bytes).is_some())
}

/// Calls `Fp::add` of pasta_curves on two canonical byte strings (through
/// `PrimeField::from_repr` and `to_repr`): the canonical bytes of the sum
/// modulo the field order.
#[verifier::external_body]
fn repr_add(a: &[u8; 32], b: &[u8; 32]) -> (r: [u8; 32])
    requires
        le_value(a@) < modulus(),
        le_value(b@) < modulus(),
    ensures
        le_value(r@) == fadd(le_value(a@), le_value(b@)),
{
    Fp::from_repr(*a).unwrap().add(&Fp::from_repr(*b).unwrap()).to_repr()
}

/// Calls `Fp::mul` of pasta_curves on two canonical byte strings (through
/// `PrimeField::from_repr` and `to_repr`): the canonical bytes of the product
/// modulo the field order.
#[verifier::external_body]
fn repr_mul(a: &[u8; 32], b: &[u8; 32]) -> (r: [u8; 32])
    requires
        le_value(a@) < modulus(),
        le_value(b@) < modulus(),
    ensures
        le_value(r@) == fmul(le_value(a@), le_value(b@)),
{
    Fp::from_repr(*a).unwrap().mul(&Fp::from_repr(*b).unwrap()).to_repr()
}

/// Calls `Fp::neg` of pasta_curves on a canonical byte string (through
/// `PrimeField::from_repr` and `to_repr`): the canonical bytes of the additive
/// inverse modulo the field order.
#[verifier::external_body]
fn repr_neg(a: &[u8; 32]) -> (r: [u8; 32])
    requires
        le_value(a@) < modulus(),
    ensures
        le_value(r@) == fneg(le_value(a@)),
{
    Fp::from_repr(*a).unwrap().neg().to_repr()
}

/// Calls `Field::invert` of ff, as pasta_curves implements it for `Fp`, on a
/// canonical byte string (through `PrimeField::from_repr` and `to_repr`):
/// nothing for zero, and for any other element the canonical bytes of the
/// element whose product with it is one.
#[verifier::external_body]
fn repr_invert(a: &[u8; 32]) -> (r: Option<[u8; 32]>)
    requires
        le_value(a@) < modulus(),
    ensures
        r is Some <==> le_value(a@) != 0,
        r is Some ==> le_value(r->0@) < modulus() && fmul(le_value(r->0@), le_value(a@)) == 1,
{
    match Option::<Fp>::from(Fp::from_repr(*a).unwrap().invert()) {
        Some(inverse) => Some(inverse.to_repr()),
        None => None,
    }
}

/// The canonical bytes of the multiplicative identity.
pub open spec fn unit_repr() -> Seq<u8> {
    Seq::new(32, |i: int| if i == 0 { 1u8 } else { 0u8 })
}

/// An element of the Pallas base field, held as its canonical little-endian
/// bytes.
#[derive(Clone, Copy, Debug, PartialEq, Eq)]
pub struct Fe {
    bytes: [u8; 32],
}

impl Fe {
    /// The residue in `[0, modulus())` that the element stands for.
    pub closed spec fn value(&self) -> int {
        le_value(self.bytes@)
    }

    /// The bytes the element holds.
    pub closed spec fn repr(&self) -> Seq<u8> {
        self.bytes@
    }

    /// The element's bytes are canonical: its value is a residue.
    pub open spec fn wf(&self) -> bool {
        0 <= self.value() < modulus()
    }

    /// The additive identity.
    pub fn zero() -> (r: Fe)
        ensures
            r.wf(),
            r.value() == 0,
    {
        let r = Fe { bytes: [0u8; 32] };
        proof {
            lemma_le_value_zero(r.bytes@);
        }
        r
    }

    /// The multiplicative identity: the byte 1 followed by zeros.
    pub closed spec fn unit() -> Fe {
        Fe {
            bytes: vstd::array::spec_array_update(
                vstd::array::spec_array_fill_for_copy_type::<u8, 32>(0u8),
                0,
                1u8,
            ),
        }
    }

    /// The multiplicative identity stands for one.
    pub proof fn lemma_unit_value()
        ensures
            Fe::unit().wf(),
            Fe::unit().value() == 1,
            Fe::unit().repr() == unit_repr(),
    {
        let bytes = Fe::unit().bytes@;
        assert(bytes =~= unit_repr());
        lemma_le_value_zero(bytes.skip(1));
    }

    /// The multiplicative identity.
    pub fn one() -> (r: Fe)
        ensures
            r == Fe::unit(),
            r.wf(),
            r.value() == 1,
    {
        let mut bytes = [0u8; 32];
        bytes[0] = 1;
        let r = Fe { bytes };
        proof {
            Fe::lemma_unit_value();
            assert(r.bytes@ =~= Fe::unit().bytes@);
            assert(r.bytes == Fe::unit().bytes);
        }
        r
    }

    /// The element that a small integer names.
    pub fn from_u64(v: u64) -> (r: Fe)
        ensures
            r.wf(),
            r.value() == v,
    {
        Fe { bytes: repr_from_u64(v) }
    }

    /// The element with the given canonical bytes, if they are canonical.
    pub fn from_bytes(bytes: [u8; 32]) -> (r: Option<Fe>)
        ensures
            r is Some <==> le_value(bytes@) < modulus(),
            r is Some ==> r->0.wf() && r->0.repr() == bytes@ && r->0.value() == le_value(bytes@),
    {
        if repr_is_canonical(&bytes) {
            proof {
                lemma_le_value_nonneg(bytes@);
            }
            Some(Fe { bytes })
        } else {
            None
        }
    }

    /// The canonical little-endian bytes of the element.
    pub fn to_bytes(&self) -> (r: [u8; 32])
        ensures
            r@ == self.repr(),
            le_value(r@) == self.value(),
    {
        self.bytes
    }

    /// Field addition.
    pub fn add(&self, other: &Fe) -> (r: Fe)
        requires
            self.wf(),
            other.wf(),
        ensures
            r.wf(),
            r.value() == fadd(self.value(), other.value()),
    {
        Fe { bytes: repr_add(&self.bytes, &other.bytes) }
    }

    /// Field multiplication.
    pub fn mul(&self, other: &Fe) -> (r: Fe)
        requires
            self.wf(),
            other.wf(),
        ensures
            r.wf(),
            r.value() == fmul(self.value(), other.value()),
    {
        Fe { bytes: repr_mul(&self.bytes, &other.bytes) }
    }

    /// Field negation.
    pub fn neg(&self) -> (r: Fe)
        requires
            self.wf(),
        ensures
            r.wf(),
            r.value() == fneg(self.value()),
    {
        Fe { bytes: repr_neg(&self.bytes) }
    }

    /// Field subtraction.
    pub fn sub(&self, other: &Fe) -> (r: Fe)
        requires
            self.wf(),
            other.wf(),
        ensures
            r.wf(),
            r.value() == (self.value() - other.value()) % modulus(),
    {
        let r = self.add(&other.neg());
        proof {
            lemma_sub_mod_noop_right(0, other.value(), modulus());
            lemma_add_mod_noop_right(self.value(), -other.value(), modulus());
        }
        r
    }

    /// The square of the element.
    pub fn square(&self) -> (r: Fe)
        requires
            self.wf(),
        ensures
            r.wf(),
            r.value() == fmul(self.value(), self.value()),
    {
        self.mul(self)
    }

    /// Whether two elements stand for the same residue, which is to say
    /// whether they are the same element.
    pub fn equals(&self, other: &Fe) -> (r: bool)
        ensures
            r == (self.value() == other.value()),
            r == (*self == *other),
    {
        let mut i: usize = 0;
        while i < 32
            invariant
                i <= 32,
                forall|j: int| 0 <= j < i ==> self.bytes@[j] == other.bytes@[j],
            decreases 32 - i,
        {
            if self.bytes[i] != other.bytes[i] {
                proof {
                    if self.value() == other.value() {
                        lemma_value_determines(*self, *other);
                    }
                }
                return false;
            }
            i += 1;
        }
        proof {
            assert(self.bytes@ =~= other.bytes@);
            assert(self.bytes == other.bytes);
        }
        true
    }

    /// The multiplicative inverse, which every element but zero has.
    pub fn invert(&self) -> (r: Option<Fe>)
        requires
            self.wf(),
        ensures
            r is Some <==> self.value() != 0,
            r is Some ==> r->0.wf() && fmul(r->0.value(), self.value()) == 1,
    {
        match repr_invert(&self.bytes) {
            Some(bytes) => {
                proof {
                    lemma_le_value_nonneg(bytes@);
                }
                Some(Fe { bytes })
            },
            None => None,
        }
    }

    /// Whether the element is the additive identity.
    pub fn is_zero(&self) -> (r: bool)
        ensures
            r == (self.value() == 0),
    {
        let mut i: usize = 0;
        while i < 32
            invariant
                i <= 32,
                forall|j: int| 0 <= j < i ==> self.bytes@[j] == 0,
            decreases 32 - i,
        {
            if self.bytes[i] != 0 {
                proof {
                    lemma_le_value_zero(self.bytes@);
                }
                return false;
            }
            i += 1;
        }
        proof {
            lemma_le_value_zero(self.bytes@);
        }
        true
    }
}

/// A little-endian value is never negative.
pub proof fn lemma_le_value_nonneg(bytes: Seq<u8>)
    ensures
        le_value(bytes) >= 0,
    decreases bytes.len(),
{
    if bytes.len() > 0 {
        lemma_le_value_nonneg(bytes.skip(1));
    }
}

/// A little-endian value is zero exactly when every byte is zero.
pub proof fn lemma_le_value_zero(bytes: Seq<u8>)
    ensures
        le_value(bytes) == 0 <==> (forall|j: int| 0 <= j < bytes.len() ==> bytes[j] == 0),
    decreases bytes.len(),
{
    if bytes.len() > 0 {
        let rest = bytes.skip(1);
        lemma_le_value_zero(rest);
        lemma_le_value_nonneg(rest);
        if le_value(bytes) == 0 {
            assert(le_value(rest) == 0);
            assert forall|j: int| 0 <= j < bytes.len() implies bytes[j] == 0 by {
                if j > 0 {
                    assert(rest[j - 1] == bytes[j]);
                }
            }
        }
        if forall|j: int| 0 <= j < bytes.len() ==> bytes[j] == 0 {
            assert forall|j: int| 0 <= j < rest.len() implies rest[j] == 0 by {
                assert(rest[j] == bytes[j + 1]);
            }
        }
    }
}

/// Byte strings of one length that stand for the same number are equal.
pub proof fn lemma_le_value_injective(a: Seq<u8>, b: Seq<u8>)
    requires
        a.len() == b.len(),
        le_value(a) == le_value(b),
    ensures
        a == b,
    decreases a.len(),
{
    if a.len() > 0 {
        lemma_le_value_injective(a.skip(1), b.skip(1));
        assert forall|i: int| 0 <= i < a.len() implies a[i] == b[i] by {
            if i > 0 {
                assert(a.skip(1)[i - 1] == a[i]);
                assert(b.skip(1)[i - 1] == b[i]);
            }
        }
    }
    assert(a =~= b);
}

/// An element is determined by the residue it stands for.
pub proof fn lemma_value_determines(a: Fe, b: Fe)
    requires
        a.value() == b.value(),
    ensures
        a == b,
{
    lemma_le_value_injective(a.bytes@, b.bytes@);
    assert(a.bytes =~= b.bytes);
}

} // verus!
