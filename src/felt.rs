//! Elements of the bn256 scalar field, held as canonical little-endian bytes.
//!
//! The arithmetic itself is done by `halo2curves`; this module states, for each
//! operation, the residue it yields.
use halo2curves::bn256::Fr;
use halo2curves::ff::PrimeField;
use vstd::arithmetic::div_mod::lemma_small_mod;
use vstd::prelude::*;

verus! {

/// The order of the bn256 scalar field.
/// Written in 64-bit limbs, least significant first:
/// `0x30644e72e131a029b85045b68181585d2833e84879b9709143e1f593f0000001`.
pub open spec fn modulus() -> nat {
    let w: nat = 0x1_0000_0000_0000_0000;
    0x43e1f593f0000001 + w * (0x2833e84879b97091 + w * (0xb85045b68181585d + w
        * 0x30644e72e131a029))
}

/// The number written by `s` in little-endian base 256.
pub open spec fn le_value(s: Seq<u8>) -> nat
    decreases s.len(),
{
    if s.len() == 0 {
        0
    } else {
        s[0] as nat + 256 * le_value(s.drop_first())
    }
}

/// A byte string is canonical when it writes a residue below the modulus.
pub open spec fn canonical(s: Seq<u8>) -> bool {
    le_value(s) < modulus()
}

/// Relies on `Fr::from_repr`, `Fr + Fr` and `Fr::to_repr` of halo2curves: the sum of
/// two canonical residues, reduced modulo the field order.
#[verifier::external_body]
fn fr_add(a: &[u8; 32], b: &[u8; 32]) -> (r: [u8; 32])
    requires
        canonical(a@),
        canonical(b@),
    ensures
        le_value(r@) == (le_value(a@) + le_value(b@)) % modulus(),
{
    let x = Fr::from_repr((*a).into()).unwrap();
    let y = Fr::from_repr((*b).into()).unwrap();
    (x + y).to_repr().into()
}

/// Relies on `Fr::from_repr`, `Fr - Fr` and `Fr::to_repr` of halo2curves: the
/// difference of two canonical residues, reduced modulo the field order.
#[verifier::external_body]
fn fr_sub(a: &[u8; 32], b: &[u8; 32]) -> (r: [u8; 32])
    requires
        canonical(a@),
        canonical(b@),
    ensures
        le_value(r@) == (le_value(a@) - le_value(b@)) % (modulus() as int),
{
    let x = Fr::from_repr((*a).into()).unwrap();
    let y = Fr::from_repr((*b).into()).unwrap();
    (x - y).to_repr().into()
}

/// Relies on `Fr::from_repr`, `Fr * Fr` and `Fr::to_repr` of halo2curves: the
/// product of two canonical residues, reduced modulo the field order.
#[verifier::external_body]
fn fr_mul(a: &[u8; 32], b: &[u8; 32]) -> (r: [u8; 32])
    requires
        canonical(a@),
        canonical(b@),
    ensures
        le_value(r@) == (le_value(a@) * le_value(b@)) % modulus(),
{
    let x = Fr::from_repr((*a).into()).unwrap();
    let y = Fr::from_repr((*b).into()).unwrap();
    (x * y).to_repr().into()
}

/// Relies on `Fr::from_repr`, `-Fr` and `Fr::to_repr` of halo2curves: the additive
/// inverse of a canonical residue.
#[verifier::external_body]
fn fr_neg(a: &[u8; 32]) -> (r: [u8; 32])
    requires
        canonical(a@),
    ensures
        le_value(r@) == (0 - le_value(a@)) % (modulus() as int),
{
    let x = Fr::from_repr((*a).into()).unwrap();
    (-x).to_repr().into()
}

/// Relies on `Fr::from(u64)` and `Fr::to_repr` of halo2curves: the residue of a
/// 64-bit integer, which is the integer itself.
#[verifier::external_body]
fn fr_from_u64(n: u64) -> (r: [u8; 32])
    ensures
        le_value(r@) == n as nat,
{
    Fr::from(n).to_repr().into()
}

/// An element of the scalar field.
#[derive(Clone, Copy, PartialEq, Eq, Debug)]
pub struct Felt {
    bytes: [u8; 32],
}

impl Felt {
    /// Each element is held in its canonical encoding.
    #[verifier::type_invariant]
    spec fn inv(self) -> bool {
        canonical(self.bytes@)
    }

    /// The residue this element stands for, in `[0, modulus())`. The encoding
    /// is canonical, so the reduction only makes the bound plain.
    pub closed spec fn value(self) -> nat {
        le_value(self.bytes@) % modulus()
    }

    /// An element's residue lies below the modulus.
    pub proof fn lemma_bounded(self)
        ensures
            self.value() < modulus(),
    {
    }

    /// The element `n mod p`; every `u64` is below the modulus.
    pub fn from_u64(n: u64) -> (r: Felt)
        ensures
            r.value() == n as nat,
    {
        let bytes = fr_from_u64(n);
        proof {
            assert(modulus() > u64::MAX);
            lemma_canonical_value(bytes@);
        }
        Felt { bytes }
    }

    /// The additive identity.
    pub fn zero() -> (r: Felt)
        ensures
            r.value() == 0,
    {
        Felt::from_u64(0)
    }

    /// The multiplicative identity.
    pub fn one() -> (r: Felt)
        ensures
            r.value() == 1,
    {
        Felt::from_u64(1)
    }

    /// Field addition.
    pub fn add(&self, o: &Felt) -> (r: Felt)
        ensures
            r.value() == (self.value() + o.value()) % modulus(),
    {
        proof {
            use_type_invariant(self);
            use_type_invariant(o);
            lemma_canonical_value(self.bytes@);
            lemma_canonical_value(o.bytes@);
        }
        let bytes = fr_add(&self.bytes, &o.bytes);
        proof {
            lemma_residue_below(le_value(self.bytes@) + le_value(o.bytes@) as int);
            lemma_canonical_value(bytes@);
        }
        Felt { bytes }
    }

    /// Field subtraction.
    pub fn sub(&self, o: &Felt) -> (r: Felt)
        ensures
            r.value() == (self.value() - o.value()) % (modulus() as int),
    {
        proof {
            use_type_invariant(self);
            use_type_invariant(o);
            lemma_canonical_value(self.bytes@);
            lemma_canonical_value(o.bytes@);
        }
        let bytes = fr_sub(&self.bytes, &o.bytes);
        proof {
            lemma_residue_below(le_value(self.bytes@) - le_value(o.bytes@));
            lemma_canonical_value(bytes@);
        }
        Felt { bytes }
    }

    /// Field multiplication.
    pub fn mul(&self, o: &Felt) -> (r: Felt)
        ensures
            r.value() == (self.value() * o.value()) % modulus(),
    {
        proof {
            use_type_invariant(self);
            use_type_invariant(o);
            lemma_canonical_value(self.bytes@);
            lemma_canonical_value(o.bytes@);
        }
        let bytes = fr_mul(&self.bytes, &o.bytes);
        proof {
            lemma_residue_below((le_value(self.bytes@) * le_value(o.bytes@)) as int);
            lemma_canonical_value(bytes@);
        }
        Felt { bytes }
    }

    /// The additive inverse.
    pub fn neg(&self) -> (r: Felt)
        ensures
            r.value() == (0 - self.value()) % (modulus() as int),
    {
        proof {
            use_type_invariant(self);
            lemma_canonical_value(self.bytes@);
        }
        let bytes = fr_neg(&self.bytes);
        proof {
            lemma_residue_below(0 - le_value(self.bytes@));
            lemma_canonical_value(bytes@);
        }
        Felt { bytes }
    }

    /// Whether this is the additive identity.
    pub fn is_zero(&self) -> (r: bool)
        ensures
            r == (self.value() == 0),
    {
        proof {
            use_type_invariant(self);
            lemma_canonical_value(self.bytes@);
        }
        let mut i: usize = 0;
        while i < 32
            invariant
                i <= 32,
                le_value(self.bytes@) % modulus() == le_value(self.bytes@),
                forall|j: int| 0 <= j < i ==> self.bytes@[j] == 0,
            decreases 32 - i,
        {
            if self.bytes[i] != 0 {
                proof {
                    lemma_le_value_zero(self.bytes@);
                    assert(self.bytes@[i as int] != 0);
                }
                return false;
            }
            i = i + 1;
        }
        proof {
            lemma_le_value_zero(self.bytes@);
        }
        true
    }

    /// The canonical little-endian encoding of the residue.
    pub fn to_bytes(&self) -> (r: [u8; 32])
        ensures
            le_value(r@) == self.value(),
    {
        proof {
            use_type_invariant(self);
            lemma_canonical_value(self.bytes@);
        }
        self.bytes
    }
}

/// A canonical encoding is its own residue.
proof fn lemma_canonical_value(s: Seq<u8>)
    requires
        canonical(s),
    ensures
        le_value(s) % modulus() == le_value(s),
{
    lemma_small_mod(le_value(s), modulus());
}

/// Every residue modulo the field order lies below it.
proof fn lemma_residue_below(x: int)
    ensures
        0 <= x % (modulus() as int) < modulus(),
{
}

/// A little-endian number is zero exactly when each of its bytes is.
proof fn lemma_le_value_zero(s: Seq<u8>)
    ensures
        (le_value(s) == 0) <==> (forall|j: int| 0 <= j < s.len() ==> s[j] == 0),
    decreases s.len(),
{
    if s.len() > 0 {
        lemma_le_value_zero(s.drop_first());
        if le_value(s) == 0 {
            assert forall|j: int| 0 <= j < s.len() implies s[j] == 0 by {
                if j > 0 {
                    assert(s[j] == s.drop_first()[j - 1]);
                }
            }
        }
        if forall|j: int| 0 <= j < s.len() ==> s[j] == 0 {
            assert forall|j: int| 0 <= j < s.drop_first().len() implies s.drop_first()[j] == 0 by {
                assert(s.drop_first()[j] == s[j + 1]);
            }
            assert(s[0] == 0);
        }
    }
}

} // verus!
