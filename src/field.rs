use vstd::prelude::*;
use halo2_proofs::arithmetic::Field;
use halo2_proofs::pasta::group::ff::PrimeField;
use halo2_proofs::pasta::Fp;

verus! {

/// The prime order of the Pallas base field,
/// `0x40000000000000000000000000000000224698fc094cf91b992d30ed00000001`.
pub open spec fn modulus() -> int {
    vstd::arithmetic::power2::pow2(254) as int + 0x224698fc094cf91b992d30ed00000001int
}

pub proof fn lemma_modulus_bound()
    ensures
        modulus() > 0x1_0000_0000_0000_0000,
{
    vstd::arithmetic::power2::lemma_pow2_pos(254);
    vstd::arithmetic::power2::lemma_pow2_strictly_increases(64, 254);
    vstd::arithmetic::power2::lemma2_to64();
}

/// The integer that a little-endian byte string denotes.
pub open spec fn le_value(s: Seq<u8>) -> int
    decreases s.len(),
{
    if s.len() == 0 {
        0
    } else {
        s[0] as int + 256 * le_value(s.drop_first())
    }
}

/// Relies on pasta_curves' `From<u64> for Fp` and `PrimeField::to_repr`:
/// the canonical little-endian encoding of the element `n`.
#[verifier::external_body]
fn repr_of_u64(n: u64) -> (r: [u8; 32])
    ensures
        le_value(r@) == n as int,
{
    Fp::from(n).to_repr()
}

/// Relies on pasta_curves' `Add for Fp`: decoding both canonical encodings
/// with `PrimeField::from_repr`, the encoded sum is the sum modulo the prime.
#[verifier::external_body]
fn repr_add(x: &[u8; 32], y: &[u8; 32]) -> (r: [u8; 32])
    requires
        0 <= le_value(x@) < modulus(),
        0 <= le_value(y@) < modulus(),
    ensures
        le_value(r@) == (le_value(x@) + le_value(y@)) % modulus(),
{
    let x = Fp::from_repr(*x).unwrap();
    let y = Fp::from_repr(*y).unwrap();
    (x + y).to_repr()
}

/// Relies on pasta_curves' `PartialEq for Fp`: two elements decoded from
/// canonical encodings are equal exactly when the integers they stand for are.
#[verifier::external_body]
fn repr_eq(x: &[u8; 32], y: &[u8; 32]) -> (r: bool)
    requires
        0 <= le_value(x@) < modulus(),
        0 <= le_value(y@) < modulus(),
    ensures
        r == (le_value(x@) == le_value(y@)),
{
    Fp::from_repr(*x).unwrap() == Fp::from_repr(*y).unwrap()
}

/// An element of the Pallas base field, held as its canonical
/// little-endian encoding.
#[derive(Clone, Copy, Debug)]
pub struct Felt {
    repr: [u8; 32],
}

impl Felt {
    /// The integer in `0 .. modulus()` that this element stands for.
    pub closed spec fn val(self) -> int {
        le_value(self.repr@) % modulus()
    }

    #[verifier::type_invariant]
    closed spec fn canonical(self) -> bool {
        0 <= le_value(self.repr@) < modulus()
    }

    pub proof fn lemma_range(self)
        ensures
            0 <= self.val() < modulus(),
    {
        lemma_modulus_bound();
    }

    /// The canonical little-endian encoding of this element.
    pub fn to_repr(&self) -> (r: [u8; 32])
        ensures
            le_value(r@) == self.val(),
    {
        proof {
            use_type_invariant(self);
            vstd::arithmetic::div_mod::lemma_small_mod(le_value(self.repr@) as nat, modulus() as nat);
        }
        self.repr
    }

    /// The element `n`.
    pub fn from_u64(n: u64) -> (r: Felt)
        ensures
            r.val() == n as int,
    {
        let repr = repr_of_u64(n);
        proof {
            lemma_modulus_bound();
            vstd::arithmetic::div_mod::lemma_small_mod(n as nat, modulus() as nat);
        }
        Felt { repr }
    }

    /// The additive identity.
    pub fn zero() -> (r: Felt)
        ensures
            r.val() == 0,
    {
        Felt::from_u64(0)
    }

    /// The multiplicative identity.
    pub fn one() -> (r: Felt)
        ensures
            r.val() == 1,
    {
        Felt::from_u64(1)
    }

    /// The field sum of `self` and `o`.
    pub fn add(&self, o: &Felt) -> (r: Felt)
        ensures
            r.val() == (self.val() + o.val()) % modulus(),
    {
        proof {
            use_type_invariant(self);
            use_type_invariant(o);
            lemma_modulus_bound();
            vstd::arithmetic::div_mod::lemma_small_mod(le_value(self.repr@) as nat, modulus() as nat);
            vstd::arithmetic::div_mod::lemma_small_mod(le_value(o.repr@) as nat, modulus() as nat);
        }
        let repr = repr_add(&self.repr, &o.repr);
        proof {
            vstd::arithmetic::div_mod::lemma_mod_bound(le_value(self.repr@) + le_value(o.repr@), modulus());
            vstd::arithmetic::div_mod::lemma_small_mod(le_value(repr@) as nat, modulus() as nat);
        }
        Felt { repr }
    }

    /// Whether `self` and `o` are the same element.
    pub fn equals(&self, o: &Felt) -> (r: bool)
        ensures
            r == (self.val() == o.val()),
    {
        proof {
            use_type_invariant(self);
            use_type_invariant(o);
            lemma_modulus_bound();
            vstd::arithmetic::div_mod::lemma_small_mod(le_value(self.repr@) as nat, modulus() as nat);
            vstd::arithmetic::div_mod::lemma_small_mod(le_value(o.repr@) as nat, modulus() as nat);
        }
        repr_eq(&self.repr, &o.repr)
    }
}

} // verus!
