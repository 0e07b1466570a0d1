use halo2_proofs::pasta::group::ff::PrimeField;
use halo2_proofs::pasta::Fp;
use vstd::arithmetic::div_mod::{lemma_fundamental_div_mod_converse, lemma_small_mod};
use vstd::prelude::*;

verus! {

/// The order of the Pallas base field, the field in which every cell of the
/// trace lives.
pub open spec fn modulus() -> nat {
    0x40000000000000000000000000000000224698fc094cf91b992d30ed00000001nat
}

/// The number that a little-endian byte string stands for.
pub open spec fn le_value(s: Seq<u8>) -> nat
    decreases s.len(),
{
    if s.len() == 0 {
        0
    } else {
        s[0] as nat + 256 * le_value(s.subrange(1, s.len() as int))
    }
}

/// `b` raised to `e` in the field, by repeated multiplication.
pub open spec fn field_pow(b: nat, e: nat) -> nat
    decreases e,
{
    if e == 0 {
        1nat % modulus()
    } else {
        (field_pow(b, (e - 1) as nat) * b) % modulus()
    }
}

/// Raising to the first power gives the element back.
pub proof fn lemma_field_pow_one(b: nat)
    requires
        b < modulus(),
    ensures
        field_pow(b, 1) == b,
{
    lemma_small_mod(1, modulus());
    lemma_small_mod(b, modulus());
    assert(field_pow(b, 0) == 1);
    assert(field_pow(b, 1) == (1 * b) % modulus());
}

/// Two byte strings of one length that stand for the same number are equal.
pub proof fn lemma_le_value_injective(s: Seq<u8>, t: Seq<u8>)
    requires
        s.len() == t.len(),
        le_value(s) == le_value(t),
    ensures
        s == t,
    decreases s.len(),
{
    if s.len() > 0 {
        let s1 = s.subrange(1, s.len() as int);
        let t1 = t.subrange(1, t.len() as int);
        lemma_fundamental_div_mod_converse(le_value(s) as int, 256, le_value(s1) as int, s[0] as int);
        lemma_fundamental_div_mod_converse(le_value(t) as int, 256, le_value(t1) as int, t[0] as int);
        lemma_le_value_injective(s1, t1);
        assert(s =~= t) by {
            assert forall|i: int| 0 <= i < s.len() implies s[i] == t[i] by {
                if i > 0 {
                    assert(s[i] == s1[i - 1]);
                    assert(t[i] == t1[i - 1]);
                }
            }
        }
    }
}

/// Relies on pasta_curves' `From<u64> for Fp` and `PrimeField::to_repr`: the
/// canonical little-endian encoding of the integer `n` as a field element.
#[verifier::external_body]
fn fp_from_u64(n: u64) -> (r: [u8; 32])
    ensures
        le_value(r@) == n as nat,
{
    Fp::from(n).to_repr()
}

/// Relies on pasta_curves' `PrimeField::from_repr` for `Fp`: the bytes are
/// accepted exactly when, read little-endian, they are below the modulus.
#[verifier::external_body]
fn fp_is_canonical(bytes: [u8; 32]) -> (r: bool)
    ensures
        r == (le_value(bytes@) < modulus()),
{
    Option::<Fp>::from(Fp::from_repr(bytes)).is_some()
}

/// Relies on pasta_curves' `Mul` for `Fp`: the canonical encoding of the
/// product modulo the field order.
#[verifier::external_body]
fn fp_mul(a: [u8; 32], b: [u8; 32]) -> (r: [u8; 32])
    requires
        le_value(a@) < modulus(),
        le_value(b@) < modulus(),
    ensures
        le_value(r@) == (le_value(a@) * le_value(b@)) % modulus(),
{
    let x = Option::<Fp>::from(Fp::from_repr(a)).unwrap();
    let y = Option::<Fp>::from(Fp::from_repr(b)).unwrap();
    (x * y).to_repr()
}

/// Relies on pasta_curves' `Add` for `Fp`: the canonical encoding of the sum
/// modulo the field order.
#[verifier::external_body]
fn fp_add(a: [u8; 32], b: [u8; 32]) -> (r: [u8; 32])
    requires
        le_value(a@) < modulus(),
        le_value(b@) < modulus(),
    ensures
        le_value(r@) == (le_value(a@) + le_value(b@)) % modulus(),
{
    let x = Option::<Fp>::from(Fp::from_repr(a)).unwrap();
    let y = Option::<Fp>::from(Fp::from_repr(b)).unwrap();
    (x + y).to_repr()
}

/// Relies on pasta_curves' `Sub` for `Fp`: the canonical encoding of the
/// difference modulo the field order.
#[verifier::external_body]
fn fp_sub(a: [u8; 32], b: [u8; 32]) -> (r: [u8; 32])
    requires
        le_value(a@) < modulus(),
        le_value(b@) < modulus(),
    ensures
        le_value(r@) == (le_value(a@) + modulus() - le_value(b@)) % (modulus() as int),
{
    let x = Option::<Fp>::from(Fp::from_repr(a)).unwrap();
    let y = Option::<Fp>::from(Fp::from_repr(b)).unwrap();
    (x - y).to_repr()
}

/// An element of the Pallas base field, held as its canonical 32-byte
/// little-endian encoding.
#[derive(Clone, Copy, Debug, PartialEq, Eq)]
pub struct Felt {
    repr: [u8; 32],
}

impl Felt {
    /// Every element stands for an integer below the modulus.
    #[verifier::type_invariant]
    pub open spec fn canonical(self) -> bool {
        self.value() < modulus()
    }

    /// The encoding of this element.
    pub closed spec fn bytes(self) -> Seq<u8> {
        self.repr@
    }

    /// The integer in `0 .. modulus()` that this element stands for.
    pub open spec fn value(self) -> nat {
        le_value(self.bytes())
    }

    /// Two elements are equal exactly when they stand for the same integer.
    pub proof fn lemma_value_determines(&self, other: &Felt)
        ensures
            (self.value() == other.value()) == (*self == *other),
    {
        if self.value() == other.value() {
            lemma_le_value_injective(self.repr@, other.repr@);
            assert(self.repr@ == other.repr@);
            assert(self.repr =~= other.repr);
        }
    }

    pub fn from_u64(n: u64) -> (r: Felt)
        ensures
            r.value() == n as nat,
    {
        let repr = fp_from_u64(n);
        Felt { repr }
    }

    pub fn zero() -> (r: Felt)
        ensures
            r.value() == 0,
    {
        Felt::from_u64(0)
    }

    pub fn one() -> (r: Felt)
        ensures
            r.value() == 1,
    {
        Felt::from_u64(1)
    }

    /// The element whose canonical encoding is `bytes`, if they are one.
    pub fn from_repr(bytes: [u8; 32]) -> (r: Option<Felt>)
        ensures
            r is Some <==> le_value(bytes@) < modulus(),
            r matches Some(f) ==> f.bytes() == bytes@,
    {
        if fp_is_canonical(bytes) {
            Some(Felt { repr: bytes })
        } else {
            None
        }
    }

    /// The canonical little-endian encoding.
    pub fn to_repr(&self) -> (r: [u8; 32])
        ensures
            r@ == self.bytes(),
    {
        self.repr
    }

    pub fn mul(&self, other: &Felt) -> (r: Felt)
        ensures
            r.value() == (self.value() * other.value()) % modulus(),
    {
        proof {
            use_type_invariant(self);
            use_type_invariant(other);
        }
        Felt { repr: fp_mul(self.repr, other.repr) }
    }

    pub fn add(&self, other: &Felt) -> (r: Felt)
        ensures
            r.value() == (self.value() + other.value()) % modulus(),
    {
        proof {
            use_type_invariant(self);
            use_type_invariant(other);
        }
        Felt { repr: fp_add(self.repr, other.repr) }
    }

    pub fn sub(&self, other: &Felt) -> (r: Felt)
        ensures
            r.value() == (self.value() + modulus() - other.value()) % (modulus() as int),
    {
        proof {
            use_type_invariant(self);
            use_type_invariant(other);
        }
        Felt { repr: fp_sub(self.repr, other.repr) }
    }

    /// Field equality, byte by byte on the canonical encodings.
    pub fn equals(&self, other: &Felt) -> (r: bool)
        ensures
            r == (self.value() == other.value()),
            r == (*self == *other),
    {
        proof {
            use_type_invariant(self);
            use_type_invariant(other);
            self.lemma_value_determines(other);
        }
        let mut i: usize = 0;
        while i < 32
            invariant
                i <= 32,
                self.repr@.len() == 32,
                other.repr@.len() == 32,
                forall|j: int| 0 <= j < i ==> self.repr@[j] == other.repr@[j],
            decreases 32 - i,
        {
            if self.repr[i] != other.repr[i] {
                proof {
                    if self.value() == other.value() {
                        lemma_le_value_injective(self.repr@, other.repr@);
                    }
                }
                return false;
            }
            i = i + 1;
        }
        assert(self.repr@ =~= other.repr@);
        assert(self.repr =~= other.repr);
        true
    }
}

} // verus!
