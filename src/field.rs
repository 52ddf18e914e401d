use ark_bn254::Fr;
use ark_ff::{BigInt, PrimeField};
use ark_std::str::FromStr;
use vstd::prelude::*;

verus! {

/// 2^64, the base of a limb.
pub open spec fn limb_base() -> int {
    0x1_0000_0000_0000_0000
}

/// The value of four little-endian 64-bit limbs.
pub open spec fn limbs_value(l: [u64; 4]) -> int {
    l@[0] as int + limb_base() * (l@[1] as int + limb_base() * (l@[2] as int + limb_base()
        * l@[3] as int))
}

/// The order of the scalar field of BN254, by its limbs.
pub open spec fn modulus() -> int {
    limbs_value([0x43e1f593f0000001u64, 0x2833e84879b97091u64, 0xb85045b68181585du64, 0x30644e72e131a029u64])
}

/// Field addition on canonical representatives.
pub open spec fn fadd(a: int, b: int) -> int {
    (a + b) % modulus()
}

/// Field multiplication on canonical representatives.
pub open spec fn fmul(a: int, b: int) -> int {
    (a * b) % modulus()
}

/// `x^5`, computed as two squarings followed by one multiplication by `x`.
pub open spec fn fifth_power(x: int) -> int {
    fmul(fmul(fmul(x, x), fmul(x, x)), x)
}

pub open spec fn is_decimal_digit(c: char) -> bool {
    '0' <= c && c <= '9'
}

/// The value of a string of decimal digits, most significant first.
pub open spec fn decimal_value(s: Seq<char>) -> int
    decreases s.len(),
{
    if s.len() == 0 {
        0
    } else {
        decimal_value(s.drop_last()) * 10 + (s.last() as int - '0' as int)
    }
}

/// A canonical decimal numeral: non-empty, digits only, no leading zero
/// unless it is the single digit `0`.
pub open spec fn is_canonical_numeral(s: Seq<char>) -> bool {
    &&& s.len() > 0
    &&& forall|i: int| 0 <= i < s.len() ==> is_decimal_digit(#[trigger] s[i])
    &&& (s[0] == '0' ==> s.len() == 1)
}

/// An element of the BN254 scalar field, held as its canonical
/// representative in four little-endian 64-bit limbs.
#[derive(Clone, Copy, Debug, PartialEq, Eq)]
pub struct Felt {
    pub limbs: [u64; 4],
}

impl Felt {
    /// The canonical representative, in `0..modulus()` when well formed.
    pub open spec fn value(self) -> int {
        limbs_value(self.limbs)
    }

    pub open spec fn wf(self) -> bool {
        self.value() < modulus()
    }

    /// The additive identity.
    pub fn zero() -> (r: Felt)
        ensures
            r.wf(),
            r.value() == 0,
    {
        Felt { limbs: [0u64, 0u64, 0u64, 0u64] }
    }

    /// The field element whose representative is `v`.
    pub fn from_u64(v: u64) -> (r: Felt)
        ensures
            r.wf(),
            r.value() == v as int,
    {
        Felt { limbs: [v, 0u64, 0u64, 0u64] }
    }

    /// Parses a canonical decimal numeral; the value is reduced modulo the
    /// field order.
    pub fn from_decimal(s: &str) -> (r: Option<Felt>)
        ensures
            r.is_some() <==> is_canonical_numeral(s@),
            r.is_some() ==> r.unwrap().wf() && r.unwrap().value() == decimal_value(s@) % modulus(),
    {
        parse_decimal(s)
    }

    /// `self + other` in the field.
    pub fn add(&self, other: &Felt) -> (r: Felt)
        requires
            self.wf(),
            other.wf(),
        ensures
            r.wf(),
            r.value() == fadd(self.value(), other.value()),
    {
        add_mod(self, other)
    }

    /// `self * other` in the field.
    pub fn mul(&self, other: &Felt) -> (r: Felt)
        requires
            self.wf(),
            other.wf(),
        ensures
            r.wf(),
            r.value() == fmul(self.value(), other.value()),
    {
        mul_mod(self, other)
    }

    /// `self * self` in the field.
    pub fn square(&self) -> (r: Felt)
        requires
            self.wf(),
        ensures
            r.wf(),
            r.value() == fmul(self.value(), self.value()),
    {
        square_mod(self)
    }

    /// `self^5` in the field, as two squarings and one multiplication.
    pub fn fifth_power(&self) -> (r: Felt)
        requires
            self.wf(),
        ensures
            r.wf(),
            r.value() == fifth_power(self.value()),
    {
        let s = self.square();
        let q = s.square();
        q.mul(self)
    }
}

/// Relies on `<Fr as FromStr>::from_str` (ark-ff's `Fp`): it refuses an empty
/// string, a character other than an ASCII digit and a leading zero (but for
/// the string `0`), and otherwise accumulates the digits by field
/// multiplication by ten and addition; `into_bigint` gives the canonical
/// representative.
#[verifier::external_body]
fn parse_decimal(s: &str) -> (r: Option<Felt>)
    ensures
        r.is_some() <==> is_canonical_numeral(s@),
        r.is_some() ==> r.unwrap().wf() && r.unwrap().value() == decimal_value(s@) % modulus(),
{
    Fr::from_str(s).ok().map(|x| Felt { limbs: x.into_bigint().0 })
}

/// Relies on ark-ff's `Fp` addition for `Fr`: modular addition of two
/// elements built by `from_bigint` from canonical representatives, read back
/// by `into_bigint`.
#[verifier::external_body]
fn add_mod(a: &Felt, b: &Felt) -> (r: Felt)
    requires
        a.wf(),
        b.wf(),
    ensures
        r.wf(),
        r.value() == fadd(a.value(), b.value()),
{
    let x = Fr::from_bigint(BigInt::new(a.limbs)).unwrap();
    let y = Fr::from_bigint(BigInt::new(b.limbs)).unwrap();
    Felt { limbs: (x + y).into_bigint().0 }
}

/// Relies on ark-ff's `Fp` multiplication for `Fr`: modular multiplication
/// of two elements built by `from_bigint` from canonical representatives,
/// read back by `into_bigint`.
#[verifier::external_body]
fn mul_mod(a: &Felt, b: &Felt) -> (r: Felt)
    requires
        a.wf(),
        b.wf(),
    ensures
        r.wf(),
        r.value() == fmul(a.value(), b.value()),
{
    let x = Fr::from_bigint(BigInt::new(a.limbs)).unwrap();
    let y = Fr::from_bigint(BigInt::new(b.limbs)).unwrap();
    Felt { limbs: (x * y).into_bigint().0 }
}

/// Relies on ark-ff's `Field::square` for `Fr`: the modular square of an
/// element built by `from_bigint` from its canonical representative, read
/// back by `into_bigint`.
#[verifier::external_body]
fn square_mod(a: &Felt) -> (r: Felt)
    requires
        a.wf(),
    ensures
        r.wf(),
        r.value() == fmul(a.value(), a.value()),
{
    let x = Fr::from_bigint(BigInt::new(a.limbs)).unwrap();
    Felt { limbs: ark_ff::Field::square(&x).into_bigint().0 }
}

} // verus!
