//! Unbounded naturals and integers, held as big-endian bytes. The arithmetic
//! is done by `num_bigint`; this module states what each operation returns.

use vstd::prelude::*;
use vstd::arithmetic::power::pow;
use vstd::slice::slice_to_vec;
use rand::Rng;

verus! {

/// The natural number that a big-endian byte string denotes. The empty
/// string denotes zero, and leading zero bytes do not change the value.
pub open spec fn be_value(bytes: Seq<u8>) -> nat
    decreases bytes.len(),
{
    if bytes.len() == 0 {
        0
    } else {
        be_value(bytes.drop_last()) * 256 + bytes.last() as nat
    }
}

/// A byte string with no superfluous leading zero: zero is the single byte 0.
pub open spec fn is_minimal(bytes: Seq<u8>) -> bool {
    bytes.len() >= 1 && (bytes.len() > 1 ==> bytes[0] != 0)
}

/// The integer that a sign flag and a big-endian magnitude denote.
pub open spec fn signed_value(negative: bool, magnitude: Seq<u8>) -> int {
    if negative {
        -(be_value(magnitude) as int)
    } else {
        be_value(magnitude) as int
    }
}

/// `num_bigint::BigUint::modpow`: the power of the base by the exponent,
/// reduced by the modulus. It panics on a zero modulus.
#[verifier::external_body]
fn be_modpow(base: &[u8], exponent: &[u8], modulus: &[u8]) -> (r: Vec<u8>)
    requires
        be_value(modulus@) != 0,
    ensures
        be_value(r@) as int == pow(be_value(base@) as int, be_value(exponent@)) % (be_value(
            modulus@,
        ) as int),
{
    let b = num_bigint::BigUint::from_bytes_be(base);
    let e = num_bigint::BigUint::from_bytes_be(exponent);
    let m = num_bigint::BigUint::from_bytes_be(modulus);
    b.modpow(&e, &m).to_bytes_be()
}

/// The product of two `num_bigint::BigUint` values (`Mul`).
#[verifier::external_body]
fn be_product(a: &[u8], b: &[u8]) -> (r: Vec<u8>)
    ensures
        be_value(r@) == be_value(a@) * be_value(b@),
{
    let x = num_bigint::BigUint::from_bytes_be(a);
    let y = num_bigint::BigUint::from_bytes_be(b);
    (x * y).to_bytes_be()
}

/// The remainder of one `num_bigint::BigUint` by another (`Rem`), which
/// panics on a zero divisor.
#[verifier::external_body]
fn be_remainder(a: &[u8], modulus: &[u8]) -> (r: Vec<u8>)
    requires
        be_value(modulus@) != 0,
    ensures
        be_value(r@) == be_value(a@) % be_value(modulus@),
{
    let x = num_bigint::BigUint::from_bytes_be(a);
    let m = num_bigint::BigUint::from_bytes_be(modulus);
    (x % m).to_bytes_be()
}

/// Equality of two `num_bigint::BigUint` values (`PartialEq`): they are
/// equal exactly when they denote the same number.
#[verifier::external_body]
fn be_equal(a: &[u8], b: &[u8]) -> (r: bool)
    ensures
        r == (be_value(a@) == be_value(b@)),
{
    num_bigint::BigUint::from_bytes_be(a) == num_bigint::BigUint::from_bytes_be(b)
}

/// `num_bigint::BigUint::to_bytes_be`: the bytes of the same number, most
/// significant first, without leading zeros; zero comes out as one zero byte.
#[verifier::external_body]
fn be_minimal(a: &[u8]) -> (r: Vec<u8>)
    ensures
        be_value(r@) == be_value(a@),
        is_minimal(r@),
{
    num_bigint::BigUint::from_bytes_be(a).to_bytes_be()
}

/// The difference of two `num_bigint::BigInt` values (`Sub`), handed back as
/// `BigInt::to_bytes_be` gives it: the sign is `Minus` only for a number
/// below zero.
#[verifier::external_body]
fn signed_difference(a_negative: bool, a: &[u8], b_negative: bool, b: &[u8]) -> (r: (
    bool,
    Vec<u8>,
))
    ensures
        signed_value(r.0, r.1@) == signed_value(a_negative, a@) - signed_value(b_negative, b@),
        r.0 ==> be_value(r.1@) > 0,
{
    let a_sign = if a_negative { num_bigint::Sign::Minus } else { num_bigint::Sign::Plus };
    let b_sign = if b_negative { num_bigint::Sign::Minus } else { num_bigint::Sign::Plus };
    let x = num_bigint::BigInt::from_bytes_be(a_sign, a);
    let y = num_bigint::BigInt::from_bytes_be(b_sign, b);
    match (x - y).to_bytes_be() {
        (num_bigint::Sign::Minus, magnitude) => (true, magnitude),
        (num_bigint::Sign::NoSign, magnitude) => (false, magnitude),
        (num_bigint::Sign::Plus, magnitude) => (false, magnitude),
    }
}

/// `num_bigint::BigInt::modpow` for a modulus above zero: the power reduced
/// into `[0, modulus)`, rounding like a floored division. That
/// function panics on a negative exponent and on a zero modulus.
#[verifier::external_body]
fn signed_modpow(negative: bool, base: &[u8], exponent: &[u8], modulus: &[u8]) -> (r: Vec<u8>)
    requires
        be_value(modulus@) > 0,
    ensures
        be_value(r@) as int == pow(signed_value(negative, base@), be_value(exponent@)) % (be_value(
            modulus@,
        ) as int),
{
    let sign = if negative { num_bigint::Sign::Minus } else { num_bigint::Sign::Plus };
    let b = num_bigint::BigInt::from_bytes_be(sign, base);
    let e = num_bigint::BigInt::from_bytes_be(num_bigint::Sign::Plus, exponent);
    let m = num_bigint::BigInt::from_bytes_be(num_bigint::Sign::Plus, modulus);
    b.modpow(&e, &m).to_bytes_be().1
}

/// `rand::Rng::gen_range` over `num_bigint::BigUint`, on the thread's
/// generator: some number of the half-open range, whichever is drawn. It
/// panics on an empty range.
#[verifier::external_body]
fn be_random_range(lower: &[u8], upper: &[u8]) -> (r: Vec<u8>)
    requires
        be_value(lower@) < be_value(upper@),
    ensures
        be_value(lower@) <= be_value(r@) < be_value(upper@),
{
    let low = num_bigint::BigUint::from_bytes_be(lower);
    let high = num_bigint::BigUint::from_bytes_be(upper);
    rand::thread_rng().gen_range(low..high).to_bytes_be()
}

/// Appending one byte multiplies the value by 256 and adds the byte.
pub proof fn lemma_be_value_push(bytes: Seq<u8>, last: u8)
    ensures
        be_value(bytes.push(last)) == be_value(bytes) * 256 + last as nat,
{
    assert(bytes.push(last).drop_last() =~= bytes);
}

/// An unbounded natural number.
#[derive(Debug)]
pub struct BigNat {
    bytes: Vec<u8>,
}

impl View for BigNat {
    type V = nat;

    closed spec fn view(&self) -> nat {
        be_value(self.bytes@)
    }
}

impl Clone for BigNat {
    fn clone(&self) -> (r: Self)
        ensures
            r@ == self@,
    {
        BigNat { bytes: self.bytes.clone() }
    }
}

impl PartialEq for BigNat {
    fn eq(&self, other: &Self) -> (r: bool) {
        be_equal(self.bytes.as_slice(), other.bytes.as_slice())
    }
}

impl vstd::std_specs::cmp::PartialEqSpecImpl for BigNat {
    open spec fn obeys_eq_spec() -> bool {
        true
    }

    open spec fn eq_spec(&self, other: &Self) -> bool {
        self@ == other@
    }
}

impl BigNat {
    /// The number that the bytes denote, most significant byte first.
    pub fn from_bytes_be(bytes: &[u8]) -> (r: BigNat)
        ensures
            r@ == be_value(bytes@),
    {
        BigNat { bytes: slice_to_vec(bytes) }
    }

    /// The number as bytes, most significant first and without leading zeros.
    pub fn to_bytes_be(&self) -> (r: Vec<u8>)
        ensures
            be_value(r@) == self@,
            is_minimal(r@),
    {
        be_minimal(self.bytes.as_slice())
    }

    /// The number that a machine integer holds.
    pub fn from_u32(n: u32) -> (r: BigNat)
        ensures
            r@ == n,
    {
        let b3: u8 = (n / 0x100_0000) as u8;
        let b2: u8 = ((n / 0x1_0000) % 0x100) as u8;
        let b1: u8 = ((n / 0x100) % 0x100) as u8;
        let b0: u8 = (n % 0x100) as u8;
        let mut bytes: Vec<u8> = Vec::new();
        bytes.push(b3);
        bytes.push(b2);
        bytes.push(b1);
        bytes.push(b0);
        proof {
            let empty = Seq::<u8>::empty();
            lemma_be_value_push(empty, b3);
            lemma_be_value_push(empty.push(b3), b2);
            lemma_be_value_push(empty.push(b3).push(b2), b1);
            lemma_be_value_push(empty.push(b3).push(b2).push(b1), b0);
            assert(bytes@ =~= empty.push(b3).push(b2).push(b1).push(b0));
        }
        BigNat { bytes }
    }

    /// `self` to the power `exponent`, reduced by `modulus`.
    pub fn modpow(&self, exponent: &BigNat, modulus: &BigNat) -> (r: BigNat)
        requires
            modulus@ > 0,
        ensures
            r@ as int == pow(self@ as int, exponent@) % (modulus@ as int),
    {
        BigNat {
            bytes: be_modpow(
                self.bytes.as_slice(),
                exponent.bytes.as_slice(),
                modulus.bytes.as_slice(),
            ),
        }
    }

    /// A number drawn at random from `[lower, upper)`.
    pub fn random_in_range(lower: &BigNat, upper: &BigNat) -> (r: BigNat)
        requires
            lower@ < upper@,
        ensures
            lower@ <= r@ < upper@,
    {
        BigNat { bytes: be_random_range(lower.bytes.as_slice(), upper.bytes.as_slice()) }
    }

    /// The product of two numbers.
    pub fn multiply(&self, other: &BigNat) -> (r: BigNat)
        ensures
            r@ == self@ * other@,
    {
        BigNat { bytes: be_product(self.bytes.as_slice(), other.bytes.as_slice()) }
    }

    /// The remainder of `self` divided by `modulus`.
    pub fn remainder(&self, modulus: &BigNat) -> (r: BigNat)
        requires
            modulus@ > 0,
        ensures
            r@ == self@ % modulus@,
    {
        BigNat { bytes: be_remainder(self.bytes.as_slice(), modulus.bytes.as_slice()) }
    }
}

/// An unbounded integer, as a sign and a magnitude.
#[derive(Debug)]
pub struct BigSigned {
    negative: bool,
    magnitude: Vec<u8>,
}

impl View for BigSigned {
    type V = int;

    closed spec fn view(&self) -> int {
        signed_value(self.negative, self.magnitude@)
    }
}

impl BigSigned {
    /// Zero is never held with the sign set.
    #[verifier::type_invariant]
    spec fn well_formed(&self) -> bool {
        self.negative ==> be_value(self.magnitude@) > 0
    }

    /// The same number, as an integer.
    pub fn from_nat(n: BigNat) -> (r: BigSigned)
        ensures
            r@ == n@,
    {
        BigSigned { negative: false, magnitude: n.bytes }
    }

    /// The integer one.
    pub fn one() -> (r: BigSigned)
        ensures
            r@ == 1,
    {
        let mut magnitude: Vec<u8> = Vec::new();
        magnitude.push(1u8);
        proof {
            lemma_be_value_push(Seq::<u8>::empty(), 1u8);
            assert(magnitude@ =~= Seq::<u8>::empty().push(1u8));
        }
        BigSigned { negative: false, magnitude }
    }

    /// The difference `self - other`.
    pub fn minus(&self, other: &BigSigned) -> (r: BigSigned)
        ensures
            r@ == self@ - other@,
    {
        let (negative, magnitude) = signed_difference(
            self.negative,
            self.magnitude.as_slice(),
            other.negative,
            other.magnitude.as_slice(),
        );
        BigSigned { negative, magnitude }
    }

    /// `self` to the power `exponent`, reduced into `[0, modulus)`.
    pub fn modpow(&self, exponent: &BigSigned, modulus: &BigSigned) -> (r: BigSigned)
        requires
            exponent@ >= 0,
            modulus@ > 0,
        ensures
            r@ == pow(self@, exponent@ as nat) % modulus@,
    {
        proof {
            use_type_invariant(exponent);
            use_type_invariant(modulus);
        }
        let magnitude = signed_modpow(
            self.negative,
            self.magnitude.as_slice(),
            exponent.magnitude.as_slice(),
            modulus.magnitude.as_slice(),
        );
        BigSigned { negative: false, magnitude }
    }

    /// The same number as a natural, unless it is below zero.
    pub fn to_bignat(&self) -> (r: Option<BigNat>)
        ensures
            self@ < 0 <==> r is None,
            r matches Some(n) ==> n@ == self@,
    {
        proof {
            use_type_invariant(self);
        }
        if self.negative {
            None
        } else {
            Some(BigNat { bytes: self.magnitude.clone() })
        }
    }
}

} // verus!
