//! Arbitrary-precision natural numbers for the protocol's group arithmetic.
//!
//! `Num` carries its digits in an outside big-integer crate and is modelled
//! in specifications by its mathematical value `self@`. The convention that
//! the ghost value denotes the backing digits is maintained by the trusted
//! operations below and nowhere else: each one performs a single call into
//! the outside crate and states, over `@`, exactly what that call computes.

use crate::arith::pow_mod;
use crate::codec::{be_bytes_of, be_val};
use num_bigint::RandBigInt;
use vstd::prelude::*;

verus! {

/// `num_bigint::BigUint`, declared so that values of it can stand in fields.
/// Verus sees nothing inside a value of it.
#[verifier::external_type_specification]
#[verifier::external_body]
pub struct ExBigUint(num_bigint::BigUint);

/// An unsigned arbitrary-precision integer. `self@` is its mathematical
/// value.
pub struct Num {
    digits: num_bigint::BigUint,
    value: Ghost<nat>,
}

impl View for Num {
    type V = nat;

    closed spec fn view(&self) -> nat {
        self.value@
    }
}

// The trusted face of the outside big-integer crate: each function makes one
// call into it and is believed, not verified. Everything else in the crate
// is proved against these contracts.
impl Num {
    /// Relies on `BigUint::from::<u64>`: builds the big integer of that value.
    #[verifier::external_body]
    fn raw_from_u64(x: u64) -> (r: Num)
        ensures
            r@ == x as nat,
    {
        Num { digits: num_bigint::BigUint::from(x), value: Ghost(0) }
    }

    /// Relies on `BigUint::clone`: an equal, independent value.
    #[verifier::external_body]
    fn raw_dup(&self) -> (r: Num)
        ensures
            r@ == self@,
    {
        Num { digits: self.digits.clone(), value: Ghost(0) }
    }

    /// Relies on `PartialEq` for `BigUint`: equality of the values.
    #[verifier::external_body]
    fn raw_eq(&self, other: &Num) -> (r: bool)
        ensures
            r == (self@ == other@),
    {
        self.digits == other.digits
    }

    /// Relies on `Ord` for `BigUint`: numeric order of the values.
    #[verifier::external_body]
    fn raw_lt(&self, other: &Num) -> (r: bool)
        ensures
            r == (self@ < other@),
    {
        self.digits < other.digits
    }

    /// Relies on `Add` for `&BigUint`: the exact sum.
    #[verifier::external_body]
    fn raw_add(&self, other: &Num) -> (r: Num)
        ensures
            r@ == self@ + other@,
    {
        Num { digits: &self.digits + &other.digits, value: Ghost(0) }
    }

    /// Relies on `Mul` for `&BigUint`: the exact product.
    #[verifier::external_body]
    fn raw_mul(&self, other: &Num) -> (r: Num)
        ensures
            r@ == self@ * other@,
    {
        Num { digits: &self.digits * &other.digits, value: Ghost(0) }
    }

    /// Relies on `Sub` for `&BigUint`: the exact difference. The crate
    /// panics on underflow, so the precondition rules it out.
    #[verifier::external_body]
    fn raw_sub(&self, other: &Num) -> (r: Num)
        requires
            other@ <= self@,
        ensures
            r@ == self@ - other@,
    {
        Num { digits: &self.digits - &other.digits, value: Ghost(0) }
    }

    /// Relies on `Rem` for `&BigUint`: the remainder. The crate panics on a
    /// zero divisor, so the precondition rules it out.
    #[verifier::external_body]
    fn raw_rem(&self, modulus: &Num) -> (r: Num)
        requires
            modulus@ > 0,
        ensures
            r@ == self@ % modulus@,
    {
        Num { digits: &self.digits % &modulus.digits, value: Ghost(0) }
    }

    /// Relies on `BigUint::modpow`: `self` to the power `exponent`, reduced
    /// modulo `modulus`. The crate panics on a zero modulus, so the
    /// precondition rules it out.
    #[verifier::external_body]
    fn raw_modpow(&self, exponent: &Num, modulus: &Num) -> (r: Num)
        requires
            modulus@ > 0,
        ensures
            r@ == pow_mod(self@, exponent@, modulus@),
    {
        Num { digits: self.digits.modpow(&exponent.digits, &modulus.digits), value: Ghost(0) }
    }

    /// Relies on `BigUint::to_bytes_be`: the minimal big-endian bytes, a
    /// single zero byte for zero.
    #[verifier::external_body]
    fn raw_to_bytes_be(&self) -> (r: Vec<u8>)
        ensures
            r@ == be_bytes_of(self@),
    {
        self.digits.to_bytes_be()
    }

    /// Relies on `BigUint::from_bytes_be`: the value the big-endian bytes
    /// denote, leading zeros included.
    #[verifier::external_body]
    fn raw_from_bytes_be(bytes: &Vec<u8>) -> (r: Num)
        ensures
            r@ == be_val(bytes@),
    {
        Num { digits: num_bigint::BigUint::from_bytes_be(bytes.as_slice()), value: Ghost(0) }
    }

    /// Relies on `RandBigInt::gen_biguint_below` over `rand::thread_rng`:
    /// a random value below the bound, by rejection sampling. The result
    /// depends on the generator, so nothing more than its range is stated.
    /// The crate panics on a zero bound, so the precondition rules it out.
    #[verifier::external_body]
    fn raw_random_below(bound: &Num) -> (r: Num)
        requires
            bound@ > 0,
        ensures
            r@ < bound@,
    {
        let mut rng = rand::thread_rng();
        Num { digits: rng.gen_biguint_below(&bound.digits), value: Ghost(0) }
    }
}

impl Num {
    /// The number with the given 64-bit value.
    pub fn from_u64(x: u64) -> (r: Num)
        ensures
            r@ == x as nat,
    {
        Num::raw_from_u64(x)
    }

    /// An equal, independent copy.
    pub fn dup(&self) -> (r: Num)
        ensures
            r@ == self@,
    {
        self.raw_dup()
    }

    /// Whether the two values are equal.
    pub fn equals(&self, other: &Num) -> (r: bool)
        ensures
            r == (self@ == other@),
    {
        self.raw_eq(other)
    }

    /// Whether `self` is strictly below `other`.
    pub fn lt(&self, other: &Num) -> (r: bool)
        ensures
            r == (self@ < other@),
    {
        self.raw_lt(other)
    }

    /// The sum `self + other`.
    pub fn add(&self, other: &Num) -> (r: Num)
        ensures
            r@ == self@ + other@,
    {
        self.raw_add(other)
    }

    /// The product `self * other`.
    pub fn mul(&self, other: &Num) -> (r: Num)
        ensures
            r@ == self@ * other@,
    {
        self.raw_mul(other)
    }

    /// The difference `self - other`, defined when `other` is no larger.
    pub fn sub(&self, other: &Num) -> (r: Num)
        requires
            other@ <= self@,
        ensures
            r@ == self@ - other@,
    {
        self.raw_sub(other)
    }

    /// The remainder of `self` modulo `modulus`.
    pub fn rem(&self, modulus: &Num) -> (r: Num)
        requires
            modulus@ > 0,
        ensures
            r@ == self@ % modulus@,
    {
        self.raw_rem(modulus)
    }

    /// `self` raised to `exponent`, reduced modulo `modulus`.
    pub fn mod_pow(&self, exponent: &Num, modulus: &Num) -> (r: Num)
        requires
            modulus@ > 0,
        ensures
            r@ == pow_mod(self@, exponent@, modulus@),
    {
        self.raw_modpow(exponent, modulus)
    }

    /// The minimal big-endian byte encoding of `self`.
    pub fn to_bytes_be(&self) -> (r: Vec<u8>)
        ensures
            r@ == be_bytes_of(self@),
    {
        self.raw_to_bytes_be()
    }

    /// The value that the big-endian bytes denote.
    pub fn from_bytes_be(bytes: &Vec<u8>) -> (r: Num)
        ensures
            r@ == be_val(bytes@),
    {
        Num::raw_from_bytes_be(bytes)
    }

    /// A fresh random value drawn uniformly from `[0, bound)` by the
    /// cryptographically secure generator.
    pub fn random_below(bound: &Num) -> (r: Num)
        requires
            bound@ > 0,
        ensures
            r@ < bound@,
    {
        Num::raw_random_below(bound)
    }
}

} // verus!
