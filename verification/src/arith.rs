//! Modular arithmetic over mathematical naturals: the spec-level model that
//! every contract in the crate is stated against, and the number-theoretic
//! lemmas behind the protocol's completeness.

use vstd::arithmetic::div_mod::{
    lemma_fundamental_div_mod, lemma_mod_twice, lemma_mul_mod_noop, lemma_small_mod,
};
use vstd::arithmetic::mul::lemma_mul_is_commutative;
use vstd::arithmetic::power::{
    lemma1_pow, lemma_pow_adds, lemma_pow_mod_noop, lemma_pow_multiplies, pow,
};
use vstd::prelude::*;

verus! {

/// `b` raised to the `e`-th power, reduced modulo `m`.
pub open spec fn pow_mod(b: nat, e: nat, m: nat) -> nat
    recommends
        m > 0,
{
    (pow(b as int, e) % (m as int)) as nat
}

/// A prime: a natural number at least 2 with no divisor strictly between 1
/// and itself.
pub open spec fn is_prime(n: nat) -> bool {
    n >= 2 && forall|d: nat| 1 < d < n ==> #[trigger] (n % d) != 0
}

/// In a subgroup where `g^q mod p == 1`, exponents of `g` only matter
/// modulo `q`: reducing the exponent does not change the reduced power.
pub proof fn lemma_exponent_reduction(g: nat, a: nat, q: nat, p: nat)
    requires
        p > 1,
        q > 0,
        pow_mod(g, q, p) == 1,
    ensures
        pow_mod(g, a % q, p) == pow_mod(g, a, p),
{
    let gi = g as int;
    let pi = p as int;
    let k = a / q;
    let m = a % q;
    lemma_fundamental_div_mod(a as int, q as int);
    assert(a == q * k + m);
    // g^a == g^(q*k) * g^m
    lemma_pow_adds(gi, (q * k) as nat, m);
    // g^(q*k) == (g^q)^k
    lemma_pow_multiplies(gi, q, k);
    // (g^q)^k mod p == ((g^q mod p)^k) mod p == 1^k mod p == 1
    lemma_pow_mod_noop(pow(gi, q), k, pi);
    lemma1_pow(k);
    lemma_small_mod(1, p);
    assert(pow(pow(gi, q) % pi, k) % pi == 1);
    assert(pow(pow(gi, q), k) % pi == 1);
    // g^a mod p == ((g^(q*k) mod p) * (g^m mod p)) mod p == g^m mod p
    lemma_mul_mod_noop(pow(gi, (q * k) as nat), pow(gi, m), pi);
    assert(pow(gi, a) % pi == ((pow(gi, (q * k) as nat) % pi) * (pow(gi, m) % pi)) % pi);
    assert(pow(gi, (q * k) as nat) % pi == 1);
    lemma_mod_twice(pow(gi, m), pi);
    assert(pow(gi, a) % pi == pow(gi, m) % pi);
}

/// Completeness of the identification equation: for an honest run with
/// commitment `t = g^r mod p`, public key `y = g^x mod p` and response
/// `s = (r + c*x) mod q`, the verifier's equation
/// `g^s mod p == t * y^c mod p` holds.
pub proof fn lemma_schnorr_completeness(p: nat, q: nat, g: nat, x: nat, r: nat, c: nat)
    requires
        p > 1,
        q > 0,
        pow_mod(g, q, p) == 1,
    ensures
        ({
            let y = pow_mod(g, x, p);
            let t = pow_mod(g, r, p);
            let s = ((r + c * x) % q) as nat;
            pow_mod(g, s, p) == (t * pow_mod(y, c, p)) % p
        }),
{
    let gi = g as int;
    let pi = p as int;
    let y = pow_mod(g, x, p);
    let t = pow_mod(g, r, p);
    let s = ((r + c * x) % q) as nat;
    // y^c mod p == (g^x)^c mod p == g^(x*c) mod p
    lemma_pow_mod_noop(pow(gi, x), c, pi);
    lemma_pow_multiplies(gi, x, c);
    assert(pow_mod(y, c, p) as int == pow(gi, (x * c) as nat) % pi);
    // t * (y^c mod p) mod p == g^r * g^(x*c) mod p == g^(r + x*c) mod p
    lemma_mul_mod_noop(pow(gi, r), pow(gi, (x * c) as nat), pi);
    lemma_pow_adds(gi, r, (x * c) as nat);
    assert((t * pow_mod(y, c, p)) % p == pow_mod(g, (r + x * c) as nat, p));
    // reducing the exponent modulo q changes nothing
    lemma_exponent_reduction(g, (r + c * x) as nat, q, p);
    lemma_mul_is_commutative(x as int, c as int);
}

} // verus!
