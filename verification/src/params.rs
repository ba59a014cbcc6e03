//! Group parameters `(p, q, g)` for the protocol, and their validation: `p`
//! and `q` prime, `q` dividing `p - 1`, and `g` a generator of the subgroup
//! of order exactly `q` inside the multiplicative group modulo `p`.

use crate::arith::{is_prime, pow_mod};
use crate::bigint::Num;
use vstd::prelude::*;

verus! {

/// Why a parameter triple was rejected.
#[derive(Clone, Copy, Debug, PartialEq, Eq, Structural)]
pub enum ParamError {
    /// `p` or `q` is not prime.
    NotPrime,
    /// `q` does not divide `p - 1`.
    OrderMismatch,
    /// `g` is outside `(1, p)` or does not satisfy `g^q mod p == 1`, so it
    /// does not generate a subgroup of order exactly `q`.
    DegenerateGenerator,
}

/// A well-formed parameter triple: both moduli prime, `q` a divisor of
/// `p - 1`, and `g` strictly between 1 and `p` with `g^q mod p == 1`.
/// Because `q` is prime, the order of such a `g` divides `q` and is not 1,
/// so `g` generates a subgroup of order exactly `q`.
pub open spec fn group_wf(p: nat, q: nat, g: nat) -> bool {
    &&& is_prime(p)
    &&& is_prime(q)
    &&& (p - 1) % (q as int) == 0
    &&& 1 < g < p
    &&& pow_mod(g, q, p) == 1
}

/// The public parameters of the protocol: the field modulus `p`, the
/// subgroup order `q`, and the generator `g`. Immutable once validated and
/// shared read-only by prover and verifier.
pub struct GroupParameters {
    pub p: Num,
    pub q: Num,
    pub g: Num,
}

impl GroupParameters {
    /// Whether the triple satisfies every validation constraint.
    pub open spec fn wf(&self) -> bool {
        group_wf(self.p@, self.q@, self.g@)
    }

    /// An independent copy of the triple, for handing one party its own
    /// parameters while the other keeps the original.
    pub fn dup(&self) -> (r: GroupParameters)
        ensures
            r.p@ == self.p@,
            r.q@ == self.q@,
            r.g@ == self.g@,
    {
        GroupParameters { p: self.p.dup(), q: self.q.dup(), g: self.g.dup() }
    }

    /// Validates a candidate triple, returning the parameters exactly when
    /// every constraint holds and the reason for rejection otherwise.
    pub fn validate(p: Num, q: Num, g: Num) -> (r: Result<GroupParameters, ParamError>)
        ensures
            (r is Ok) == group_wf(p@, q@, g@),
            r is Ok ==> (r->Ok_0).p@ == p@ && (r->Ok_0).q@ == q@ && (r->Ok_0).g@ == g@
                && (r->Ok_0).wf(),
            r is Err ==> ((r->Err_0 == ParamError::NotPrime) <==> (!is_prime(p@) || !is_prime(
                q@,
            ))),
            r is Err ==> ((r->Err_0 == ParamError::OrderMismatch) <==> (is_prime(p@) && is_prime(
                q@,
            ) && (p@ - 1) % (q@ as int) != 0)),
            r is Err ==> ((r->Err_0 == ParamError::DegenerateGenerator) <==> (is_prime(p@)
                && is_prime(q@) && (p@ - 1) % (q@ as int) == 0 && !(1 < g@ < p@ && pow_mod(
                g@,
                q@,
                p@,
            ) == 1))),
    {
        if !check_prime(&p) || !check_prime(&q) {
            return Err(ParamError::NotPrime);
        }
        let one = Num::from_u64(1);
        if !p.sub(&one).rem(&q).equals(&Num::from_u64(0)) {
            return Err(ParamError::OrderMismatch);
        }
        if !one.lt(&g) || !g.lt(&p) {
            return Err(ParamError::DegenerateGenerator);
        }
        if !g.mod_pow(&q, &p).equals(&one) {
            return Err(ParamError::DegenerateGenerator);
        }
        Ok(GroupParameters { p, q, g })
    }
}

/// Decides primality by trial division: exact, and suited to the small
/// demonstration groups this engine is exercised with.
pub fn check_prime(n: &Num) -> (r: bool)
    ensures
        r == is_prime(n@),
{
    let two = Num::from_u64(2);
    if n.lt(&two) {
        return false;
    }
    let zero = Num::from_u64(0);
    let one = Num::from_u64(1);
    let mut d = two;
    while d.lt(n)
        invariant
            2 <= d@ <= n@,
            n@ >= 2,
            one@ == 1,
            zero@ == 0,
            forall|k: nat| 1 < k < d@ ==> #[trigger] (n@ % k) != 0,
        decreases n@ - d@,
    {
        if n.rem(&d).equals(&zero) {
            return false;
        }
        d = d.add(&one);
    }
    true
}

} // verus!
