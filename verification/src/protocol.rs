//! The two parties of the identification protocol. The prover holds the
//! secret exponent and produces the commitment and the response; the
//! verifier holds the public key, issues challenges, and checks the final
//! equation `g^s mod p == t * y^c mod p`.

use crate::arith::{lemma_schnorr_completeness, pow_mod};
use crate::bigint::Num;
use crate::codec::be_bytes_of;
use crate::codec::be_val;
use crate::fiat_shamir::{
    fs_digest, fs_digest_with_context, fs_message, fs_message_with_context, sha256_of,
};
use crate::params::{group_wf, GroupParameters};
use crate::session::SessionState;
use vstd::arithmetic::div_mod::lemma_mod_bound;
use vstd::prelude::*;

verus! {

/// Why a protocol operation was refused. A refused operation rejects the
/// proof attempt; it never crashes, and it carries no secret.
#[derive(Clone, Copy, Debug, PartialEq, Eq, Structural)]
pub enum ProtocolError {
    /// A session operation was called out of order.
    InvalidState { expected: SessionState, actual: SessionState },
    /// A received value lay outside its admissible range.
    OutOfRange,
    /// `respond` was called with no commitment outstanding.
    NoOutstandingCommitment,
}

/// The prover: holds the secret `x`, the derived public key
/// `y = g^x mod p`, and at most one outstanding commitment nonce.
pub struct Prover {
    params: GroupParameters,
    x: Num,
    y: Num,
    nonce: Option<Num>,
}

impl Prover {
    /// The group this prover works in.
    pub closed spec fn group(&self) -> GroupParameters {
        self.params
    }

    /// The secret exponent, as a mathematical value. Ghost only: the secret
    /// never leaves the prover in executable form.
    pub closed spec fn secret(&self) -> nat {
        self.x@
    }

    /// The public key `g^x mod p`.
    pub closed spec fn public_key(&self) -> nat {
        self.y@
    }

    /// The ephemeral nonce of the outstanding commitment, if one is
    /// in flight.
    pub closed spec fn outstanding(&self) -> Option<nat> {
        match self.nonce {
            Some(ref r) => Some(r@),
            None => None,
        }
    }

    /// Validity: the group is well formed, the secret lies in `(0, q)`, the
    /// public key is derived from it, and any outstanding nonce lies in
    /// `[0, q)`.
    pub open spec fn wf(&self) -> bool {
        &&& group_wf(self.group().p@, self.group().q@, self.group().g@)
        &&& 0 < self.secret() < self.group().q@
        &&& self.public_key() == pow_mod(self.group().g@, self.secret(), self.group().p@)
        &&& match self.outstanding() {
            Some(r) => r < self.group().q@,
            None => true,
        }
    }

    /// Builds a prover from validated parameters and a secret. A secret
    /// outside `(0, q)` is rejected rather than silently reduced.
    pub fn new(params: GroupParameters, secret: Num) -> (r: Result<Prover, ProtocolError>)
        requires
            group_wf(params.p@, params.q@, params.g@),
        ensures
            (r is Ok) == (0 < secret@ < params.q@),
            r is Err ==> r->Err_0 == ProtocolError::OutOfRange,
            r is Ok ==> (r->Ok_0).wf(),
            r is Ok ==> (r->Ok_0).group() == params,
            r is Ok ==> (r->Ok_0).secret() == secret@,
            r is Ok ==> (r->Ok_0).public_key() == pow_mod(params.g@, secret@, params.p@),
            r is Ok ==> (r->Ok_0).outstanding() is None,
    {
        let zero = Num::from_u64(0);
        if !zero.lt(&secret) || !secret.lt(&params.q) {
            return Err(ProtocolError::OutOfRange);
        }
        let y = params.g.mod_pow(&secret, &params.p);
        Ok(Prover { params, x: secret, y, nonce: None })
    }

    /// Commits with the given nonce: computes `t = g^r mod p` and retains
    /// `r` as the single outstanding ephemeral state, invalidating any
    /// earlier one. Deterministic seam behind `commit`; also the hook a
    /// test uses to fix the nonce.
    pub fn commit_with_nonce(&mut self, r: Num) -> (t: Num)
        requires
            old(self).wf(),
            r@ < old(self).group().q@,
        ensures
            final(self).wf(),
            final(self).group() == old(self).group(),
            final(self).secret() == old(self).secret(),
            final(self).public_key() == old(self).public_key(),
            final(self).outstanding() == Some(r@),
            t@ == pow_mod(old(self).group().g@, r@, old(self).group().p@),
    {
        let t = self.params.g.mod_pow(&r, &self.params.p);
        self.nonce = Some(r);
        t
    }

    /// Commits with a fresh nonce drawn uniformly from `[0, q)` by the
    /// secure generator.
    pub fn commit(&mut self) -> (t: Num)
        requires
            old(self).wf(),
        ensures
            final(self).wf(),
            final(self).group() == old(self).group(),
            final(self).secret() == old(self).secret(),
            final(self).public_key() == old(self).public_key(),
            final(self).outstanding() is Some,
            final(self).outstanding()->0 < old(self).group().q@,
            t@ == pow_mod(old(self).group().g@, final(self).outstanding()->0, old(self).group().p@),
    {
        let r = Num::random_below(&self.params.q);
        self.commit_with_nonce(r)
    }

    /// The public key `y = g^x mod p`, for publication to the verifier.
    pub fn public_key_num(&self) -> (r: Num)
        ensures
            r@ == self.public_key(),
    {
        self.y.dup()
    }

    /// Answers a challenge: `s = (r + c*x) mod q` for the outstanding nonce
    /// `r`, which is consumed so it can never serve twice. Fails when no
    /// commitment is outstanding, or when the challenge is out of range (in
    /// which case the commitment stays available for a well-formed
    /// challenge).
    pub fn respond(&mut self, c: &Num) -> (r: Result<Num, ProtocolError>)
        requires
            old(self).wf(),
        ensures
            final(self).wf(),
            final(self).group() == old(self).group(),
            final(self).secret() == old(self).secret(),
            final(self).public_key() == old(self).public_key(),
            old(self).outstanding() is None ==> r == Err::<Num, ProtocolError>(
                ProtocolError::NoOutstandingCommitment,
            ) && final(self).outstanding() is None,
            old(self).outstanding() is Some && c@ >= old(self).group().q@ ==> r == Err::<
                Num,
                ProtocolError,
            >(ProtocolError::OutOfRange) && final(self).outstanding() == old(self).outstanding(),
            old(self).outstanding() is Some && c@ < old(self).group().q@ ==> {
                &&& r is Ok
                &&& (r->Ok_0)@ == (old(self).outstanding()->0 + c@ * old(self).secret()) % old(self).group().q@
                &&& final(self).outstanding() is None
            },
    {
        if self.nonce.is_none() {
            return Err(ProtocolError::NoOutstandingCommitment);
        }
        if !c.lt(&self.params.q) {
            return Err(ProtocolError::OutOfRange);
        }
        let r0 = self.nonce.take().unwrap();
        let s = r0.add(&c.mul(&self.x)).rem(&self.params.q);
        Ok(s)
    }
}

/// The verifier: holds the group and the claimed public key, issues
/// challenges, and decides the final equation.
pub struct Verifier {
    params: GroupParameters,
    y: Num,
}

impl Verifier {
    /// The group this verifier works in.
    pub closed spec fn group(&self) -> GroupParameters {
        self.params
    }

    /// The public key the proof is checked against.
    pub closed spec fn public_key(&self) -> nat {
        self.y@
    }

    /// Validity: the group is well formed and the key lies in the subgroup
    /// of order `q`.
    pub open spec fn wf(&self) -> bool {
        &&& group_wf(self.group().p@, self.group().q@, self.group().g@)
        &&& 0 < self.public_key() < self.group().p@
        &&& pow_mod(self.public_key(), self.group().q@, self.group().p@) == 1
    }

    /// Builds a verifier from validated parameters and a public key. A key
    /// outside `(0, p)` or outside the subgroup of order `q` is rejected:
    /// accepting it would admit small-subgroup confinement.
    pub fn new(params: GroupParameters, y: Num) -> (r: Result<Verifier, ProtocolError>)
        requires
            group_wf(params.p@, params.q@, params.g@),
        ensures
            (r is Ok) == (0 < y@ < params.p@ && pow_mod(y@, params.q@, params.p@) == 1),
            r is Err ==> r->Err_0 == ProtocolError::OutOfRange,
            r is Ok ==> (r->Ok_0).wf(),
            r is Ok ==> (r->Ok_0).group() == params,
            r is Ok ==> (r->Ok_0).public_key() == y@,
    {
        let zero = Num::from_u64(0);
        let one = Num::from_u64(1);
        if !zero.lt(&y) || !y.lt(&params.p) {
            return Err(ProtocolError::OutOfRange);
        }
        if !y.mod_pow(&params.q, &params.p).equals(&one) {
            return Err(ProtocolError::OutOfRange);
        }
        Ok(Verifier { params, y })
    }

    /// The interactive, honest-verifier challenge: drawn uniformly from
    /// `[0, q)` by the secure generator, fresh per session and independent
    /// of the commitment.
    pub fn challenge(&self) -> (c: Num)
        requires
            self.wf(),
        ensures
            c@ < self.group().q@,
    {
        Num::random_below(&self.params.q)
    }

    /// The non-interactive challenge: the SHA-256 digest of the
    /// domain-separated encoding of `(t, y)`, reduced modulo `q` at its
    /// full width.
    pub fn derive_challenge(&self, t: &Num) -> (c: Num)
        requires
            self.wf(),
        ensures
            c@ == be_val(sha256_of(fs_message(be_bytes_of(t@), be_bytes_of(self.public_key()))))
                % self.group().q@,
            c@ < self.group().q@,
    {
        let tb = t.to_bytes_be();
        let yb = self.y.to_bytes_be();
        let digest = fs_digest(&tb, &yb);
        let h = Num::from_bytes_be(&digest);
        let c = h.rem(&self.params.q);
        proof {
            lemma_mod_bound(h@ as int, self.params.q@ as int);
        }
        c
    }

    /// The non-interactive challenge bound to a context string, under its
    /// own domain tag.
    pub fn derive_challenge_with_context(&self, t: &Num, context: &Vec<u8>) -> (c: Num)
        requires
            self.wf(),
        ensures
            c@ == be_val(
                sha256_of(
                    fs_message_with_context(
                        be_bytes_of(t@),
                        be_bytes_of(self.public_key()),
                        context@,
                    ),
                ),
            ) % self.group().q@,
            c@ < self.group().q@,
    {
        let tb = t.to_bytes_be();
        let yb = self.y.to_bytes_be();
        let digest = fs_digest_with_context(&tb, &yb, context);
        let h = Num::from_bytes_be(&digest);
        let c = h.rem(&self.params.q);
        proof {
            lemma_mod_bound(h@ as int, self.params.q@ as int);
        }
        c
    }

    /// Decides a transcript: accepts exactly when
    /// `g^s mod p == t * y^c mod p`. A challenge or response at or above
    /// `q` is refused as out of range rather than silently wrapped — a
    /// malformed proof, distinguished from a wrong one.
    pub fn verify(&self, t: &Num, c: &Num, s: &Num) -> (r: Result<bool, ProtocolError>)
        requires
            self.wf(),
        ensures
            (r is Ok) == (c@ < self.group().q@ && s@ < self.group().q@),
            r is Err ==> r->Err_0 == ProtocolError::OutOfRange,
            r is Ok ==> r->Ok_0 == (pow_mod(self.group().g@, s@, self.group().p@) == (t@ * pow_mod(
                self.public_key(),
                c@,
                self.group().p@,
            )) % self.group().p@),
    {
        if !c.lt(&self.params.q) || !s.lt(&self.params.q) {
            return Err(ProtocolError::OutOfRange);
        }
        let left = self.params.g.mod_pow(s, &self.params.p);
        let right = t.mul(&self.y.mod_pow(c, &self.params.p)).rem(&self.params.p);
        Ok(left.equals(&right))
    }
}

/// Completeness: an honestly generated transcript always verifies. For any
/// well-formed group, any secret in `(0, q)`, any nonce and any challenge,
/// the response `s = (r + c*x) mod q` satisfies the verifier's equation
/// against `t = g^r mod p` and `y = g^x mod p`.
pub proof fn lemma_completeness(p: nat, q: nat, g: nat, x: nat, r: nat, c: nat)
    requires
        group_wf(p, q, g),
        0 < x < q,
    ensures
        ({
            let y = pow_mod(g, x, p);
            let t = pow_mod(g, r, p);
            let s = ((r + c * x) % q) as nat;
            pow_mod(g, s, p) == (t * pow_mod(y, c, p)) % p
        }),
{
    lemma_schnorr_completeness(p, q, g, x, r, c);
}

/// The knowledge extractor behind the soundness argument: from two accepted
/// transcripts that share a commitment but differ in challenge, the secret
/// is `(s1 - s2) * (c1 - c2)^(-1) mod q`, the inverse taken by Fermat's
/// little theorem as `(c1 - c2)^(q-2) mod q`. This function computes exactly
/// that value; reusing a nonce across two challenges therefore surrenders
/// the secret.
pub fn extract_secret(params: &GroupParameters, c1: &Num, s1: &Num, c2: &Num, s2: &Num) -> (r:
    Result<Num, ProtocolError>)
    requires
        params.wf(),
    ensures
        (r is Ok) == (c1@ < params.q@ && c2@ < params.q@ && s1@ < params.q@ && s2@ < params.q@
            && c1@ != c2@),
        r is Err ==> r->Err_0 == ProtocolError::OutOfRange,
        r is Ok ==> (r->Ok_0)@ == (((s1@ + params.q@ - s2@) % params.q@ as int) * pow_mod(
            ((c1@ + params.q@ - c2@) % params.q@ as int) as nat,
            (params.q@ - 2) as nat,
            params.q@,
        )) % params.q@ as int,
    {
        if !c1.lt(&params.q) || !c2.lt(&params.q) || !s1.lt(&params.q) || !s2.lt(&params.q)
            || c1.equals(c2) {
            return Err(ProtocolError::OutOfRange);
        }
        let two = Num::from_u64(2);
        let ds = s1.add(&params.q).sub(s2).rem(&params.q);
        let dc = c1.add(&params.q).sub(c2).rem(&params.q);
        let inv = dc.mod_pow(&params.q.sub(&two), &params.q);
        Ok(ds.mul(&inv).rem(&params.q))
    }

} // verus!
