//! A single proof attempt, end to end: the session owns one prover and one
//! verifier over the same group and key, drives the three-move exchange,
//! and enforces the protocol's finite state machine. A session is single
//! use: once verified, for either outcome, it cannot be rewound, which
//! upholds the one-time nature of the commitment nonce.

use crate::arith::pow_mod;
use crate::bigint::Num;
use crate::protocol::{lemma_completeness, ProtocolError, Prover, Verifier};
use vstd::pervasive::unreached;
use vstd::prelude::*;

verus! {

/// Where a session stands in the three-move exchange. `Verified` is
/// terminal, with the verifier's decision inside.
#[derive(Clone, Copy, Debug, PartialEq, Eq, Structural)]
pub enum SessionState {
    Init,
    Committed,
    Challenged,
    Responded,
    Verified(bool),
}

/// Prover and verifier agree on the group and on the public key.
pub open spec fn matched(prover: &Prover, verifier: &Verifier) -> bool {
    &&& prover.group().p@ == verifier.group().p@
    &&& prover.group().q@ == verifier.group().q@
    &&& prover.group().g@ == verifier.group().g@
    &&& prover.public_key() == verifier.public_key()
}

/// One run of the protocol between a matched prover and verifier.
pub struct ProtocolSession {
    prover: Prover,
    verifier: Verifier,
    state: SessionState,
    commitment: Option<Num>,
    challenge_value: Option<Num>,
    response: Option<Num>,
    nonce_used: Ghost<nat>,
}

impl ProtocolSession {
    /// The state the session is in.
    pub closed spec fn current_state(&self) -> SessionState {
        self.state
    }

    /// The session's internal invariant: both parties stay well formed and
    /// matched, and the values stored so far are exactly those an honest
    /// run produces from the nonce drawn at commitment.
    pub closed spec fn inv(&self) -> bool {
        &&& self.prover.wf()
        &&& self.verifier.wf()
        &&& matched(&self.prover, &self.verifier)
        &&& match self.state {
            SessionState::Init => true,
            SessionState::Committed => self.committed_inv(),
            SessionState::Challenged => self.committed_inv() && self.challenged_inv(),
            SessionState::Responded => self.transcript_inv(),
            SessionState::Verified(_) => true,
        }
    }

    /// After the first move: the commitment is stored, and the prover still
    /// holds the nonce it was built from.
    closed spec fn committed_inv(&self) -> bool {
        &&& self.commitment is Some
        &&& self.prover.outstanding() == Some(self.nonce_used@)
        &&& self.nonce_used@ < self.prover.group().q@
        &&& (self.commitment->0)@ == pow_mod(
            self.prover.group().g@,
            self.nonce_used@,
            self.prover.group().p@,
        )
    }

    /// After the second move: a challenge below `q` is stored.
    closed spec fn challenged_inv(&self) -> bool {
        &&& self.challenge_value is Some
        &&& (self.challenge_value->0)@ < self.prover.group().q@
    }

    /// After the third move: the whole transcript is stored and honest.
    closed spec fn transcript_inv(&self) -> bool {
        &&& self.commitment is Some
        &&& self.challenge_value is Some
        &&& self.response is Some
        &&& self.nonce_used@ < self.prover.group().q@
        &&& (self.commitment->0)@ == pow_mod(
            self.prover.group().g@,
            self.nonce_used@,
            self.prover.group().p@,
        )
        &&& (self.challenge_value->0)@ < self.prover.group().q@
        &&& (self.response->0)@ == (self.nonce_used@ + (self.challenge_value->0)@
            * self.prover.secret()) % self.prover.group().q@
    }

    /// Opens a session between a matched prover and verifier.
    pub fn new(prover: Prover, verifier: Verifier) -> (r: ProtocolSession)
        requires
            prover.wf(),
            verifier.wf(),
            matched(&prover, &verifier),
        ensures
            r.inv(),
            r.current_state() == SessionState::Init,
    {
        ProtocolSession {
            prover,
            verifier,
            state: SessionState::Init,
            commitment: None,
            challenge_value: None,
            response: None,
            nonce_used: Ghost(0),
        }
    }

    /// First move: the prover commits to a fresh random nonce.
    pub fn commit(&mut self) -> (r: Result<(), ProtocolError>)
        requires
            old(self).inv(),
        ensures
            final(self).inv(),
            old(self).current_state() == SessionState::Init ==> r is Ok && final(self).current_state() == SessionState::Committed,
            old(self).current_state() != SessionState::Init ==> r == Err::<(), ProtocolError>(
                ProtocolError::InvalidState {
                    expected: SessionState::Init,
                    actual: old(self).current_state(),
                },
            ) && final(self).current_state() == old(self).current_state(),
    {
        match self.state {
            SessionState::Init => {},
            _ => {
                return Err(
                    ProtocolError::InvalidState {
                        expected: SessionState::Init,
                        actual: self.state,
                    },
                );
            },
        }
        let t = self.prover.commit();
        self.nonce_used = Ghost(self.prover.outstanding()->0);
        self.commitment = Some(t);
        self.state = SessionState::Committed;
        Ok(())
    }

    /// Second move, interactive: the verifier draws a fresh random
    /// challenge.
    pub fn challenge(&mut self) -> (r: Result<(), ProtocolError>)
        requires
            old(self).inv(),
        ensures
            final(self).inv(),
            old(self).current_state() == SessionState::Committed ==> r is Ok && final(self).current_state() == SessionState::Challenged,
            old(self).current_state() != SessionState::Committed ==> r == Err::<
                (),
                ProtocolError,
            >(
                ProtocolError::InvalidState {
                    expected: SessionState::Committed,
                    actual: old(self).current_state(),
                },
            ) && final(self).current_state() == old(self).current_state(),
    {
        match self.state {
            SessionState::Committed => {},
            _ => {
                return Err(
                    ProtocolError::InvalidState {
                        expected: SessionState::Committed,
                        actual: self.state,
                    },
                );
            },
        }
        let c = self.verifier.challenge();
        self.challenge_value = Some(c);
        self.state = SessionState::Challenged;
        Ok(())
    }

    /// Second move, non-interactive: the challenge is derived from the
    /// commitment and the public key by the Fiat-Shamir transform.
    pub fn derive_challenge(&mut self) -> (r: Result<(), ProtocolError>)
        requires
            old(self).inv(),
        ensures
            final(self).inv(),
            old(self).current_state() == SessionState::Committed ==> r is Ok && final(self).current_state() == SessionState::Challenged,
            old(self).current_state() != SessionState::Committed ==> r == Err::<
                (),
                ProtocolError,
            >(
                ProtocolError::InvalidState {
                    expected: SessionState::Committed,
                    actual: old(self).current_state(),
                },
            ) && final(self).current_state() == old(self).current_state(),
    {
        match self.state {
            SessionState::Committed => {},
            _ => {
                return Err(
                    ProtocolError::InvalidState {
                        expected: SessionState::Committed,
                        actual: self.state,
                    },
                );
            },
        }
        let c = match &self.commitment {
            Some(t) => self.verifier.derive_challenge(t),
            None => unreached(),
        };
        self.challenge_value = Some(c);
        self.state = SessionState::Challenged;
        Ok(())
    }

    /// Third move: the prover answers the stored challenge, consuming the
    /// nonce.
    pub fn respond(&mut self) -> (r: Result<(), ProtocolError>)
        requires
            old(self).inv(),
        ensures
            final(self).inv(),
            old(self).current_state() == SessionState::Challenged ==> r is Ok && final(self).current_state() == SessionState::Responded,
            old(self).current_state() != SessionState::Challenged ==> r == Err::<
                (),
                ProtocolError,
            >(
                ProtocolError::InvalidState {
                    expected: SessionState::Challenged,
                    actual: old(self).current_state(),
                },
            ) && final(self).current_state() == old(self).current_state(),
    {
        match self.state {
            SessionState::Challenged => {},
            _ => {
                return Err(
                    ProtocolError::InvalidState {
                        expected: SessionState::Challenged,
                        actual: self.state,
                    },
                );
            },
        }
        let outcome = match &self.challenge_value {
            Some(c) => self.prover.respond(c),
            None => unreached(),
        };
        let s = match outcome {
            Ok(s) => s,
            Err(_) => unreached(),
        };
        self.response = Some(s);
        self.state = SessionState::Responded;
        Ok(())
    }

    /// Final move: the verifier decides the stored transcript. For a session
    /// that reached this point the transcript is honest, so the outcome is
    /// always acceptance — the protocol's completeness, discharged by proof.
    pub fn verify(&mut self) -> (r: Result<bool, ProtocolError>)
        requires
            old(self).inv(),
        ensures
            final(self).inv(),
            old(self).current_state() == SessionState::Responded ==> r == Ok::<
                bool,
                ProtocolError,
            >(true) && final(self).current_state() == SessionState::Verified(true),
            old(self).current_state() != SessionState::Responded ==> r == Err::<
                bool,
                ProtocolError,
            >(
                ProtocolError::InvalidState {
                    expected: SessionState::Responded,
                    actual: old(self).current_state(),
                },
            ) && final(self).current_state() == old(self).current_state(),
    {
        match self.state {
            SessionState::Responded => {},
            _ => {
                return Err(
                    ProtocolError::InvalidState {
                        expected: SessionState::Responded,
                        actual: self.state,
                    },
                );
            },
        }
        proof {
            lemma_completeness(
                self.prover.group().p@,
                self.prover.group().q@,
                self.prover.group().g@,
                self.prover.secret(),
                self.nonce_used@,
                (self.challenge_value->0)@,
            );
        }
        let outcome = match (&self.commitment, &self.challenge_value, &self.response) {
            (Some(t), Some(c), Some(s)) => self.verifier.verify(t, c, s),
            _ => unreached(),
        };
        let accepted = match outcome {
            Ok(b) => b,
            Err(_) => unreached(),
        };
        self.state = SessionState::Verified(accepted);
        Ok(accepted)
    }
}

} // verus!
