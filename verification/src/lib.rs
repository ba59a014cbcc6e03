//! A Schnorr identification scheme: a three-move zero-knowledge proof of
//! knowledge of a discrete logarithm over a prime-order multiplicative
//! subgroup.
//!
//! A prover holding a secret exponent `x` with `y = g^x mod p` convinces a
//! verifier of that knowledge without revealing `x`. The crate provides
//! group-parameter validation, the commit/challenge/response exchange, the
//! verification predicate, a Fiat-Shamir challenge derivation, and a
//! session type that enforces the protocol's state machine.

pub mod arith;
pub mod bigint;
pub mod codec;
pub mod fiat_shamir;
pub mod params;
pub mod protocol;
pub mod session;
pub mod transcript;
