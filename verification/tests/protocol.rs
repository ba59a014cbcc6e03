//! The three-move exchange on the toy group `p = 23, q = 11, g = 4`.

use schnorr_zkp::bigint::Num;
use schnorr_zkp::params::GroupParameters;
use schnorr_zkp::protocol::{extract_secret, ProtocolError, Prover, Verifier};

fn toy_params() -> GroupParameters {
    GroupParameters::validate(Num::from_u64(23), Num::from_u64(11), Num::from_u64(4)).unwrap()
}

fn toy_prover(secret: u64) -> Prover {
    Prover::new(toy_params(), Num::from_u64(secret)).unwrap()
}

fn toy_verifier(y: Num) -> Verifier {
    Verifier::new(toy_params(), y).unwrap()
}

#[test]
fn end_to_end_toy_parameters() {
    // p = 23, q = 11, g = 4, x = 6 gives y = 4^6 mod 23 = 2.
    let mut prover = toy_prover(6);
    let y = prover.public_key_num();
    assert!(y.equals(&Num::from_u64(2)));
    let verifier = toy_verifier(prover.public_key_num());

    // Fix the nonce r = 7: t = 4^7 mod 23 = 8.
    let t = prover.commit_with_nonce(Num::from_u64(7));
    assert!(t.equals(&Num::from_u64(8)));

    let c = verifier.challenge();
    let s = prover.respond(&c).unwrap();
    assert_eq!(verifier.verify(&t, &c, &s), Ok(true));

    // A shifted challenge c' = (c + 1) mod 11 no longer matches s.
    let c_shifted = c.add(&Num::from_u64(1)).rem(&Num::from_u64(11));
    assert_eq!(verifier.verify(&t, &c_shifted, &s), Ok(false));
}

#[test]
fn completeness_interactive() {
    // Every secret in (0, q) and a fresh random nonce and challenge: the
    // honest transcript always verifies.
    for x in 1..11u64 {
        let mut prover = toy_prover(x);
        let verifier = toy_verifier(prover.public_key_num());
        let t = prover.commit();
        let c = verifier.challenge();
        let s = prover.respond(&c).unwrap();
        assert_eq!(verifier.verify(&t, &c, &s), Ok(true));
    }
}

#[test]
fn completeness_fiat_shamir() {
    for x in 1..11u64 {
        let mut prover = toy_prover(x);
        let verifier = toy_verifier(prover.public_key_num());
        let t = prover.commit();
        let c = verifier.derive_challenge(&t);
        let s = prover.respond(&c).unwrap();
        assert_eq!(verifier.verify(&t, &c, &s), Ok(true));
    }
}

#[test]
fn fiat_shamir_challenge_exact() {
    // SHA-256 of the tagged, length-prefixed encoding of t = 8, y = 2,
    // reduced mod 11, comes out as 3.
    let mut prover = toy_prover(6);
    let verifier = toy_verifier(prover.public_key_num());
    let t = prover.commit_with_nonce(Num::from_u64(7));
    let c = verifier.derive_challenge(&t);
    assert!(c.equals(&Num::from_u64(3)));
}

#[test]
fn fiat_shamir_context_changes_challenge() {
    // The same t and y under the context tag and the string "demo" hash to
    // the challenge 10 instead.
    let mut prover = toy_prover(6);
    let verifier = toy_verifier(prover.public_key_num());
    let t = prover.commit_with_nonce(Num::from_u64(7));
    let plain = verifier.derive_challenge(&t);
    let bound = verifier.derive_challenge_with_context(&t, &vec![b'd', b'e', b'm', b'o']);
    assert!(bound.equals(&Num::from_u64(10)));
    assert!(!plain.equals(&bound));
}

#[test]
fn extractor_recovers_secret() {
    // One nonce answered under two distinct challenges surrenders the
    // secret: with r = 7, c1 = 3 and c2 = 5 give s1 = 3 and s2 = 4, and the
    // extractor returns x = 6.
    let params = toy_params();
    let mut prover = toy_prover(6);
    let c1 = Num::from_u64(3);
    let c2 = Num::from_u64(5);
    prover.commit_with_nonce(Num::from_u64(7));
    let s1 = prover.respond(&c1).unwrap();
    assert!(s1.equals(&Num::from_u64(3)));
    prover.commit_with_nonce(Num::from_u64(7));
    let s2 = prover.respond(&c2).unwrap();
    assert!(s2.equals(&Num::from_u64(4)));
    let x = extract_secret(&params, &c1, &s1, &c2, &s2).unwrap();
    assert!(x.equals(&Num::from_u64(6)));
}

#[test]
fn extractor_rejects_equal_challenges() {
    let params = toy_params();
    let c = Num::from_u64(3);
    let s1 = Num::from_u64(3);
    let s2 = Num::from_u64(4);
    match extract_secret(&params, &c, &s1, &c, &s2) {
        Err(e) => assert_eq!(e, ProtocolError::OutOfRange),
        Ok(_) => panic!("equal challenges must be rejected"),
    }
}

#[test]
fn tampered_response_rejected() {
    // A response not derived from the secret fails across many random
    // challenges.
    for _ in 0..25 {
        let mut prover = toy_prover(6);
        let verifier = toy_verifier(prover.public_key_num());
        let t = prover.commit();
        let c = verifier.challenge();
        let s = prover.respond(&c).unwrap();
        let forged = s.add(&Num::from_u64(1)).rem(&Num::from_u64(11));
        assert_eq!(verifier.verify(&t, &c, &forged), Ok(false));
    }
}

#[test]
fn respond_range_rejection() {
    let mut prover = toy_prover(6);
    prover.commit();
    match prover.respond(&Num::from_u64(11)) {
        Err(e) => assert_eq!(e, ProtocolError::OutOfRange),
        Ok(_) => panic!("challenge at q must be rejected"),
    }
    // The commitment survives a malformed challenge: a well-formed one
    // still gets its answer.
    assert!(prover.respond(&Num::from_u64(3)).is_ok());
}

#[test]
fn respond_without_commitment_rejected() {
    let mut prover = toy_prover(6);
    match prover.respond(&Num::from_u64(3)) {
        Err(e) => assert_eq!(e, ProtocolError::NoOutstandingCommitment),
        Ok(_) => panic!("respond before commit must be rejected"),
    }
    // After a completed round the nonce is consumed: a second respond on
    // the same commitment is refused.
    prover.commit();
    prover.respond(&Num::from_u64(3)).unwrap();
    match prover.respond(&Num::from_u64(4)) {
        Err(e) => assert_eq!(e, ProtocolError::NoOutstandingCommitment),
        Ok(_) => panic!("a nonce must never answer twice"),
    }
}

#[test]
fn verify_range_rejection() {
    let mut prover = toy_prover(6);
    let verifier = toy_verifier(prover.public_key_num());
    let t = prover.commit();
    let c = verifier.challenge();
    let s = prover.respond(&c).unwrap();
    for bad in [11u64, 12, 100] {
        match verifier.verify(&t, &Num::from_u64(bad), &s) {
            Err(e) => assert_eq!(e, ProtocolError::OutOfRange),
            Ok(_) => panic!("challenge >= q must be rejected"),
        }
        match verifier.verify(&t, &c, &Num::from_u64(bad)) {
            Err(e) => assert_eq!(e, ProtocolError::OutOfRange),
            Ok(_) => panic!("response >= q must be rejected"),
        }
    }
}

#[test]
fn prover_rejects_out_of_range_secret() {
    for bad in [0u64, 11, 12, 1000] {
        match Prover::new(toy_params(), Num::from_u64(bad)) {
            Err(e) => assert_eq!(e, ProtocolError::OutOfRange),
            Ok(_) => panic!("secret outside (0, q) must be rejected"),
        }
    }
    assert!(Prover::new(toy_params(), Num::from_u64(10)).is_ok());
}

#[test]
fn verifier_rejects_bad_public_key() {
    // Zero, p itself, and a value outside the order-11 subgroup.
    for bad in [0u64, 23, 24, 5] {
        match Verifier::new(toy_params(), Num::from_u64(bad)) {
            Err(e) => assert_eq!(e, ProtocolError::OutOfRange),
            Ok(_) => panic!("bad public key must be rejected"),
        }
    }
    assert!(Verifier::new(toy_params(), Num::from_u64(2)).is_ok());
}

#[test]
fn second_commitment_invalidates_first() {
    let mut prover = toy_prover(6);
    prover.commit_with_nonce(Num::from_u64(3));
    prover.commit_with_nonce(Num::from_u64(7));
    // The response is built from the second nonce: (7 + 2*6) mod 11 = 8.
    let s = prover.respond(&Num::from_u64(2)).unwrap();
    assert!(s.equals(&Num::from_u64(8)));
}
