//! Validation of group parameter triples.

use schnorr_zkp::bigint::Num;
use schnorr_zkp::params::{check_prime, GroupParameters, ParamError};

fn validate(p: u64, q: u64, g: u64) -> Result<GroupParameters, ParamError> {
    GroupParameters::validate(Num::from_u64(p), Num::from_u64(q), Num::from_u64(g))
}

fn rejection(p: u64, q: u64, g: u64) -> ParamError {
    match validate(p, q, g) {
        Ok(_) => panic!("expected the triple to be rejected"),
        Err(e) => e,
    }
}

#[test]
fn validate_accepts_toy_group() {
    let params = validate(23, 11, 4).unwrap();
    assert!(params.p.equals(&Num::from_u64(23)));
    assert!(params.q.equals(&Num::from_u64(11)));
    assert!(params.g.equals(&Num::from_u64(4)));
}

#[test]
fn validate_rejects_composite_modulus() {
    assert_eq!(rejection(25, 11, 4), ParamError::NotPrime);
    assert_eq!(rejection(33, 11, 4), ParamError::NotPrime);
}

#[test]
fn validate_rejects_composite_order() {
    assert_eq!(rejection(23, 9, 4), ParamError::NotPrime);
    assert_eq!(rejection(23, 1, 4), ParamError::NotPrime);
}

#[test]
fn validate_rejects_order_mismatch() {
    // 7 is prime but does not divide 23 - 1 = 22.
    assert_eq!(rejection(23, 7, 4), ParamError::OrderMismatch);
}

#[test]
fn validate_rejects_degenerate_generator() {
    // 22 has order 2 modulo 23, not 11: 22^11 mod 23 = 22.
    assert_eq!(rejection(23, 11, 22), ParamError::DegenerateGenerator);
    // 1 generates only the trivial subgroup.
    assert_eq!(rejection(23, 11, 1), ParamError::DegenerateGenerator);
    // 0 and values at or above p are outside the group.
    assert_eq!(rejection(23, 11, 0), ParamError::DegenerateGenerator);
    assert_eq!(rejection(23, 11, 23), ParamError::DegenerateGenerator);
}

#[test]
fn check_prime_exact() {
    assert!(!check_prime(&Num::from_u64(0)));
    assert!(!check_prime(&Num::from_u64(1)));
    assert!(check_prime(&Num::from_u64(2)));
    assert!(check_prime(&Num::from_u64(3)));
    assert!(!check_prime(&Num::from_u64(4)));
    assert!(check_prime(&Num::from_u64(17)));
    assert!(!check_prime(&Num::from_u64(21)));
    assert!(check_prime(&Num::from_u64(23)));
}
