//! Byte encodings and the arithmetic facade on exact values.

use schnorr_zkp::bigint::Num;
use schnorr_zkp::transcript::ProofTranscript;

#[test]
fn byte_encoding_round_trip() {
    let n = Num::from_u64(258);
    let bytes = n.to_bytes_be();
    assert_eq!(bytes, vec![1u8, 2]);
    let back = Num::from_bytes_be(&bytes);
    assert!(back.equals(&n));
}

#[test]
fn byte_encoding_of_zero() {
    let z = Num::from_u64(0);
    assert_eq!(z.to_bytes_be(), vec![0u8]);
    assert!(Num::from_bytes_be(&vec![0u8]).equals(&z));
}

#[test]
fn byte_decoding_ignores_leading_zeros() {
    let n = Num::from_bytes_be(&vec![0u8, 1, 2]);
    assert!(n.equals(&Num::from_u64(258)));
}

#[test]
fn arithmetic_exact_values() {
    let four = Num::from_u64(4);
    let six = Num::from_u64(6);
    let p = Num::from_u64(23);
    assert!(four.mod_pow(&six, &p).equals(&Num::from_u64(2)));
    assert!(four.add(&six).equals(&Num::from_u64(10)));
    assert!(four.mul(&six).equals(&Num::from_u64(24)));
    assert!(six.sub(&four).equals(&Num::from_u64(2)));
    assert!(p.rem(&six).equals(&Num::from_u64(5)));
    assert!(four.lt(&six));
    assert!(!six.lt(&four));
    assert!(!six.lt(&six));
    assert!(six.dup().equals(&six));
}

#[test]
fn transcript_wire_form_exact() {
    let transcript = ProofTranscript {
        t: Num::from_u64(8),
        c: Num::from_u64(3),
        s: Num::from_u64(258),
    };
    let wire = transcript.encode();
    let mut expected: Vec<u8> = Vec::new();
    // t = 8: one byte behind an 8-byte length prefix.
    expected.extend_from_slice(&[0, 0, 0, 0, 0, 0, 0, 1, 8]);
    // c = 3: likewise.
    expected.extend_from_slice(&[0, 0, 0, 0, 0, 0, 0, 1, 3]);
    // s = 258: two bytes.
    expected.extend_from_slice(&[0, 0, 0, 0, 0, 0, 0, 2, 1, 2]);
    assert_eq!(wire, expected);
}

#[test]
fn transcript_decode_round_trip() {
    let transcript = ProofTranscript {
        t: Num::from_u64(8),
        c: Num::from_u64(3),
        s: Num::from_u64(258),
    };
    let wire = transcript.encode();
    let back = ProofTranscript::decode(&wire).expect("a wire form must decode");
    assert!(back.t.equals(&transcript.t));
    assert!(back.c.equals(&transcript.c));
    assert!(back.s.equals(&transcript.s));
}

#[test]
fn transcript_decode_rejects_malformed() {
    let transcript = ProofTranscript {
        t: Num::from_u64(8),
        c: Num::from_u64(3),
        s: Num::from_u64(258),
    };
    let wire = transcript.encode();
    // Truncated.
    let mut truncated = wire.clone();
    truncated.pop();
    assert!(ProofTranscript::decode(&truncated).is_none());
    // Trailing garbage.
    let mut padded = wire.clone();
    padded.push(0);
    assert!(ProofTranscript::decode(&padded).is_none());
    // A non-minimal field: t = 8 as the two bytes [0, 8].
    let mut non_minimal: Vec<u8> = Vec::new();
    non_minimal.extend_from_slice(&[0, 0, 0, 0, 0, 0, 0, 2, 0, 8]);
    non_minimal.extend_from_slice(&wire[9..]);
    assert!(ProofTranscript::decode(&non_minimal).is_none());
    // Empty input.
    assert!(ProofTranscript::decode(&Vec::new()).is_none());
}

#[test]
fn random_below_stays_in_range() {
    let bound = Num::from_u64(11);
    for _ in 0..50 {
        let r = Num::random_below(&bound);
        assert!(r.lt(&bound));
    }
}
