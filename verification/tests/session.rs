//! The session state machine: transitions in order succeed, out of order
//! they fail with `InvalidState`, and a finished session is single use.

use schnorr_zkp::bigint::Num;
use schnorr_zkp::params::GroupParameters;
use schnorr_zkp::protocol::{ProtocolError, Prover, Verifier};
use schnorr_zkp::session::{ProtocolSession, SessionState};

fn toy_session() -> ProtocolSession {
    let params =
        GroupParameters::validate(Num::from_u64(23), Num::from_u64(11), Num::from_u64(4)).unwrap();
    let prover = Prover::new(params.dup(), Num::from_u64(6)).unwrap();
    let verifier = Verifier::new(params, prover.public_key_num()).unwrap();
    ProtocolSession::new(prover, verifier)
}

#[test]
fn session_interactive_run_accepts() {
    let mut session = toy_session();
    session.commit().unwrap();
    session.challenge().unwrap();
    session.respond().unwrap();
    assert_eq!(session.verify(), Ok(true));
}

#[test]
fn session_fiat_shamir_run_accepts() {
    let mut session = toy_session();
    session.commit().unwrap();
    session.derive_challenge().unwrap();
    session.respond().unwrap();
    assert_eq!(session.verify(), Ok(true));
}

#[test]
fn respond_before_commit_rejected() {
    let mut session = toy_session();
    assert_eq!(
        session.respond(),
        Err(ProtocolError::InvalidState {
            expected: SessionState::Challenged,
            actual: SessionState::Init,
        })
    );
}

#[test]
fn verify_before_respond_rejected() {
    let mut session = toy_session();
    session.commit().unwrap();
    session.challenge().unwrap();
    assert_eq!(
        session.verify(),
        Err(ProtocolError::InvalidState {
            expected: SessionState::Responded,
            actual: SessionState::Challenged,
        })
    );
}

#[test]
fn challenge_before_commit_rejected() {
    let mut session = toy_session();
    assert_eq!(
        session.challenge(),
        Err(ProtocolError::InvalidState {
            expected: SessionState::Committed,
            actual: SessionState::Init,
        })
    );
    assert_eq!(
        session.derive_challenge(),
        Err(ProtocolError::InvalidState {
            expected: SessionState::Committed,
            actual: SessionState::Init,
        })
    );
}

#[test]
fn double_commit_rejected() {
    let mut session = toy_session();
    session.commit().unwrap();
    assert_eq!(
        session.commit(),
        Err(ProtocolError::InvalidState {
            expected: SessionState::Init,
            actual: SessionState::Committed,
        })
    );
}

#[test]
fn finished_session_is_single_use() {
    let mut session = toy_session();
    session.commit().unwrap();
    session.challenge().unwrap();
    session.respond().unwrap();
    assert_eq!(session.verify(), Ok(true));
    assert_eq!(
        session.commit(),
        Err(ProtocolError::InvalidState {
            expected: SessionState::Init,
            actual: SessionState::Verified(true),
        })
    );
    assert_eq!(
        session.verify(),
        Err(ProtocolError::InvalidState {
            expected: SessionState::Responded,
            actual: SessionState::Verified(true),
        })
    );
}
