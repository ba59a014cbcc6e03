//! Fiat-Shamir hashing: a domain-separated, length-prefixed encoding of the
//! commitment, the public key and an optional context string, digested with
//! SHA-256. Reducing the digest modulo `q` yields the non-interactive
//! challenge.

use crate::codec::{be64_bytes, push_all, push_be64};
use sha2::Digest;
use vstd::prelude::*;

verus! {

/// Domain tag of a challenge derived from `(t, y)` alone.
pub const TAG_PLAIN: u8 = 1;

/// Domain tag of a challenge derived from `(t, y, context)`.
pub const TAG_CONTEXT: u8 = 2;

/// What SHA-256 returns on a byte string: a function of the bytes alone.
pub uninterp spec fn sha256_of(data: Seq<u8>) -> Seq<u8>;

/// Relies on `sha2::Sha256::digest`: the SHA-256 digest of the input, 32
/// bytes, depending on the input bytes alone.
#[verifier::external_body]
fn sha256(data: &Vec<u8>) -> (r: Vec<u8>)
    ensures
        r@ == sha256_of(data@),
        r@.len() == 32,
{
    sha2::Sha256::digest(data.as_slice()).to_vec()
}

/// The hashed message for a challenge over `(t, y)`: a domain tag, then
/// each operand big-endian with an 8-byte length prefix, so that operands
/// of different lengths can never collide by reassociation.
pub open spec fn fs_message(t_bytes: Seq<u8>, y_bytes: Seq<u8>) -> Seq<u8> {
    seq![TAG_PLAIN] + be64_bytes(t_bytes.len() as u64) + t_bytes + be64_bytes(
        y_bytes.len() as u64,
    ) + y_bytes
}

/// The hashed message for a challenge over `(t, y, context)`, under its own
/// domain tag.
pub open spec fn fs_message_with_context(
    t_bytes: Seq<u8>,
    y_bytes: Seq<u8>,
    context: Seq<u8>,
) -> Seq<u8> {
    seq![TAG_CONTEXT] + be64_bytes(t_bytes.len() as u64) + t_bytes + be64_bytes(
        y_bytes.len() as u64,
    ) + y_bytes + be64_bytes(context.len() as u64) + context
}

/// Digests the encoding of `(t, y)`.
pub fn fs_digest(t_bytes: &Vec<u8>, y_bytes: &Vec<u8>) -> (r: Vec<u8>)
    ensures
        r@ == sha256_of(fs_message(t_bytes@, y_bytes@)),
        r@.len() == 32,
{
    let mut msg: Vec<u8> = Vec::new();
    msg.push(TAG_PLAIN);
    push_be64(&mut msg, t_bytes.len() as u64);
    push_all(&mut msg, t_bytes);
    push_be64(&mut msg, y_bytes.len() as u64);
    push_all(&mut msg, y_bytes);
    assert(msg@ =~= fs_message(t_bytes@, y_bytes@));
    sha256(&msg)
}

/// Digests the encoding of `(t, y, context)`.
pub fn fs_digest_with_context(t_bytes: &Vec<u8>, y_bytes: &Vec<u8>, context: &Vec<u8>) -> (r: Vec<
    u8,
>)
    ensures
        r@ == sha256_of(fs_message_with_context(t_bytes@, y_bytes@, context@)),
        r@.len() == 32,
{
    let mut msg: Vec<u8> = Vec::new();
    msg.push(TAG_CONTEXT);
    push_be64(&mut msg, t_bytes.len() as u64);
    push_all(&mut msg, t_bytes);
    push_be64(&mut msg, y_bytes.len() as u64);
    push_all(&mut msg, y_bytes);
    push_be64(&mut msg, context.len() as u64);
    push_all(&mut msg, context);
    assert(msg@ =~= fs_message_with_context(t_bytes@, y_bytes@, context@));
    sha256(&msg)
}

} // verus!
