use vstd::prelude::*;

use ed25519_dalek::Verifier;

use crate::codec::{confirm_msg_bytes, request_msg_bytes};
use crate::messages::{Confirm, PublicKey, Request};

verus! {

/// Whether `sig` is an Ed25519 signature of `msg` under the verifying key
/// whose compressed form is `pk`.
pub uninterp spec fn ed25519_accepts(pk: Seq<u8>, msg: Seq<u8>, sig: Seq<u8>) -> bool;

/// Relies on ed25519_dalek: `VerifyingKey::from_bytes` reads the key (it
/// fails on bytes that are not a curve point), `Signature::from_slice` reads
/// the signature (it fails unless there are exactly 64 bytes), and
/// `Verifier::verify` checks the signature over exactly `msg`. The answer
/// depends on the three byte strings alone.
#[verifier::external_body]
fn ed25519_verify(pk: &PublicKey, msg: &[u8], sig: &[u8]) -> (r: bool)
    ensures
        r == ed25519_accepts(pk@, msg@, sig@),
        sig@.len() != 64 ==> !r,
{
    match (
        ed25519_dalek::VerifyingKey::from_bytes(pk),
        ed25519_dalek::Signature::from_slice(sig),
    ) {
        (Ok(vk), Ok(s)) => vk.verify(msg, &s).is_ok(),
        _ => false,
    }
}

/// Whether the request carries a valid signature by `pk` over the four bytes
/// of its message.
pub fn verify_request(pk: &PublicKey, request: &Request) -> (r: bool)
    ensures
        r == ed25519_accepts(pk@, request_msg_bytes(request.msg), request.signature@),
{
    let bytes = <[u8; 4]>::from(request.msg);
    ed25519_verify(pk, bytes.as_slice(), request.signature.as_slice())
}

/// Whether the confirmation carries a valid signature by `pk` over the twelve
/// bytes of its message.
pub fn verify_confirm(pk: &PublicKey, confirm: &Confirm) -> (r: bool)
    ensures
        r == ed25519_accepts(pk@, confirm_msg_bytes(confirm.msg), confirm.signature@),
{
    let bytes = <[u8; 12]>::from(confirm.msg);
    ed25519_verify(pk, bytes.as_slice(), confirm.signature.as_slice())
}

} // verus!
