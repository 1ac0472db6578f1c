//! The check of a party's signature under a payload.

use vstd::prelude::*;
use crate::bytes::AccountId;
use crate::renting::Error;

verus! {

/// `sp_runtime::AnySignature::verify`, on a signature made by
/// `sp_core::sr25519::Signature::try_from` and a signer made by
/// `sp_core::sr25519::Public::from_raw`: whether the signature is one of
/// the signer under the data, as an sr25519 or as an ed25519 signature.
/// There is no answer where the signature has not sixty-four bytes. What
/// the answer is depends on the host as well, so nothing is said of it.
#[verifier::external_body]
fn signature_checks(data: &[u8], signature: &[u8], who: &AccountId) -> (valid: Option<bool>)
    ensures
        valid is None <==> signature@.len() != 64,
{
    let signature = sp_core::sr25519::Signature::try_from(signature).ok()?;
    let signer = sp_core::sr25519::Public::from_raw(*who);
    Some(sp_runtime::traits::Verify::verify(&sp_runtime::AnySignature::from(signature), data, &signer))
}

/// What a check of a signature comes to: only a signature that was found
/// valid passes.
pub fn signature_outcome(checked: Option<bool>) -> (verified: Result<(), Error>)
    ensures
        verified == (if checked == Some(true) {
            Ok::<(), Error>(())
        } else {
            Err(Error::SignatureVerifyError)
        }),
{
    match checked {
        Some(true) => Ok(()),
        _ => Err(Error::SignatureVerifyError),
    }
}

/// Checks that `signature` is the signature of `who` under `data`. A
/// signature that has not sixty-four bytes never passes.
pub fn verify_signature(data: &Vec<u8>, signature: &Vec<u8>, who: &AccountId) -> (verified: Result<(), Error>)
    ensures
        verified is Err ==> verified == Err::<(), Error>(Error::SignatureVerifyError),
        signature@.len() != 64 ==> verified is Err,
{
    signature_outcome(signature_checks(data.as_slice(), signature.as_slice(), who))
}

} // verus!
