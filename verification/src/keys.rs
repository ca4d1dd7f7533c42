//! Secret-key validation. A parsed 32-byte scalar is only usable for signing
//! when the curve accepts it: nonzero and below the secp256k1 group order.
//! The check itself is made by the secp256k1 library.
use vstd::prelude::*;

use crate::errors::PipelineError;

verus! {

/// The order of the secp256k1 group: the exclusive upper bound of a secret
/// key scalar.
pub open spec fn curve_order() -> nat {
    0xFFFFFFFFFFFFFFFFFFFFFFFFFFFFFFFEBAAEDCE6AF48A03BBFD25E8CD0364141nat
}

/// The natural number a big-endian byte string denotes.
pub open spec fn spec_be_bytes_as_nat(s: Seq<u8>) -> nat
    decreases s.len(),
{
    if s.len() == 0 {
        0
    } else {
        (spec_be_bytes_as_nat(s.drop_last()) * 256 + s.last()) as nat
    }
}

/// A scalar the curve accepts as a secret key: 32 bytes, nonzero, below the
/// group order.
pub open spec fn spec_valid_secret_key(s: Seq<u8>) -> bool {
    s.len() == 32 && 0 < spec_be_bytes_as_nat(s) < curve_order()
}

/// Relies on secp256k1::SecretKey::from_slice: it returns Ok exactly for
/// 32-byte big-endian scalars in [1, group order - 1].
#[verifier::external_body]
fn secp_accepts_secret_key(bytes: &[u8]) -> (r: bool)
    ensures
        r == spec_valid_secret_key(bytes@),
{
    secp256k1::SecretKey::from_slice(bytes).is_ok()
}

/// Accept a parsed secret key only when the curve does; reject the rest as a
/// signing error, as the signer itself would.
pub fn validate_secret_key(bytes: &Vec<u8>) -> (r: Result<(), PipelineError>)
    ensures
        r is Ok <==> spec_valid_secret_key(bytes@),
        r is Err ==> r->Err_0 == PipelineError::Signing,
{
    if secp_accepts_secret_key(bytes.as_slice()) {
        Ok(())
    } else {
        Err(PipelineError::Signing)
    }
}

} // verus!
