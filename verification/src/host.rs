//! What the library takes on trust from `cosmwasm_std`, `cw_utils` and
//! `sha2`. Nothing below is proved: each contract restates what the named
//! function does, and the rest of the library is proved from these contracts.

use cosmwasm_std::testing::MockApi;
use cosmwasm_std::{Api, Binary, Timestamp, VerificationError};
use sha2::{Digest, Sha256};
use vstd::prelude::*;

use crate::msg::{BlockInfo, Expiration};

verus! {

/// `cosmwasm_std::VerificationError`: why a signature could not be checked.
#[verifier::external_type_specification]
#[verifier::external_body]
pub struct ExVerificationError(VerificationError);

/// The SHA-256 digest of a message.
pub uninterp spec fn sha256_of(msg: Seq<u8>) -> Seq<u8>;

/// What `secp256k1_verify` makes of a digest, a signature and a public key:
/// `Some(true)` where the signature verifies, `Some(false)` where it does
/// not, `None` where one of the three is malformed.
pub uninterp spec fn secp256k1_verdict(hash: Seq<u8>, signature: Seq<u8>, pubkey: Seq<u8>) -> Option<bool>;

/// The base64 text of a byte string.
pub uninterp spec fn base64_of(data: Seq<u8>) -> Seq<char>;

/// `sha2::Sha256`, fed `msg` once and finalized. The digest depends on the
/// message alone.
#[verifier::external_body]
pub(crate) fn sha256(msg: &[u8]) -> (digest: Vec<u8>)
    ensures
        digest@ == sha256_of(msg@),
{
    let mut hasher = Sha256::new();
    hasher.update(msg);
    hasher.finalize().to_vec()
}

/// `cosmwasm_std::Api::secp256k1_verify`, as `MockApi` implements it by a
/// call of `cosmwasm_crypto::secp256k1_verify`. The answer depends on the
/// three arguments alone.
#[verifier::external_body]
pub(crate) fn secp256k1_verify(hash: &[u8], signature: &[u8], pubkey: &[u8]) -> (r: Result<
    bool,
    VerificationError,
>)
    ensures
        secp256k1_verdict(hash@, signature@, pubkey@) == match r {
            Ok(b) => Some(b),
            Err(_) => None,
        },
{
    MockApi::default().secp256k1_verify(hash, signature, pubkey)
}

/// `cosmwasm_std::Binary::to_base64`: the standard base64 text of the bytes,
/// padded. It depends on the bytes alone.
#[verifier::external_body]
pub(crate) fn to_base64(data: &[u8]) -> (text: String)
    ensures
        text@ == base64_of(data@),
{
    Binary::from(data).to_base64()
}

/// `cw_utils::Expiration::is_expired`: a height is reached when the block's
/// height is at least as large, a time when the block's time is, and `Never`
/// is never reached.
#[verifier::external_body]
pub(crate) fn is_expired(expiry: &Expiration, block: &BlockInfo) -> (r: bool)
    ensures
        r == expiry.expired_at(block.height, block.time),
{
    let expiry = match *expiry {
        Expiration::AtHeight(h) => cw_utils::Expiration::AtHeight(h),
        Expiration::AtTime(t) => cw_utils::Expiration::AtTime(Timestamp::from_nanos(t)),
        Expiration::Never => cw_utils::Expiration::Never {},
    };
    let block = cosmwasm_std::BlockInfo {
        height: block.height,
        time: Timestamp::from_nanos(block.time),
        chain_id: block.chain_id.clone(),
    };
    expiry.is_expired(&block)
}

} // verus!
