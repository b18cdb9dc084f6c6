//! The library's trusted boundary: the three outside computations it relies
//! on.  Each wrapper's contract states no more than the callee's source
//! shows; Verus believes these contracts and verifies everything built on
//! them.

use vstd::prelude::*;

verus! {

/// The Keccak-256 digest of a byte string, named but not defined: it is a
/// function of the input alone.
pub uninterp spec fn keccak_of(b: Seq<u8>) -> Seq<u8>;

/// Relies on ethers' `keccak256`: a 32-byte digest computed from the input
/// bytes alone.
#[verifier::external_body]
pub(crate) fn keccak256_digest(b: &Vec<u8>) -> (r: Vec<u8>)
    ensures
        r@ == keccak_of(b@),
        r@.len() == 32,
{
    ethers::core::utils::keccak256(b.as_slice()).to_vec()
}

/// Whether the endpoint transport accepts a URL string: a function of the
/// string alone.
pub uninterp spec fn url_accepted(u: Seq<char>) -> bool;

/// Relies on ethers' `Provider::<Http>::try_from`, whose body is
/// `Url::parse`: constructing a transport handle succeeds or fails purely on
/// the URL text, with no network traffic.
#[verifier::external_body]
pub(crate) fn provider_accepts(u: &str) -> (r: bool)
    ensures
        r == url_accepted(u@),
{
    ethers::providers::Provider::<ethers::providers::Http>::try_from(u).is_ok()
}

/// The 20-byte account address derived from a 32-byte private key, or
/// nothing when the key is not a usable signing scalar; a function of the
/// key bytes alone.
pub uninterp spec fn address_of_key(k: Seq<u8>) -> Option<Seq<u8>>;

/// Relies on ethers' `Wallet::from_bytes` and `Signer::address`: a 32-byte
/// key is either rejected (it is zero or not below the curve order) or
/// yields a wallet whose 20-byte address is derived from the key alone.
#[verifier::external_body]
pub(crate) fn wallet_address(key: &Vec<u8>) -> (r: Option<Vec<u8>>)
    requires
        key@.len() == 32,
    ensures
        (r is Some) == (address_of_key(key@) is Some),
        r matches Some(a) ==> address_of_key(key@) == Some(a@) && a@.len() == 20,
{
    match ethers::signers::LocalWallet::from_bytes(key.as_slice()) {
        Ok(w) => Some(ethers::signers::Signer::address(&w).as_bytes().to_vec()),
        Err(_) => None,
    }
}

} // verus!
