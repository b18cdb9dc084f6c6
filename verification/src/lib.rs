//! A verified client for an on-chain marketplace contract.
//!
//! The library covers everything between typed application intent and raw
//! transport bytes: a generic argument/return marshalling engine driven by
//! an interface description, a typed binding for the deployed contract's two
//! operations (listing a product, reading a product record back), and the
//! validated configuration objects (endpoint, signing identity, contract
//! address) those operations need.  The transport itself — sending a signed
//! transaction, performing a read-only call — is left to the embedding
//! program, which hands the built request out and the returned bytes back.

use vstd::prelude::*;

mod abi;
mod address;
mod binding;
mod client;
mod errors;
mod flows;
mod hex;
mod outside;
mod product;
mod uint256;
mod words;

pub use abi::{decode_arguments, encode_arguments, AbiValue, ParamType, MAX_TEXT_LEN};
pub use address::Address;
pub use binding::{Binding, FunctionDesc, InterfaceDesc};
pub use client::{ChainConnection, SignedClient, SigningIdentity};
pub use errors::MarketError;
pub use flows::{eth_to_wei, fetch_product_request, fetch_product_response, submit_product_request,
    CallRequest};
pub use product::ProductRecord;
pub use uint256::Uint256;

verus! {

} // verus!
