//! The connection, identity and client configuration objects.  All are
//! built once at startup and immutable afterwards; their constructors do the
//! validation, so a value of one of these types is always usable.

use crate::address::Address;
use crate::errors::MarketError;
use crate::hex::{hex_bytes, parse_hex_fixed, strip_0x, valid_hex_fixed};
use crate::outside::{address_of_key, provider_accepts, url_accepted, wallet_address};
use vstd::prelude::*;
use vstd::string::{StrSliceExecFns, StringSliceAdditionalSpecFns};

verus! {

/// A validated endpoint: a URL the transport accepts.  Construction makes no
/// network call; it only validates the text.
#[derive(Debug)]
pub struct ChainConnection {
    pub endpoint: String,
}

impl ChainConnection {
    /// Wraps an endpoint URL, or reports a connection failure at once when
    /// the transport cannot be built from it.
    pub fn new(url: String) -> (r: Result<ChainConnection, MarketError>)
        ensures
            (r is Ok) == url_accepted(url@),
            r matches Ok(c) ==> c.endpoint@ == url@,
            r matches Err(e) ==> e == MarketError::Connection,
    {
        if provider_accepts(url.as_str()) {
            Ok(ChainConnection { endpoint: url })
        } else {
            Err(MarketError::Connection)
        }
    }
}

/// A parsed signing key and the account address derived from it.
#[derive(Debug)]
pub struct SigningIdentity {
    key: Vec<u8>,
    address: Address,
}

impl SigningIdentity {
    /// Well-formed: a 32-byte key whose derived address is recorded.
    pub closed spec fn wf(&self) -> bool {
        &&& self.key@.len() == 32
        &&& address_of_key(self.key@) == Some(self.address@)
        &&& self.address@.len() == 20
    }

    pub closed spec fn spec_key(&self) -> Seq<u8> {
        self.key@
    }

    pub closed spec fn spec_address(&self) -> Seq<u8> {
        self.address@
    }

    /// Parses a raw hexadecimal private key (an optional `0x`, then 64
    /// digits) and derives its address.  Malformed text, or a key the curve
    /// rejects, is an invalid-key failure; nothing else is consulted.
    pub fn new(key_hex: &str) -> (r: Result<SigningIdentity, MarketError>)
        ensures
            (r is Ok) == (valid_hex_fixed(key_hex.spec_bytes(), 32) && address_of_key(
                hex_bytes(strip_0x(key_hex.spec_bytes())),
            ) is Some),
            r matches Ok(id) ==> id.wf() && id.spec_key() == hex_bytes(
                strip_0x(key_hex.spec_bytes()),
            ),
            r matches Err(e) ==> e == MarketError::InvalidKey,
    {
        let b = key_hex.as_bytes_vec();
        let key = match parse_hex_fixed(&b, 32) {
            Some(k) => k,
            None => {
                return Err(MarketError::InvalidKey);
            },
        };
        match wallet_address(&key) {
            Some(addr_bytes) => {
                let address = Address::from_raw(addr_bytes);
                Ok(SigningIdentity { key, address })
            },
            None => Err(MarketError::InvalidKey),
        }
    }

    /// The raw key bytes, for the transport layer's signer.
    pub fn key_bytes(&self) -> (r: &Vec<u8>)
        ensures
            r@ == self.spec_key(),
    {
        &self.key
    }

    /// The account address derived from the key.
    pub fn address(&self) -> (r: &Address)
        ensures
            r@ == self.spec_address(),
    {
        &self.address
    }
}

/// The composition of a connection and an identity: everything needed to
/// read state and to submit authenticated transactions.
#[derive(Debug)]
pub struct SignedClient {
    pub connection: ChainConnection,
    pub identity: SigningIdentity,
}

impl SignedClient {
    pub fn new(connection: ChainConnection, identity: SigningIdentity) -> (r: SignedClient)
        requires
            identity.wf(),
        ensures
            r.connection.endpoint@ == connection.endpoint@,
            r.identity == identity,
            r.identity.wf(),
    {
        SignedClient { connection, identity }
    }
}

} // verus!
