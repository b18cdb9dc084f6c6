use vstd::prelude::*;

verus! {

/// The failure taxonomy of the marketplace client.  Every fallible operation
/// of the library reports exactly one of these, so a caller can tell which
/// stage of a flow went wrong.
#[derive(Clone, Copy, Debug, PartialEq, Eq, Structural)]
pub enum MarketError {
    /// A configuration value (such as the contract address) is malformed.
    Configuration,
    /// The endpoint URL cannot be turned into a transport handle.
    Connection,
    /// The private key string is not a usable signing key.
    InvalidKey,
    /// An argument cannot be represented in its declared wire type.
    Encoding,
    /// The node rejected a signed transaction.
    Submission,
    /// Returned bytes do not match the declared return schema.
    Decoding,
    /// The transport failed before a response was obtained.
    Transport,
}

impl MarketError {
    /// A short human-readable description, for reporting at the boundary.
    pub fn describe(&self) -> (r: &'static str)
        ensures
            r@.len() > 0,
    {
        proof {
            reveal_strlit("malformed configuration value");
            reveal_strlit("endpoint URL is not usable");
            reveal_strlit("private key is not usable");
            reveal_strlit("argument cannot be encoded");
            reveal_strlit("transaction was rejected");
            reveal_strlit("returned bytes do not match the schema");
            reveal_strlit("transport failure");
        }
        match self {
            MarketError::Configuration => "malformed configuration value",
            MarketError::Connection => "endpoint URL is not usable",
            MarketError::InvalidKey => "private key is not usable",
            MarketError::Encoding => "argument cannot be encoded",
            MarketError::Submission => "transaction was rejected",
            MarketError::Decoding => "returned bytes do not match the schema",
            MarketError::Transport => "transport failure",
        }
    }
}

} // verus!
