use eth_marketplace::{
    Address, Binding, ChainConnection, InterfaceDesc, MarketError, SignedClient, SigningIdentity,
};

/// A malformed contract address is a configuration failure before anything
/// else happens; a well-formed one binds.
#[test]
fn contract_address_validation() {
    let iface = InterfaceDesc::marketplace;
    let r = Binding::new("0x1234", iface());
    assert_eq!(r.unwrap_err(), MarketError::Configuration);
    let r = Binding::new("definitely-not-an-address", iface());
    assert_eq!(r.unwrap_err(), MarketError::Configuration);
    let r = Binding::new("0x5FbDB2315678afecb367f032d93F642f64180aa3x", iface());
    assert_eq!(r.unwrap_err(), MarketError::Configuration);
    assert!(Binding::new("0x5FbDB2315678afecb367f032d93F642f64180aa3", iface()).is_ok());
    assert!(Binding::new("5FbDB2315678afecb367f032d93F642f64180aa3", iface()).is_ok());
}

/// An unparseable endpoint URL fails immediately with a connection error;
/// construction of a good one succeeds without any network traffic.
#[test]
fn endpoint_url_validation() {
    let r = ChainConnection::new("this is not a url".to_string());
    assert_eq!(r.unwrap_err(), MarketError::Connection);
    let c = ChainConnection::new("http://localhost:8545".to_string()).unwrap();
    assert_eq!(c.endpoint, "http://localhost:8545");
}

/// A well-formed key parses and derives the same address ethers derives.
#[test]
fn identity_derives_wallet_address() {
    let key_hex = "0x0000000000000000000000000000000000000000000000000000000000000001";
    let id = SigningIdentity::new(key_hex).unwrap();
    assert_eq!(id.key_bytes().len(), 32);

    let mut key_bytes = vec![0u8; 31];
    key_bytes.push(1);
    let wallet = ethers::signers::LocalWallet::from_bytes(&key_bytes).unwrap();
    let expected = ethers::signers::Signer::address(&wallet);
    assert_eq!(id.address().as_bytes().as_slice(), expected.as_bytes());
}

/// Malformed hexadecimal, a wrong length, and the zero scalar are all
/// invalid keys.
#[test]
fn invalid_keys_are_rejected() {
    let r = SigningIdentity::new("0xzz");
    assert_eq!(r.unwrap_err(), MarketError::InvalidKey);
    let r = SigningIdentity::new("0x0011");
    assert_eq!(r.unwrap_err(), MarketError::InvalidKey);
    let zero = "0x0000000000000000000000000000000000000000000000000000000000000000";
    let r = SigningIdentity::new(zero);
    assert_eq!(r.unwrap_err(), MarketError::InvalidKey);
}

/// The signed client composes a validated connection and identity.
#[test]
fn signed_client_composition() {
    let c = ChainConnection::new("https://example.invalid/rpc".to_string()).unwrap();
    let key_hex = "0x0000000000000000000000000000000000000000000000000000000000000002";
    let id = SigningIdentity::new(key_hex).unwrap();
    let client = SignedClient::new(c, id);
    assert_eq!(client.connection.endpoint, "https://example.invalid/rpc");
    assert_eq!(client.identity.key_bytes().len(), 32);
}

/// Every failure kind describes itself.
#[test]
fn errors_describe_themselves() {
    let kinds = [
        MarketError::Configuration,
        MarketError::Connection,
        MarketError::InvalidKey,
        MarketError::Encoding,
        MarketError::Submission,
        MarketError::Decoding,
        MarketError::Transport,
    ];
    for k in kinds.iter() {
        assert!(!k.describe().is_empty());
    }
    assert_ne!(
        MarketError::Decoding.describe(),
        MarketError::Encoding.describe()
    );
}

/// The all-zero address is zero; a parsed nonzero address is not.
#[test]
fn zero_address() {
    assert!(Address::zero().is_zero());
    let a = Address::from_hex("0x00000000000000000000000000000000000000aa").unwrap();
    assert!(!a.is_zero());
    assert_eq!(Address::zero(), Address::zero());
    assert_ne!(a, Address::zero());
}
