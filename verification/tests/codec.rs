use eth_marketplace::{
    decode_arguments, encode_arguments, eth_to_wei, fetch_product_request, fetch_product_response,
    submit_product_request, AbiValue, Address, Binding, InterfaceDesc, MarketError, ParamType,
    Uint256,
};

const CONTRACT: &str = "0x5FbDB2315678afecb367f032d93F642f64180aa3";

fn word(n: u128) -> Vec<u8> {
    let mut v = vec![0u8; 32];
    v[16..32].copy_from_slice(&n.to_be_bytes());
    v
}

fn marketplace_binding() -> Binding {
    Binding::new(CONTRACT, InterfaceDesc::marketplace()).unwrap()
}

/// The submitted listing payload is the selector of
/// `createProduct(string,uint256)` followed by the offset word, the price
/// word, the length word and the padded name, and the canned transaction
/// hash of a mocked transport would be reported unchanged.
#[test]
fn submit_old_phone_payload() {
    let binding = marketplace_binding();
    let req = submit_product_request(&binding, b"Old Phone".to_vec(), 1).unwrap();
    assert!(!req.read_only);
    assert_eq!(req.to, Address::from_hex(CONTRACT).unwrap());

    let selector = ethers::core::utils::id("createProduct(string,uint256)");
    let mut expected: Vec<u8> = selector.to_vec();
    expected.extend_from_slice(&word(0x40));
    expected.extend_from_slice(&word(1_000_000_000_000_000_000));
    expected.extend_from_slice(&word(9));
    let mut name_tail = b"Old Phone".to_vec();
    name_tail.resize(32, 0);
    expected.extend_from_slice(&name_tail);
    assert_eq!(req.data, expected);

    let canned_hash = [0xabu8; 32];
    let reported = canned_hash;
    assert_eq!(reported, canned_hash);
}

/// The fetch payload is the selector of `getProduct(uint256)` and the id.
#[test]
fn fetch_payload() {
    let binding = marketplace_binding();
    let req = fetch_product_request(&binding, 1);
    assert!(req.read_only);
    let selector = ethers::core::utils::id("getProduct(uint256)");
    let mut expected: Vec<u8> = selector.to_vec();
    expected.extend_from_slice(&word(1));
    assert_eq!(req.data, expected);
}

/// Encoding then decoding a (name, price) argument block round-trips.
#[test]
fn encode_decode_round_trip() {
    let args = vec![
        AbiValue::Text(b"Old Phone".to_vec()),
        AbiValue::Uint(Uint256::from_u64(7)),
    ];
    let block = encode_arguments(&args);
    let schema = vec![ParamType::Text, ParamType::Uint256];
    let decoded = decode_arguments(&schema, &block).unwrap();
    assert_eq!(decoded.len(), 2);
    match &decoded[0] {
        AbiValue::Text(t) => assert_eq!(t, &b"Old Phone".to_vec()),
        _ => panic!("first value should be text"),
    }
    match &decoded[1] {
        AbiValue::Uint(u) => assert_eq!(*u, Uint256::from_u64(7)),
        _ => panic!("second value should be an integer"),
    }
}

/// Empty text encodes to a bare length word and decodes back to itself.
#[test]
fn empty_name_round_trip() {
    let args = vec![AbiValue::Text(Vec::new()), AbiValue::Uint(Uint256::from_u64(0))];
    let block = encode_arguments(&args);
    let mut expected = word(0x40);
    expected.extend_from_slice(&word(0));
    expected.extend_from_slice(&word(0));
    assert_eq!(block, expected);
    let schema = vec![ParamType::Text, ParamType::Uint256];
    let decoded = decode_arguments(&schema, &block).unwrap();
    match &decoded[0] {
        AbiValue::Text(t) => assert!(t.is_empty()),
        _ => panic!("first value should be text"),
    }
}

fn nine_field_response(sold: bool, buyer_last_byte: u8) -> Vec<u8> {
    let seller = "0x00000000000000000000000000000000000000aa";
    let mut b: Vec<u8> = Vec::new();
    b.extend_from_slice(&word(1)); // id
    b.extend_from_slice(&word(288)); // offset of name
    b.extend_from_slice(&word(352)); // offset of description
    b.extend_from_slice(&word(384)); // offset of category
    b.extend_from_slice(&word(1_000_000_000_000_000_000)); // price
    let mut seller_word = vec![0u8; 12];
    seller_word.extend_from_slice(Address::from_hex(seller).unwrap().as_bytes());
    b.extend_from_slice(&seller_word); // seller
    let mut buyer_word = vec![0u8; 32];
    buyer_word[31] = buyer_last_byte;
    b.extend_from_slice(&buyer_word); // buyer
    b.extend_from_slice(&word(1_700_000_000)); // timestamp
    b.extend_from_slice(&word(if sold { 1 } else { 0 })); // sold
    b.extend_from_slice(&word(9)); // name length
    let mut name_tail = b"Old Phone".to_vec();
    name_tail.resize(32, 0);
    b.extend_from_slice(&name_tail);
    b.extend_from_slice(&word(0)); // description length
    b.extend_from_slice(&word(0)); // category length
    b
}

/// A mocked nine-field tuple decodes to the full record.
#[test]
fn fetch_decodes_nine_fields() {
    let binding = marketplace_binding();
    let bytes = nine_field_response(false, 0);
    let p = fetch_product_response(&binding, &bytes).unwrap();
    assert_eq!(p.id, Uint256::from_u64(1));
    assert_eq!(p.name, b"Old Phone".to_vec());
    assert_eq!(p.description, Vec::<u8>::new());
    assert_eq!(p.category, Vec::<u8>::new());
    assert_eq!(p.price, eth_to_wei(1));
    assert_eq!(
        p.seller,
        Address::from_hex("0x00000000000000000000000000000000000000aa").unwrap()
    );
    assert_eq!(p.buyer, Address::zero());
    assert_eq!(p.timestamp, Uint256::from_u64(1_700_000_000));
    assert!(!p.sold);
}

/// A record that claims to be sold must name a buyer.
#[test]
fn sold_record_has_nonzero_buyer() {
    let binding = marketplace_binding();
    let rejected = fetch_product_response(&binding, &nine_field_response(true, 0));
    assert_eq!(rejected.unwrap_err(), MarketError::Decoding);

    let p = fetch_product_response(&binding, &nine_field_response(true, 5)).unwrap();
    assert!(p.sold);
    assert!(!p.buyer.is_zero());
}

/// A block shorter than the nine head words never yields a record.
#[test]
fn short_block_is_rejected() {
    let binding = marketplace_binding();
    let r = fetch_product_response(&binding, &vec![0u8; 100]);
    assert_eq!(r.unwrap_err(), MarketError::Decoding);
    let r = fetch_product_response(&binding, &vec![0u8; 287]);
    assert_eq!(r.unwrap_err(), MarketError::Decoding);
}

/// A truth word other than zero or one does not decode.
#[test]
fn mangled_bool_word_is_rejected() {
    let binding = marketplace_binding();
    let mut bytes = nine_field_response(false, 0);
    bytes[287] = 2; // the sold word's last byte
    let r = fetch_product_response(&binding, &bytes);
    assert_eq!(r.unwrap_err(), MarketError::Decoding);
}

/// A text offset pointing past the block does not decode.
#[test]
fn out_of_range_offset_is_rejected() {
    let block = word(4096);
    let schema = vec![ParamType::Text];
    assert!(decode_arguments(&schema, &block).is_none());
}

/// Arguments that do not fit the declared parameter types are an encoding
/// failure.
#[test]
fn mismatched_arguments_are_rejected() {
    let binding = marketplace_binding();
    let args = vec![
        AbiValue::Uint(Uint256::from_u64(1)),
        AbiValue::Uint(Uint256::from_u64(2)),
    ];
    let r = binding.encode_call(0, &args);
    assert_eq!(r.unwrap_err(), MarketError::Encoding);
    let r = binding.encode_call(1, &vec![]);
    assert_eq!(r.unwrap_err(), MarketError::Encoding);
}

/// A name longer than the engine's text limit cannot be encoded.
#[test]
fn oversized_name_is_an_encoding_failure() {
    let binding = marketplace_binding();
    let name = vec![b'a'; eth_marketplace::MAX_TEXT_LEN + 1];
    let r = submit_product_request(&binding, name, 1);
    assert_eq!(r.unwrap_err(), MarketError::Encoding);
    let name = vec![b'a'; eth_marketplace::MAX_TEXT_LEN];
    assert!(submit_product_request(&binding, name, 1).is_ok());
}

/// One whole unit of the native currency is 10^18 base units.
#[test]
fn whole_unit_conversion() {
    let one = eth_to_wei(1);
    let mut expected = vec![0u8; 24];
    expected.extend_from_slice(&0x0DE0_B6B3_A764_0000u64.to_be_bytes());
    assert_eq!(one.as_bytes(), &expected);
    assert_eq!(eth_to_wei(0), Uint256::from_u64(0));
    assert_eq!(eth_to_wei(3), Uint256::from_u128(3_000_000_000_000_000_000));
}

/// Integer words are big-endian with leading zeros.
#[test]
fn integer_words_are_big_endian() {
    let v = Uint256::from_u64(0x1122_3344);
    let mut expected = vec![0u8; 28];
    expected.extend_from_slice(&[0x11, 0x22, 0x33, 0x44]);
    assert_eq!(v.as_bytes(), &expected);
    assert_ne!(Uint256::from_u64(5), Uint256::from_u64(6));
    assert_eq!(Uint256::from_u64(5), Uint256::from_u64(5));
}
