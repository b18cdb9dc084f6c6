//! The two application flows, as pure request builders and response
//! decoders.  The transport performs the built request and hands the raw
//! response bytes back to the decoder; nothing here touches the network.

use crate::abi::{AbiValueV, ParamType};
use crate::address::Address;
use crate::binding::{calldata_for, create_product_name, get_product_name, Binding};
use crate::errors::MarketError;
use crate::product::ProductRecord;
use crate::uint256::Uint256;
use crate::words::be_word;
use vstd::arithmetic::mul::lemma_mul_inequality;
use vstd::prelude::*;

verus! {

/// How many base units (wei) one unit of the native currency is.
pub const WEI_PER_UNIT: u128 = 1000000000000000000;

/// A fully built contract call, ready for the transport: where to send it,
/// the payload, and whether it only reads state.
#[derive(Debug)]
pub struct CallRequest {
    pub to: Address,
    pub data: Vec<u8>,
    pub read_only: bool,
}

/// Converts a whole-unit price into its base-unit integer.
pub fn eth_to_wei(units: u64) -> (r: Uint256)
    ensures
        r.wf(),
        r@ == be_word(units as nat * WEI_PER_UNIT as nat),
{
    proof {
        lemma_mul_inequality(units as int, u64::MAX as int, WEI_PER_UNIT as int);
    }
    let wei: u128 = (units as u128) * WEI_PER_UNIT;
    Uint256::from_u128(wei)
}

/// Builds the state-changing request that lists a product: the name text
/// and a whole-unit price, converted and encoded against the interface
/// description.
pub fn submit_product_request(binding: &Binding, name: Vec<u8>, price_units: u64) -> (r: Result<
    CallRequest,
    MarketError,
>)
    requires
        binding.wf(),
        binding.is_marketplace(),
    ensures
        (r is Ok) == (name@.len() <= crate::abi::MAX_TEXT_LEN),
        r matches Ok(req) ==> req.to@ == binding.address@ && !req.read_only && req.data@
            == calldata_for(
            create_product_name(),
            seq![ParamType::Text, ParamType::Uint256],
            seq![
                AbiValueV::Text(name@),
                AbiValueV::Uint(be_word(price_units as nat * WEI_PER_UNIT as nat)),
            ],
        ),
        r matches Err(e) ==> e == MarketError::Encoding,
{
    let price = eth_to_wei(price_units);
    let data = match binding.create_product(name, &price) {
        Ok(d) => d,
        Err(e) => {
            return Err(e);
        },
    };
    Ok(CallRequest { to: binding.address.clone(), data, read_only: false })
}

/// Builds the read-only request that fetches a product record by id.
pub fn fetch_product_request(binding: &Binding, id: u64) -> (r: CallRequest)
    requires
        binding.wf(),
        binding.is_marketplace(),
    ensures
        r.to@ == binding.address@,
        r.read_only,
        r.data@ == calldata_for(
            get_product_name(),
            seq![ParamType::Uint256],
            seq![AbiValueV::Uint(be_word(id as nat))],
        ),
{
    let data = binding.get_product_call(id);
    CallRequest { to: binding.address.clone(), data, read_only: true }
}

/// Decodes the raw bytes the transport returned for a fetch; all-or-nothing.
pub fn fetch_product_response(binding: &Binding, data: &Vec<u8>) -> (r: Result<
    ProductRecord,
    MarketError,
>)
    requires
        binding.wf(),
        binding.is_marketplace(),
    ensures
        (r is Ok) == (crate::abi::decode_args(crate::product::product_schema(), data@) matches Some(
            vs,
        ) && crate::product::sold_implies_buyer(vs)),
        r matches Ok(p) ==> crate::abi::decode_args(crate::product::product_schema(), data@)
            == Some(crate::product::record_values(p)) && p.wf(),
        r matches Err(e) ==> e == MarketError::Decoding,
{
    binding.decode_product(data)
}

} // verus!
