//! The product record: the nine-field tuple the contract returns, decoded.

use crate::abi::{AbiValueV, ParamType};
use crate::address::Address;
use crate::uint256::Uint256;
use crate::words::zero_bytes;
use vstd::prelude::*;

verus! {

/// The declared return schema of a product read: nine fields, in this order.
pub open spec fn product_schema() -> Seq<ParamType> {
    seq![
        ParamType::Uint256,
        ParamType::Text,
        ParamType::Text,
        ParamType::Text,
        ParamType::Uint256,
        ParamType::Address,
        ParamType::Address,
        ParamType::Uint256,
        ParamType::Bool,
    ]
}

/// Builds the product schema for the decoder.
pub fn product_schema_exec() -> (r: Vec<ParamType>)
    ensures
        r@ == product_schema(),
{
    let r: Vec<ParamType> = vec![
        ParamType::Uint256,
        ParamType::Text,
        ParamType::Text,
        ParamType::Text,
        ParamType::Uint256,
        ParamType::Address,
        ParamType::Address,
        ParamType::Uint256,
        ParamType::Bool,
    ];
    proof {
        assert(r@ =~= product_schema());
    }
    r
}

/// A product listing as contract storage holds it.  It is only ever decoded
/// from a contract read, never constructed locally.
#[derive(Debug)]
pub struct ProductRecord {
    pub id: Uint256,
    pub name: Vec<u8>,
    pub description: Vec<u8>,
    pub category: Vec<u8>,
    pub price: Uint256,
    pub seller: Address,
    pub buyer: Address,
    pub timestamp: Uint256,
    pub sold: bool,
}

impl ProductRecord {
    /// Every sized field holds its width, and a sold product names a buyer.
    pub open spec fn wf(&self) -> bool {
        &&& self.id.wf()
        &&& self.price.wf()
        &&& self.timestamp.wf()
        &&& self.seller.wf()
        &&& self.buyer.wf()
        &&& self.sold ==> self.buyer@ != zero_bytes(20)
    }
}

/// The record's fields, in the order and shape of the return schema.
pub open spec fn record_values(p: ProductRecord) -> Seq<AbiValueV> {
    seq![
        AbiValueV::Uint(p.id@),
        AbiValueV::Text(p.name@),
        AbiValueV::Text(p.description@),
        AbiValueV::Text(p.category@),
        AbiValueV::Uint(p.price@),
        AbiValueV::Addr(p.seller@),
        AbiValueV::Addr(p.buyer@),
        AbiValueV::Uint(p.timestamp@),
        AbiValueV::Flag(p.sold),
    ]
}

/// The record invariant, over decoded values: a sold product has a buyer.
pub open spec fn sold_implies_buyer(vs: Seq<AbiValueV>) -> bool {
    vs[8] == AbiValueV::Flag(true) ==> vs[6] != AbiValueV::Addr(zero_bytes(20))
}

/// Law: a return block shorter than the nine head words of the schema never
/// decodes; no partially populated record can arise from it.
pub proof fn lemma_short_block_fails(b: Seq<u8>)
    requires
        b.len() < 288,
    ensures
        crate::abi::decode_args(product_schema(), b) is None,
{
    let ts = product_schema();
    assert(crate::abi::decode_one(ts[8], b, 256int) is None);
    crate::abi::lemma_decode_from_none(ts, b, 0, 8);
}

} // verus!
