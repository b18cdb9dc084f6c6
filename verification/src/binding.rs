//! The contract binding: a typed proxy for one deployed marketplace
//! instance, driven entirely by an interface description.  Adding a contract
//! function means extending the description; the encode/decode engine is
//! generic.

use crate::abi::{
    decode_args, decode_arguments, encodable_value, encode_args, encode_arguments,
    has_type, views_of, wf_value, AbiValue, AbiValueV, ParamType,
};
use crate::address::Address;
use crate::errors::MarketError;
use crate::hex::{hex_bytes, strip_0x, valid_hex_fixed};
use crate::outside::{keccak256_digest, keccak_of};
use crate::product::{
    product_schema, product_schema_exec, record_values, sold_implies_buyer, ProductRecord,
};
use crate::uint256::Uint256;
use crate::words::{be_word, copy_range, push_bytes, zero_bytes};
use vstd::prelude::*;
use vstd::string::StringSliceAdditionalSpecFns;

verus! {

/// The canonical token of a wire type inside a function signature.
pub open spec fn type_token(t: ParamType) -> Seq<u8> {
    match t {
        ParamType::Uint256 => seq![117u8, 105u8, 110u8, 116u8, 50u8, 53u8, 54u8],
        ParamType::Address => seq![97u8, 100u8, 100u8, 114u8, 101u8, 115u8, 115u8],
        ParamType::Bool => seq![98u8, 111u8, 111u8, 108u8],
        ParamType::Text => seq![115u8, 116u8, 114u8, 105u8, 110u8, 103u8],
    }
}

/// The comma-separated tokens of the parameter types.
pub open spec fn joined_tokens(ts: Seq<ParamType>) -> Seq<u8>
    decreases ts.len(),
{
    if ts.len() == 0 {
        Seq::<u8>::empty()
    } else if ts.len() == 1 {
        type_token(ts[0])
    } else {
        joined_tokens(ts.drop_last()) + seq![44u8] + type_token(ts.last())
    }
}

/// The canonical signature text: `name(type,...,type)` as bytes.
pub open spec fn signature_bytes(name: Seq<u8>, inputs: Seq<ParamType>) -> Seq<u8> {
    name + seq![40u8] + joined_tokens(inputs) + seq![41u8]
}

/// The full payload of a call: the first four bytes of the signature's
/// digest, then the encoded argument block.
pub open spec fn calldata_for(name: Seq<u8>, inputs: Seq<ParamType>, vs: Seq<AbiValueV>) -> Seq<
    u8,
> {
    keccak_of(signature_bytes(name, inputs)).take(4) + encode_args(vs)
}

/// The bytes of the listing function's name.
pub open spec fn create_product_name() -> Seq<u8> {
    seq![99u8, 114u8, 101u8, 97u8, 116u8, 101u8, 80u8, 114u8, 111u8, 100u8, 117u8, 99u8, 116u8]
}

/// The bytes of the read function's name.
pub open spec fn get_product_name() -> Seq<u8> {
    seq![103u8, 101u8, 116u8, 80u8, 114u8, 111u8, 100u8, 117u8, 99u8, 116u8]
}

/// One callable function: its name, parameter types, return types, and
/// whether it only reads state.
#[derive(Debug)]
pub struct FunctionDesc {
    pub name: Vec<u8>,
    pub inputs: Vec<ParamType>,
    pub outputs: Vec<ParamType>,
    pub constant: bool,
}

/// A description the binding can drive: argument and return counts stay
/// within the engine's block limit.
pub open spec fn desc_wf(d: FunctionDesc) -> bool {
    d.inputs@.len() <= 16 && d.outputs@.len() <= 16
}

/// The static, versioned description of the contract's callable functions.
#[derive(Debug)]
pub struct InterfaceDesc {
    pub functions: Vec<FunctionDesc>,
}

impl InterfaceDesc {
    /// The marketplace interface: a state-changing two-argument listing
    /// function and a read returning the nine product fields.
    pub fn marketplace() -> (r: InterfaceDesc)
        ensures
            r.functions@.len() == 2,
            r.functions@[0].name@ == create_product_name(),
            r.functions@[0].inputs@ == seq![ParamType::Text, ParamType::Uint256],
            r.functions@[0].outputs@ == Seq::<ParamType>::empty(),
            !r.functions@[0].constant,
            r.functions@[1].name@ == get_product_name(),
            r.functions@[1].inputs@ == seq![ParamType::Uint256],
            r.functions@[1].outputs@ == product_schema(),
            r.functions@[1].constant,
            forall|i: int| 0 <= i < 2 ==> desc_wf(#[trigger] r.functions@[i]),
    {
        let create_name: Vec<u8> = vec![
            99u8, 114u8, 101u8, 97u8, 116u8, 101u8, 80u8, 114u8, 111u8, 100u8, 117u8, 99u8, 116u8,
        ];
        let get_name: Vec<u8> = vec![
            103u8, 101u8, 116u8, 80u8, 114u8, 111u8, 100u8, 117u8, 99u8, 116u8,
        ];
        proof {
            assert(create_name@ =~= create_product_name());
            assert(get_name@ =~= get_product_name());
        }
        let create_inputs: Vec<ParamType> = vec![ParamType::Text, ParamType::Uint256];
        let create_outputs: Vec<ParamType> = Vec::new();
        let get_inputs: Vec<ParamType> = vec![ParamType::Uint256];
        let get_outputs = product_schema_exec();
        proof {
            assert(create_inputs@ =~= seq![ParamType::Text, ParamType::Uint256]);
            assert(create_outputs@ =~= Seq::<ParamType>::empty());
            assert(get_inputs@ =~= seq![ParamType::Uint256]);
        }
        let create = FunctionDesc {
            name: create_name,
            inputs: create_inputs,
            outputs: create_outputs,
            constant: false,
        };
        let get = FunctionDesc {
            name: get_name,
            inputs: get_inputs,
            outputs: get_outputs,
            constant: true,
        };
        let functions: Vec<FunctionDesc> = vec![create, get];
        InterfaceDesc { functions }
    }
}

/// Whether one value fits one declared parameter type and can be encoded.
fn value_matches(v: &AbiValue, t: ParamType) -> (r: bool)
    ensures
        r == (has_type(v@, t) && encodable_value(v@)),
{
    match (v, t) {
        (AbiValue::Uint(u), ParamType::Uint256) => u.as_bytes().len() == 32,
        (AbiValue::Addr(a), ParamType::Address) => a.as_bytes().len() == 20,
        (AbiValue::Flag(_), ParamType::Bool) => true,
        (AbiValue::Text(x), ParamType::Text) => x.len() <= crate::abi::MAX_TEXT_LEN,
        _ => false,
    }
}

/// A whole argument block fits a declared parameter list.
pub open spec fn encodable_args(ts: Seq<ParamType>, vs: Seq<AbiValueV>) -> bool {
    vs.len() == ts.len() && forall|i: int|
        0 <= i < vs.len() ==> has_type(#[trigger] vs[i], ts[i]) && encodable_value(vs[i])
}

/// Builds the canonical signature text of a function.
fn signature_of(d: &FunctionDesc) -> (r: Vec<u8>)
    ensures
        r@ == signature_bytes(d.name@, d.inputs@),
{
    let mut out: Vec<u8> = Vec::new();
    push_bytes(&mut out, &d.name);
    out.push(40u8);
    let n = d.inputs.len();
    let mut j: usize = 0;
    proof {
        assert(out@ =~= d.name@ + seq![40u8] + joined_tokens(d.inputs@.take(0)));
    }
    while j < n
        invariant
            j <= n,
            n == d.inputs@.len(),
            out@ == d.name@ + seq![40u8] + joined_tokens(d.inputs@.take(j as int)),
        decreases n - j,
    {
        if j > 0 {
            out.push(44u8);
        }
        push_type_token(&mut out, d.inputs[j]);
        proof {
            assert(d.inputs@.take(j + 1).drop_last() =~= d.inputs@.take(j as int));
            assert(d.inputs@.take(j + 1).last() == d.inputs@[j as int]);
            if j == 0 {
                assert(d.inputs@.take(1)[0] == d.inputs@[0]);
                assert(joined_tokens(d.inputs@.take(1)) == type_token(d.inputs@[0]));
                assert(out@ =~= d.name@ + seq![40u8] + joined_tokens(d.inputs@.take(j + 1)));
            } else {
                assert(joined_tokens(d.inputs@.take(j + 1)) == joined_tokens(
                    d.inputs@.take(j as int),
                ) + seq![44u8] + type_token(d.inputs@[j as int]));
                assert(out@ =~= d.name@ + seq![40u8] + joined_tokens(d.inputs@.take(j + 1)));
            }
        }
        j = j + 1;
    }
    out.push(41u8);
    proof {
        assert(d.inputs@.take(n as int) =~= d.inputs@);
        assert(out@ =~= signature_bytes(d.name@, d.inputs@));
    }
    out
}

/// Appends the token of one wire type.
fn push_type_token(out: &mut Vec<u8>, t: ParamType)
    ensures
        final(out)@ == old(out)@ + type_token(t),
{
    match t {
        ParamType::Uint256 => {
            out.push(117u8);
            out.push(105u8);
            out.push(110u8);
            out.push(116u8);
            out.push(50u8);
            out.push(53u8);
            out.push(54u8);
        },
        ParamType::Address => {
            out.push(97u8);
            out.push(100u8);
            out.push(100u8);
            out.push(114u8);
            out.push(101u8);
            out.push(115u8);
            out.push(115u8);
        },
        ParamType::Bool => {
            out.push(98u8);
            out.push(111u8);
            out.push(111u8);
            out.push(108u8);
        },
        ParamType::Text => {
            out.push(115u8);
            out.push(116u8);
            out.push(114u8);
            out.push(105u8);
            out.push(110u8);
            out.push(103u8);
        },
    }
    proof {
        assert(out@ =~= old(out)@ + type_token(t));
    }
}

/// A typed proxy for one deployed contract instance.
#[derive(Debug)]
pub struct Binding {
    pub address: Address,
    pub interface: InterfaceDesc,
}

impl Binding {
    /// Well-formed: a 20-byte address and an interface the engine can drive.
    pub open spec fn wf(&self) -> bool {
        &&& self.address@.len() == 20
        &&& forall|i: int|
            0 <= i < self.interface.functions@.len() ==> desc_wf(
                #[trigger] self.interface.functions@[i],
            )
    }

    /// The binding describes the marketplace contract.
    pub open spec fn is_marketplace(&self) -> bool {
        &&& self.interface.functions@.len() == 2
        &&& self.interface.functions@[0].name@ == create_product_name()
        &&& self.interface.functions@[0].inputs@ == seq![ParamType::Text, ParamType::Uint256]
        &&& !self.interface.functions@[0].constant
        &&& self.interface.functions@[1].name@ == get_product_name()
        &&& self.interface.functions@[1].inputs@ == seq![ParamType::Uint256]
        &&& self.interface.functions@[1].outputs@ == product_schema()
        &&& self.interface.functions@[1].constant
    }

    /// Binds a deployed instance: validates the configured address text and
    /// the description's shape before anything is sent anywhere.
    pub fn new(address_text: &str, interface: InterfaceDesc) -> (r: Result<Binding, MarketError>)
        ensures
            (r is Ok) == (valid_hex_fixed(address_text.spec_bytes(), 20) && (forall|i: int|
                0 <= i < interface.functions@.len() ==> desc_wf(
                    #[trigger] interface.functions@[i],
                ))),
            r matches Ok(b) ==> b.wf() && b.address@ == hex_bytes(strip_0x(
                address_text.spec_bytes(),
            )) && b.interface == interface,
            r matches Err(e) ==> e == MarketError::Configuration,
    {
        let address = match Address::from_hex(address_text) {
            Ok(a) => a,
            Err(e) => {
                return Err(e);
            },
        };
        let n = interface.functions.len();
        let mut i: usize = 0;
        while i < n
            invariant
                i <= n,
                n == interface.functions@.len(),
                forall|m: int| 0 <= m < i ==> desc_wf(#[trigger] interface.functions@[m]),
            decreases n - i,
        {
            let d = &interface.functions[i];
            if d.inputs.len() > 16 || d.outputs.len() > 16 {
                return Err(MarketError::Configuration);
            }
            i = i + 1;
        }
        Ok(Binding { address, interface })
    }

    /// Encodes a call to the `index`-th declared function: the signature
    /// digest's first four bytes, then the encoded argument block.
    pub fn encode_call(&self, index: usize, args: &Vec<AbiValue>) -> (r: Result<
        Vec<u8>,
        MarketError,
    >)
        requires
            self.wf(),
            index < self.interface.functions@.len(),
        ensures
            (r is Ok) == encodable_args(
                self.interface.functions@[index as int].inputs@,
                views_of(args@),
            ),
            r matches Ok(data) ==> data@ == calldata_for(
                self.interface.functions@[index as int].name@,
                self.interface.functions@[index as int].inputs@,
                views_of(args@),
            ),
            r matches Err(e) ==> e == MarketError::Encoding,
    {
        let d = &self.interface.functions[index];
        if args.len() != d.inputs.len() {
            return Err(MarketError::Encoding);
        }
        let n = args.len();
        let mut i: usize = 0;
        while i < n
            invariant
                i <= n,
                n == args@.len() == d.inputs@.len(),
                *d == self.interface.functions@[index as int],
                forall|m: int|
                    0 <= m < i ==> has_type(#[trigger] views_of(args@)[m], d.inputs@[m])
                        && encodable_value(views_of(args@)[m]),
            decreases n - i,
        {
            if !value_matches(&args[i], d.inputs[i]) {
                proof {
                    assert(views_of(args@)[i as int] == args@[i as int]@);
                }
                return Err(MarketError::Encoding);
            }
            proof {
                assert(views_of(args@)[i as int] == args@[i as int]@);
            }
            i = i + 1;
        }
        let signature = signature_of(d);
        let digest = keccak256_digest(&signature);
        let mut data = copy_range(&digest, 0, 4);
        proof {
            assert(data@ =~= keccak_of(signature_bytes(d.name@, d.inputs@)).take(4));
            assert forall|m: int| 0 <= m < args@.len() implies encodable_value(
                #[trigger] args@[m]@,
            ) by {
                assert(views_of(args@)[m] == args@[m]@);
                assert(encodable_value(views_of(args@)[m]));
            }
        }
        let block = encode_arguments(args);
        push_bytes(&mut data, &block);
        Ok(data)
    }

    /// Builds the payload that lists a product: the marketplace's listing
    /// function applied to the name text and the price in base units.
    pub fn create_product(&self, name: Vec<u8>, price: &Uint256) -> (r: Result<
        Vec<u8>,
        MarketError,
    >)
        requires
            self.wf(),
            self.is_marketplace(),
            price.wf(),
        ensures
            (r is Ok) == (name@.len() <= crate::abi::MAX_TEXT_LEN),
            r matches Ok(data) ==> data@ == calldata_for(
                create_product_name(),
                seq![ParamType::Text, ParamType::Uint256],
                seq![AbiValueV::Text(name@), AbiValueV::Uint(price@)],
            ),
            r matches Err(e) ==> e == MarketError::Encoding,
    {
        let ghost name_view = name@;
        let args: Vec<AbiValue> = vec![AbiValue::Text(name), AbiValue::Uint(price.clone())];
        proof {
            assert(views_of(args@) =~= seq![AbiValueV::Text(name_view), AbiValueV::Uint(price@)]);
            assert(views_of(args@)[0] == AbiValueV::Text(name_view));
            assert(views_of(args@)[1] == AbiValueV::Uint(price@));
        }
        self.encode_call(0, &args)
    }

    /// Builds the payload that reads a product record by its identifier.
    pub fn get_product_call(&self, id: u64) -> (r: Vec<u8>)
        requires
            self.wf(),
            self.is_marketplace(),
        ensures
            r@ == calldata_for(
                get_product_name(),
                seq![ParamType::Uint256],
                seq![AbiValueV::Uint(be_word(id as nat))],
            ),
    {
        let args: Vec<AbiValue> = vec![AbiValue::Uint(Uint256::from_u64(id))];
        proof {
            assert(views_of(args@) =~= seq![AbiValueV::Uint(be_word(id as nat))]);
            assert(views_of(args@)[0] == AbiValueV::Uint(be_word(id as nat)));
        }
        match self.encode_call(1, &args) {
            Ok(data) => data,
            Err(_) => {
                proof {
                    assert(false);
                }
                Vec::new()
            },
        }
    }

    /// Decodes returned bytes into a product record, all-or-nothing: a block
    /// that does not match the nine-field schema, or a record that claims to
    /// be sold to nobody, is a decoding failure.
    pub fn decode_product(&self, data: &Vec<u8>) -> (r: Result<ProductRecord, MarketError>)
        requires
            self.wf(),
            self.is_marketplace(),
        ensures
            (r is Ok) == (decode_args(product_schema(), data@) matches Some(vs)
                && sold_implies_buyer(vs)),
            r matches Ok(p) ==> decode_args(product_schema(), data@) == Some(record_values(p))
                && p.wf(),
            r matches Err(e) ==> e == MarketError::Decoding,
    {
        let schema = product_schema_exec();
        let mut vals = match decode_arguments(&schema, data) {
            Some(vs) => vs,
            None => {
                return Err(MarketError::Decoding);
            },
        };
        let ghost vs = views_of(vals@);
        proof {
            crate::abi::lemma_decode_args_typed(schema@, data@);
            assert forall|m: int| 0 <= m < 9 implies has_type(vs[m], product_schema()[m])
                && wf_value(vs[m]) by {
                assert(vs[m] == vals@[m]@);
            }
        }
        let v8 = pop_value(&mut vals);
        let v7 = pop_value(&mut vals);
        let v6 = pop_value(&mut vals);
        let v5 = pop_value(&mut vals);
        let v4 = pop_value(&mut vals);
        let v3 = pop_value(&mut vals);
        let v2 = pop_value(&mut vals);
        let v1 = pop_value(&mut vals);
        let v0 = pop_value(&mut vals);
        proof {
            assert(v0@ == vs[0] && v1@ == vs[1] && v2@ == vs[2] && v3@ == vs[3] && v4@ == vs[4]
                && v5@ == vs[5] && v6@ == vs[6] && v7@ == vs[7] && v8@ == vs[8]);
        }
        let id = match v0 {
            AbiValue::Uint(u) => u,
            _ => {
                return Err(MarketError::Decoding);
            },
        };
        let name = match v1 {
            AbiValue::Text(t) => t,
            _ => {
                return Err(MarketError::Decoding);
            },
        };
        let description = match v2 {
            AbiValue::Text(t) => t,
            _ => {
                return Err(MarketError::Decoding);
            },
        };
        let category = match v3 {
            AbiValue::Text(t) => t,
            _ => {
                return Err(MarketError::Decoding);
            },
        };
        let price = match v4 {
            AbiValue::Uint(u) => u,
            _ => {
                return Err(MarketError::Decoding);
            },
        };
        let seller = match v5 {
            AbiValue::Addr(a) => a,
            _ => {
                return Err(MarketError::Decoding);
            },
        };
        let buyer = match v6 {
            AbiValue::Addr(a) => a,
            _ => {
                return Err(MarketError::Decoding);
            },
        };
        let timestamp = match v7 {
            AbiValue::Uint(u) => u,
            _ => {
                return Err(MarketError::Decoding);
            },
        };
        let sold = match v8 {
            AbiValue::Flag(b) => b,
            _ => {
                return Err(MarketError::Decoding);
            },
        };
        if sold && buyer.is_zero() {
            proof {
                assert(vs[8] == AbiValueV::Flag(true));
                assert(vs[6] == AbiValueV::Addr(zero_bytes(20)));
            }
            return Err(MarketError::Decoding);
        }
        let p = ProductRecord { id, name, description, category, price, seller, buyer, timestamp, sold };
        proof {
            assert(record_values(p) =~= vs);
        }
        Ok(p)
    }
}

/// Removes and returns the last decoded value; the block is known non-empty.
fn pop_value(vals: &mut Vec<AbiValue>) -> (r: AbiValue)
    requires
        old(vals)@.len() > 0,
    ensures
        r == old(vals)@.last(),
        final(vals)@ == old(vals)@.drop_last(),
{
    vals.pop().unwrap()
}

} // verus!
