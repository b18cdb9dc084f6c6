//! The generic argument/return marshalling engine.
//!
//! The contract's interface is described by a sequence of wire types; this
//! module encodes a sequence of typed values against such a description and
//! decodes returned bytes back into typed values.  The wire format is the
//! standard contract calling convention: a head word per value (the value
//! itself for fixed-width types, an offset for text), then the tails of the
//! dynamic values, each a length word followed by the data padded to a
//! multiple of 32 bytes.

use crate::address::Address;
use crate::uint256::Uint256;
use crate::words::{
    be_word, copy_range, lemma_be_word_small, lemma_pow256_mono, lemma_word_val_be_bytes, pow256,
    push_be_word, push_bytes, push_zeros, read_word_u64, small_word, word_val, zero_bytes,
};
use vstd::arithmetic::div_mod::lemma_small_mod;
use vstd::prelude::*;

verus! {

/// The wire types this interface speaks.
#[derive(Clone, Copy, Debug, PartialEq, Eq, Structural)]
pub enum ParamType {
    /// An unsigned 256-bit integer.
    Uint256,
    /// A 20-byte address.
    Address,
    /// A truth value.
    Bool,
    /// Dynamic-length text, carried as UTF-8 bytes.
    Text,
}

/// A typed value travelling through the engine.
#[derive(Debug)]
pub enum AbiValue {
    Uint(Uint256),
    Addr(Address),
    Flag(bool),
    Text(Vec<u8>),
}

/// The mathematical model of an `AbiValue`.
pub enum AbiValueV {
    Uint(Seq<u8>),
    Addr(Seq<u8>),
    Flag(bool),
    Text(Seq<u8>),
}

impl View for AbiValue {
    type V = AbiValueV;

    open spec fn view(&self) -> AbiValueV {
        match self {
            AbiValue::Uint(u) => AbiValueV::Uint(u@),
            AbiValue::Addr(a) => AbiValueV::Addr(a@),
            AbiValue::Flag(b) => AbiValueV::Flag(*b),
            AbiValue::Text(t) => AbiValueV::Text(t@),
        }
    }
}

pub open spec fn views_of(vs: Seq<AbiValue>) -> Seq<AbiValueV> {
    vs.map_values(|v: AbiValue| v@)
}

/// The longest text value the engine will encode.  Offsets then stay far
/// below the machine's address-space limits.
pub const MAX_TEXT_LEN: usize = 0x1000000;

/// Sized fields hold exactly their width.
pub open spec fn wf_value(v: AbiValueV) -> bool {
    match v {
        AbiValueV::Uint(b) => b.len() == 32,
        AbiValueV::Addr(a) => a.len() == 20,
        AbiValueV::Flag(_) => true,
        AbiValueV::Text(_) => true,
    }
}

/// A value the engine can represent on the wire.
pub open spec fn encodable_value(v: AbiValueV) -> bool {
    wf_value(v) && (v matches AbiValueV::Text(t) ==> t.len() <= MAX_TEXT_LEN)
}

pub open spec fn has_type(v: AbiValueV, t: ParamType) -> bool {
    match t {
        ParamType::Uint256 => v is Uint,
        ParamType::Address => v is Addr,
        ParamType::Bool => v is Flag,
        ParamType::Text => v is Text,
    }
}

pub open spec fn is_dynamic(t: ParamType) -> bool {
    t is Text
}

/// Text data padded with zeros up to a multiple of 32 bytes.
pub open spec fn padded_text(t: Seq<u8>) -> Seq<u8> {
    t + zero_bytes(((32 - (t.len() % 32)) % 32) as nat)
}

/// The tail a value contributes: its length word and padded data for text,
/// nothing for fixed-width values.
pub open spec fn tail_of(v: AbiValueV) -> Seq<u8> {
    match v {
        AbiValueV::Text(t) => be_word(t.len()) + padded_text(t),
        _ => Seq::<u8>::empty(),
    }
}

/// The concatenated tails of a value sequence, in order.
pub open spec fn tails_of(vs: Seq<AbiValueV>) -> Seq<u8>
    decreases vs.len(),
{
    if vs.len() == 0 {
        Seq::<u8>::empty()
    } else {
        tails_of(vs.drop_last()) + tail_of(vs.last())
    }
}

/// The byte offset, from the start of the argument block, at which the
/// `i`-th value's tail begins.
pub open spec fn offset_of(vs: Seq<AbiValueV>, i: int) -> nat {
    32 * vs.len() + tails_of(vs.take(i)).len()
}

/// The head word of one value: the value itself, or the offset of its tail.
pub open spec fn head_word_of(v: AbiValueV, off: nat) -> Seq<u8> {
    match v {
        AbiValueV::Uint(b) => b,
        AbiValueV::Addr(a) => zero_bytes(12) + a,
        AbiValueV::Flag(b) => be_word(if b {
            1
        } else {
            0
        }),
        AbiValueV::Text(_) => be_word(off),
    }
}

/// The head words of the values from position `i` on.
pub open spec fn heads_from(vs: Seq<AbiValueV>, i: int) -> Seq<u8>
    decreases vs.len() - i,
{
    if i < 0 || i >= vs.len() {
        Seq::<u8>::empty()
    } else {
        head_word_of(vs[i], offset_of(vs, i)) + heads_from(vs, i + 1)
    }
}

/// The encoding of an argument block: all head words, then all tails.
pub open spec fn encode_args(vs: Seq<AbiValueV>) -> Seq<u8> {
    heads_from(vs, 0) + tails_of(vs)
}

/// Encodes a block of well-formed values.
pub fn encode_arguments(vals: &Vec<AbiValue>) -> (r: Vec<u8>)
    requires
        vals@.len() <= 16,
        forall|i: int| 0 <= i < vals@.len() ==> encodable_value(#[trigger] vals@[i]@),
    ensures
        r@ == encode_args(views_of(vals@)),
{
    let ghost views = views_of(vals@);
    let n = vals.len();
    let mut heads: Vec<u8> = Vec::new();
    let mut tails: Vec<u8> = Vec::new();
    let mut i: usize = 0;
    proof {
        assert(views.take(0) =~= Seq::<AbiValueV>::empty());
    }
    while i < n
        invariant
            i <= n,
            n == vals@.len() <= 16,
            views == views_of(vals@),
            forall|m: int| 0 <= m < vals@.len() ==> encodable_value(#[trigger] vals@[m]@),
            tails@ == tails_of(views.take(i as int)),
            tails@.len() <= i * (MAX_TEXT_LEN + 64),
            heads_from(views, 0) == heads@ + heads_from(views, i as int),
            heads@.len() == 32 * i,
        decreases n - i,
    {
        let ghost hs0 = heads@;
        proof {
            assert(views[i as int] == vals@[i as int]@);
            assert(encodable_value(views[i as int]));
            assert((i + 1) * (MAX_TEXT_LEN + 64) == i * (MAX_TEXT_LEN + 64) + (MAX_TEXT_LEN
                + 64)) by (nonlinear_arith);
            assert(i * (MAX_TEXT_LEN + 64) >= 0) by (nonlinear_arith)
                requires
                    i >= 0,
            ;
            assert(i * (MAX_TEXT_LEN + 64) <= 16 * (MAX_TEXT_LEN as int + 64)) by (nonlinear_arith)
                requires
                    0 <= i <= 16,
            ;
        }
        match &vals[i] {
            AbiValue::Uint(u) => {
                push_bytes(&mut heads, u.as_bytes());
            },
            AbiValue::Addr(a) => {
                push_zeros(&mut heads, 12);
                push_bytes(&mut heads, a.as_bytes());
                proof {
                    assert(heads@ =~= hs0 + (zero_bytes(12) + a@));
                }
            },
            AbiValue::Flag(b) => {
                let word: u128 = if *b {
                    1
                } else {
                    0
                };
                push_be_word(&mut heads, word);
            },
            AbiValue::Text(t) => {
                let off: usize = 32 * n + tails.len();
                push_be_word(&mut heads, off as u128);
                proof {
                    assert(off as nat == offset_of(views, i as int));
                }
                let ghost ts0 = tails@;
                push_be_word(&mut tails, t.len() as u128);
                push_bytes(&mut tails, t);
                let rem: usize = t.len() % 32;
                let pad: usize = if rem == 0 {
                    0
                } else {
                    32 - rem
                };
                push_zeros(&mut tails, pad);
                proof {
                    assert(pad as nat == ((32 - (t@.len() % 32)) % 32) as nat);
                    assert(tails@ =~= ts0 + (be_word(t@.len()) + padded_text(t@)));
                    assert(tails@ =~= ts0 + tail_of(views[i as int]));
                }
            },
        }
        proof {
            assert(views.take(i + 1).drop_last() =~= views.take(i as int));
            assert(views.take(i + 1).last() == views[i as int]);
            assert(tails_of(views.take(i + 1)) == tails_of(views.take(i as int)) + tail_of(
                views[i as int],
            ));
            if !(views[i as int] is Text) {
                assert(tail_of(views[i as int]) =~= Seq::<u8>::empty());
                assert(tails@ =~= tails_of(views.take(i + 1)));
            }
            assert(heads@ =~= hs0 + head_word_of(views[i as int], offset_of(views, i as int)));
            assert(heads_from(views, i as int) == head_word_of(
                views[i as int],
                offset_of(views, i as int),
            ) + heads_from(views, i + 1));
            assert(heads_from(views, 0) =~= heads@ + heads_from(views, i + 1));
        }
        i = i + 1;
    }
    proof {
        assert(views.take(n as int) =~= views);
        assert(heads_from(views, n as int) =~= Seq::<u8>::empty());
        assert(heads@ =~= heads_from(views, 0));
    }
    let mut out = heads;
    push_bytes(&mut out, &tails);
    out
}

/// Decodes one fixed-width value from its head word.
pub open spec fn decode_static(t: ParamType, w: Seq<u8>) -> Option<AbiValueV> {
    match t {
        ParamType::Uint256 => Some(AbiValueV::Uint(w)),
        ParamType::Address => if w.take(12) == zero_bytes(12) {
            Some(AbiValueV::Addr(w.skip(12)))
        } else {
            None
        },
        ParamType::Bool => if w == be_word(0) {
            Some(AbiValueV::Flag(false))
        } else if w == be_word(1) {
            Some(AbiValueV::Flag(true))
        } else {
            None
        },
        ParamType::Text => None,
    }
}

/// Decodes the value whose head word starts at byte `i`: the word itself for
/// fixed-width types; for text, the word is an offset to a length word and
/// the data.  Any malformed or out-of-range layout decodes to nothing.
pub open spec fn decode_one(t: ParamType, b: Seq<u8>, i: int) -> Option<AbiValueV> {
    if i < 0 || i + 32 > b.len() {
        None
    } else {
        let w = b.subrange(i, i + 32);
        if is_dynamic(t) {
            if !small_word(w) {
                None
            } else {
                let off = word_val(w) as int;
                if off + 32 > b.len() {
                    None
                } else {
                    let lw = b.subrange(off, off + 32);
                    if !small_word(lw) {
                        None
                    } else {
                        let l = word_val(lw) as int;
                        if off + 32 + l > b.len() {
                            None
                        } else {
                            Some(AbiValueV::Text(b.subrange(off + 32, off + 32 + l)))
                        }
                    }
                }
            }
        } else {
            decode_static(t, w)
        }
    }
}

/// Decodes the values from position `k` on; all-or-nothing.
pub open spec fn decode_from(ts: Seq<ParamType>, b: Seq<u8>, k: nat) -> Option<Seq<AbiValueV>>
    decreases ts.len() - k,
{
    if k >= ts.len() {
        Some(Seq::<AbiValueV>::empty())
    } else {
        match decode_one(ts[k as int], b, 32 * k as int) {
            None => None,
            Some(v) => match decode_from(ts, b, k + 1) {
                None => None,
                Some(rest) => Some(seq![v] + rest),
            },
        }
    }
}

/// Decodes a whole return block against its declared schema.
pub open spec fn decode_args(ts: Seq<ParamType>, b: Seq<u8>) -> Option<Seq<AbiValueV>> {
    decode_from(ts, b, 0)
}

/// A decoded value is well formed and of the declared type.
pub proof fn lemma_decode_one_typed(t: ParamType, b: Seq<u8>, i: int)
    ensures
        decode_one(t, b, i) matches Some(v) ==> has_type(v, t) && wf_value(v),
{
    if decode_one(t, b, i) is Some {
        let w = b.subrange(i, i + 32);
        match t {
            ParamType::Uint256 => {},
            ParamType::Address => {},
            ParamType::Bool => {},
            ParamType::Text => {},
        }
    }
}

proof fn lemma_decode_from_typed(ts: Seq<ParamType>, b: Seq<u8>, k: nat)
    requires
        k <= ts.len(),
    ensures
        decode_from(ts, b, k) matches Some(vs) ==> vs.len() == ts.len() - k && forall|i: int|
            0 <= i < vs.len() ==> has_type(#[trigger] vs[i], ts[k + i]) && wf_value(vs[i]),
    decreases ts.len() - k,
{
    if k < ts.len() {
        lemma_decode_one_typed(ts[k as int], b, 32 * k as int);
        lemma_decode_from_typed(ts, b, k + 1);
        match decode_one(ts[k as int], b, 32 * k as int) {
            None => {},
            Some(v) => {
                match decode_from(ts, b, k + 1) {
                    None => {},
                    Some(rest) => {
                        let vs = seq![v] + rest;
                        assert(decode_from(ts, b, k) == Some(vs));
                        assert forall|i: int| 0 <= i < vs.len() implies has_type(
                            #[trigger] vs[i],
                            ts[k + i],
                        ) && wf_value(vs[i]) by {
                            if i == 0 {
                                assert(vs[0] == v);
                            } else {
                                assert(vs[i] == rest[i - 1]);
                            }
                        }
                    },
                }
            },
        }
    }
}

/// Every value a successful decode yields is well formed and of the type
/// the schema declares for its position.
pub proof fn lemma_decode_args_typed(ts: Seq<ParamType>, b: Seq<u8>)
    ensures
        decode_args(ts, b) matches Some(vs) ==> vs.len() == ts.len() && forall|i: int|
            0 <= i < vs.len() ==> has_type(#[trigger] vs[i], ts[i]) && wf_value(vs[i]),
{
    lemma_decode_from_typed(ts, b, 0);
}

proof fn lemma_decode_from_prefix(ts: Seq<ParamType>, b: Seq<u8>, k: nat, vs: Seq<AbiValueV>)
    requires
        k <= ts.len(),
        vs.len() == ts.len() - k,
        forall|j: int| k <= j < ts.len() ==> decode_one(ts[j], b, 32 * j) == Some(vs[j - k]),
    ensures
        decode_from(ts, b, k) == Some(vs),
    decreases ts.len() - k,
{
    if k == ts.len() {
        assert(vs =~= Seq::<AbiValueV>::empty());
    } else {
        lemma_decode_from_prefix(ts, b, k + 1, vs.skip(1));
        assert(decode_one(ts[k as int], b, 32 * k as int) == Some(vs[0]));
        assert(seq![vs[0]] + vs.skip(1) =~= vs);
    }
}

pub(crate) proof fn lemma_decode_from_none(ts: Seq<ParamType>, b: Seq<u8>, j: nat, k: nat)
    requires
        j <= k < ts.len(),
        decode_one(ts[k as int], b, 32 * k as int) is None,
    ensures
        decode_from(ts, b, j) is None,
    decreases k - j,
{
    if j < k {
        lemma_decode_from_none(ts, b, j + 1, k);
    }
}

/// Decodes one value at head position `i`, as `decode_one` describes.
fn decode_one_value(t: ParamType, b: &Vec<u8>, i: usize) -> (r: Option<AbiValue>)
    requires
        i <= 100000,
    ensures
        (r is Some) == (decode_one(t, b@, i as int) is Some),
        r matches Some(v) ==> decode_one(t, b@, i as int) == Some(v@),
{
    let blen: usize = b.len();
    proof {
        assert(b@.len() <= usize::MAX);
    }
    if i + 32 > blen {
        return None;
    }
    let ghost w = b@.subrange(i as int, i as int + 32);
    match t {
        ParamType::Uint256 => {
            let bytes = copy_range(b, i, 32);
            Some(AbiValue::Uint(Uint256::from_word(bytes)))
        },
        ParamType::Address => {
            let mut j: usize = 0;
            while j < 12
                invariant
                    j <= 12,
                    t is Address,
                    i + 32 <= b@.len() <= usize::MAX,
                    w == b@.subrange(i as int, i as int + 32),
                    forall|m: int| 0 <= m < j ==> w[m] == 0,
                decreases 12 - j,
            {
                if b[i + j] != 0 {
                    proof {
                        assert(w[j as int] == b@[i + j]);
                        assert(w.take(12)[j as int] != zero_bytes(12)[j as int]);
                        assert(w.take(12) != zero_bytes(12));
                    }
                    return None;
                }
                proof {
                    assert(w[j as int] == b@[i + j]);
                }
                j = j + 1;
            }
            proof {
                assert(w.take(12) =~= zero_bytes(12));
            }
            let bytes = copy_range(b, i + 12, 20);
            proof {
                assert(bytes@ =~= w.skip(12));
            }
            Some(AbiValue::Addr(Address::from_raw(bytes)))
        },
        ParamType::Bool => {
            proof {
                crate::words::lemma_be_word_01();
            }
            let mut j: usize = 0;
            while j < 31
                invariant
                    j <= 31,
                    t is Bool,
                    i + 32 <= b@.len() <= usize::MAX,
                    w == b@.subrange(i as int, i as int + 32),
                    forall|m: int| 0 <= m < j ==> w[m] == 0,
                    forall|m: int| 0 <= m < 31 ==> be_word(0)[m] == 0 && be_word(1)[m] == 0,
                    be_word(1)[31] == 1 && be_word(0)[31] == 0,
                decreases 31 - j,
            {
                if b[i + j] != 0 {
                    proof {
                        assert(w[j as int] == b@[i + j]);
                        assert(w != be_word(0) && w != be_word(1));
                    }
                    return None;
                }
                proof {
                    assert(w[j as int] == b@[i + j]);
                }
                j = j + 1;
            }
            let last = b[i + 31];
            proof {
                assert(w[31] == b@[i + 31]);
            }
            if last == 0 {
                proof {
                    assert(w =~= be_word(0));
                }
                Some(AbiValue::Flag(false))
            } else if last == 1 {
                proof {
                    assert(w =~= be_word(1));
                    assert(w != be_word(0));
                }
                Some(AbiValue::Flag(true))
            } else {
                proof {
                    assert(w != be_word(0) && w != be_word(1));
                }
                None
            }
        },
        ParamType::Text => {
            let off64 = match read_word_u64(b, i) {
                None => {
                    return None;
                },
                Some(v) => v,
            };
            proof {
                assert(off64 as nat == word_val(w));
            }
            if off64 > u64::MAX - 32 || off64 + 32 > blen as u64 {
                return None;
            }
            let off = off64 as usize;
            let lw64 = match read_word_u64(b, off) {
                None => {
                    return None;
                },
                Some(v) => v,
            };
            if lw64 > u64::MAX - 32 || off64 + 32 > u64::MAX - lw64 || off64 + 32 + lw64
                > blen as u64 {
                proof {
                    let l = word_val(b@.subrange(off as int, off as int + 32)) as int;
                    assert(l == lw64 as int);
                    assert(off as int + 32 + l > b@.len());
                }
                return None;
            }
            let l = lw64 as usize;
            let bytes = copy_range(b, off + 32, l);
            Some(AbiValue::Text(bytes))
        },
    }
}

/// Law: for every valid name text and price word, encoding the listing
/// function's two arguments and decoding the block against the declared
/// parameter schema returns exactly the original values.
pub proof fn lemma_create_args_round_trip(name: Seq<u8>, price: Seq<u8>)
    requires
        price.len() == 32,
        name.len() < pow256(8),
    ensures
        decode_args(
            seq![ParamType::Text, ParamType::Uint256],
            encode_args(seq![AbiValueV::Text(name), AbiValueV::Uint(price)]),
        ) == Some(seq![AbiValueV::Text(name), AbiValueV::Uint(price)]),
{
    let ts = seq![ParamType::Text, ParamType::Uint256];
    let vs = seq![AbiValueV::Text(name), AbiValueV::Uint(price)];
    let b = encode_args(vs);
    let pad = zero_bytes(((32 - (name.len() % 32)) % 32) as nat);
    let tail = be_word(name.len()) + (name + pad);

    // The encoded block, written out.
    assert(vs.take(0) =~= Seq::<AbiValueV>::empty());
    assert(tails_of(vs.take(0)) =~= Seq::<u8>::empty());
    assert(vs.take(1).drop_last() =~= Seq::<AbiValueV>::empty());
    assert(vs.take(1).last() == vs[0]);
    assert(tails_of(vs.take(1)) =~= tail);
    assert(vs.drop_last() =~= vs.take(1));
    assert(vs.last() == vs[1]);
    assert(tails_of(vs) =~= tail);
    assert(offset_of(vs, 0) == 64);
    assert(heads_from(vs, 2) =~= Seq::<u8>::empty());
    assert(heads_from(vs, 1) =~= price);
    assert(heads_from(vs, 0) =~= be_word(64) + price);
    assert(b =~= be_word(64) + price + be_word(name.len()) + (name + pad));
    assert(b.len() == 96 + name.len() + pad.len());

    // The offset and length words read back as themselves.
    lemma_pow256_mono(8, 32);
    lemma_be_word_small(64);
    lemma_word_val_be_bytes(64, 32);
    lemma_small_mod(64, pow256(32));
    assert(word_val(be_word(64)) == 64);
    lemma_be_word_small(name.len());
    lemma_word_val_be_bytes(name.len(), 32);
    lemma_small_mod(name.len(), pow256(32));
    assert(word_val(be_word(name.len())) == name.len());

    // The first head word is the offset 64.
    assert(b.subrange(0, 32) =~= be_word(64));
    assert(b.subrange(64, 96) =~= be_word(name.len()));
    assert(b.subrange(96, 96 + name.len() as int) =~= name);
    assert(decode_one(ts[0], b, 0) == Some(AbiValueV::Text(name)));

    // The second head word is the price itself.
    assert(b.subrange(32, 64) =~= price);
    assert(decode_one(ts[1], b, 32) == Some(AbiValueV::Uint(price)));

    assert(decode_from(ts, b, 2) == Some(Seq::<AbiValueV>::empty()));
    assert(decode_from(ts, b, 1) == Some(seq![AbiValueV::Uint(price)] + Seq::<
        AbiValueV,
    >::empty()));
    assert(seq![AbiValueV::Uint(price)] + Seq::<AbiValueV>::empty() =~= seq![
        AbiValueV::Uint(price),
    ]);
    assert(decode_from(ts, b, 0) == Some(seq![AbiValueV::Text(name)] + seq![
        AbiValueV::Uint(price),
    ]));
    assert(seq![AbiValueV::Text(name)] + seq![AbiValueV::Uint(price)] =~= vs);
}

/// Decodes a whole block against a schema; all-or-nothing, as `decode_args`
/// describes.
pub fn decode_arguments(ts: &Vec<ParamType>, b: &Vec<u8>) -> (r: Option<Vec<AbiValue>>)
    requires
        ts@.len() <= 64,
    ensures
        (r is Some) == (decode_args(ts@, b@) is Some),
        r matches Some(vs) ==> decode_args(ts@, b@) == Some(views_of(vs@)) && vs@.len()
            == ts@.len(),
{
    let n = ts.len();
    let mut out: Vec<AbiValue> = Vec::new();
    let mut k: usize = 0;
    while k < n
        invariant
            k <= n,
            n == ts@.len() <= 64,
            out@.len() == k,
            forall|m: int|
                0 <= m < k ==> decode_one(ts@[m], b@, 32 * m) == Some(#[trigger] out@[m]@),
        decreases n - k,
    {
        match decode_one_value(ts[k], b, 32 * k) {
            None => {
                proof {
                    lemma_decode_from_none(ts@, b@, 0, k as nat);
                }
                return None;
            },
            Some(v) => {
                out.push(v);
            },
        }
        k = k + 1;
    }
    proof {
        let vs = views_of(out@);
        assert(vs.len() == ts@.len());
        assert forall|j: int| 0 <= j < ts@.len() implies decode_one(ts@[j], b@, 32 * j) == Some(
            vs[j],
        ) by {
            assert(vs[j] == out@[j]@);
        }
        lemma_decode_from_prefix(ts@, b@, 0, vs);
    }
    Some(out)
}

} // verus!
