//! Unsigned 256-bit integers, stored exactly as their 32-byte wire word.

use crate::words::{be_word, push_be_word};
use vstd::prelude::*;

verus! {

/// An unsigned 256-bit integer, held big-endian in 32 bytes.
#[derive(Debug)]
pub struct Uint256 {
    pub(crate) bytes: Vec<u8>,
}

impl View for Uint256 {
    type V = Seq<u8>;

    closed spec fn view(&self) -> Seq<u8> {
        self.bytes@
    }
}

impl Uint256 {
    /// Well-formed: exactly 32 bytes.
    pub open spec fn wf(&self) -> bool {
        self@.len() == 32
    }

    pub fn from_u128(x: u128) -> (r: Uint256)
        ensures
            r.wf(),
            r@ == be_word(x as nat),
    {
        let mut bytes: Vec<u8> = Vec::new();
        push_be_word(&mut bytes, x);
        proof {
            assert(bytes@ =~= be_word(x as nat));
        }
        Uint256 { bytes }
    }

    pub fn from_u64(x: u64) -> (r: Uint256)
        ensures
            r.wf(),
            r@ == be_word(x as nat),
    {
        Uint256::from_u128(x as u128)
    }

    /// Wraps raw word bytes produced by the decoder.
    pub(crate) fn from_word(bytes: Vec<u8>) -> (r: Uint256)
        ensures
            r@ == bytes@,
    {
        Uint256 { bytes }
    }

    /// A borrowed view of the raw big-endian bytes.
    pub fn as_bytes(&self) -> (r: &Vec<u8>)
        ensures
            r@ == self@,
    {
        &self.bytes
    }
}

impl Clone for Uint256 {
    fn clone(&self) -> (r: Self)
        ensures
            r@ == self@,
    {
        let bytes = crate::words::copy_range(&self.bytes, 0, self.bytes.len());
        proof {
            assert(bytes@ =~= self.bytes@);
        }
        Uint256 { bytes }
    }
}

impl PartialEq for Uint256 {
    fn eq(&self, other: &Self) -> (r: bool) {
        crate::address::bytes_equal(&self.bytes, &other.bytes)
    }
}

impl vstd::std_specs::cmp::PartialEqSpecImpl for Uint256 {
    open spec fn obeys_eq_spec() -> bool {
        true
    }

    open spec fn eq_spec(&self, other: &Self) -> bool {
        self@ == other@
    }
}

} // verus!
