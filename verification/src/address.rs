//! 20-byte account and contract addresses.

use crate::errors::MarketError;
use crate::hex::{hex_bytes, parse_hex_fixed, strip_0x, valid_hex_fixed};
use crate::words::zero_bytes;
use vstd::prelude::*;
use vstd::string::{StrSliceExecFns, StringSliceAdditionalSpecFns};

verus! {

/// A 20-byte address, as the chain stores it.
#[derive(Debug)]
pub struct Address {
    pub(crate) bytes: Vec<u8>,
}

impl View for Address {
    type V = Seq<u8>;

    closed spec fn view(&self) -> Seq<u8> {
        self.bytes@
    }
}

impl Address {
    /// Well-formed: exactly 20 bytes.
    pub open spec fn wf(&self) -> bool {
        self@.len() == 20
    }

    /// The all-zero address, which the contract uses for "nobody".
    pub fn zero() -> (r: Address)
        ensures
            r.wf(),
            r@ == zero_bytes(20),
    {
        let mut bytes: Vec<u8> = Vec::new();
        crate::words::push_zeros(&mut bytes, 20);
        proof {
            assert(bytes@ =~= zero_bytes(20));
        }
        Address { bytes }
    }

    /// Parses a configured address: an optional `0x`, then 40 hexadecimal
    /// digits.  Anything else is a configuration failure, reported before
    /// any transport is touched.
    pub fn from_hex(s: &str) -> (r: Result<Address, MarketError>)
        ensures
            (r is Ok) == valid_hex_fixed(s.spec_bytes(), 20),
            r matches Ok(a) ==> a.wf() && a@ == hex_bytes(strip_0x(s.spec_bytes())),
            r matches Err(e) ==> e == MarketError::Configuration,
    {
        let b = s.as_bytes_vec();
        match parse_hex_fixed(&b, 20) {
            Some(bytes) => Ok(Address { bytes }),
            None => Err(MarketError::Configuration),
        }
    }

    /// Whether every byte is zero.
    pub fn is_zero(&self) -> (r: bool)
        requires
            self.wf(),
        ensures
            r == (self@ == zero_bytes(20)),
    {
        let mut i: usize = 0;
        while i < 20
            invariant
                i <= 20,
                self.wf(),
                forall|m: int| 0 <= m < i ==> self@[m] == 0,
            decreases 20 - i,
        {
            if self.bytes[i] != 0 {
                proof {
                    assert(self@[i as int] != zero_bytes(20)[i as int]);
                }
                return false;
            }
            i = i + 1;
        }
        proof {
            assert(self@ =~= zero_bytes(20));
        }
        true
    }

    /// Wraps raw address bytes produced by the decoder.
    pub(crate) fn from_raw(bytes: Vec<u8>) -> (r: Address)
        ensures
            r@ == bytes@,
    {
        Address { bytes }
    }

    /// A borrowed view of the raw bytes, for the transport layer.
    pub fn as_bytes(&self) -> (r: &Vec<u8>)
        ensures
            r@ == self@,
    {
        &self.bytes
    }
}

impl Clone for Address {
    fn clone(&self) -> (r: Self)
        ensures
            r@ == self@,
    {
        let bytes = crate::words::copy_range(&self.bytes, 0, self.bytes.len());
        proof {
            assert(bytes@ =~= self.bytes@);
        }
        Address { bytes }
    }
}

impl PartialEq for Address {
    fn eq(&self, other: &Self) -> (r: bool) {
        bytes_equal(&self.bytes, &other.bytes)
    }
}

impl vstd::std_specs::cmp::PartialEqSpecImpl for Address {
    open spec fn obeys_eq_spec() -> bool {
        true
    }

    open spec fn eq_spec(&self, other: &Self) -> bool {
        self@ == other@
    }
}

/// Whether two byte vectors hold the same bytes.
pub(crate) fn bytes_equal(a: &Vec<u8>, b: &Vec<u8>) -> (r: bool)
    ensures
        r == (a@ == b@),
{
    if a.len() != b.len() {
        return false;
    }
    let mut i: usize = 0;
    while i < a.len()
        invariant
            i <= a@.len(),
            a@.len() == b@.len(),
            forall|m: int| 0 <= m < i ==> a@[m] == b@[m],
        decreases a@.len() - i,
    {
        if a[i] != b[i] {
            return false;
        }
        i = i + 1;
    }
    proof {
        assert(a@ =~= b@);
    }
    true
}

} // verus!
