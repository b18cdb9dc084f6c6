//! Big-endian machine words, the unit of the contract wire format.
//!
//! Every argument and return field on the wire occupies one or more 32-byte
//! words; integers are stored big-endian.  This module gives the mathematical
//! model of such words (`be_bytes`, `word_val`), the lemmas that connect the
//! two directions, and the executable helpers that read and write them.

use vstd::arithmetic::div_mod::{lemma_basic_div, lemma_breakdown, lemma_div_denominator};
use vstd::prelude::*;

verus! {

/// 256 raised to the power `k`: the weight of the `k`-th byte from the end.
pub open spec fn pow256(k: nat) -> nat
    decreases k,
{
    if k == 0 {
        1
    } else {
        256 * pow256((k - 1) as nat)
    }
}

/// A run of `n` zero bytes.
pub open spec fn zero_bytes(n: nat) -> Seq<u8> {
    Seq::new(n, |i: int| 0u8)
}

/// The `k`-byte big-endian representation of `n` (truncated modulo 256^k).
pub open spec fn be_bytes(n: nat, k: nat) -> Seq<u8> {
    Seq::new(k, |i: int| ((n / pow256((k - 1 - i) as nat)) % 256) as u8)
}

/// The 32-byte big-endian word holding `n`.
pub open spec fn be_word(n: nat) -> Seq<u8> {
    be_bytes(n, 32)
}

/// The value of a big-endian byte string.
pub open spec fn word_val(s: Seq<u8>) -> nat
    decreases s.len(),
{
    if s.len() == 0 {
        0
    } else {
        word_val(s.drop_last()) * 256 + s.last() as nat
    }
}

/// A 32-byte word whose value fits comfortably in a `u64`: its upper 24
/// bytes are zero.  Offsets and lengths on the wire must be such words.
pub open spec fn small_word(w: Seq<u8>) -> bool {
    forall|i: int| 0 <= i < 24 ==> w[i] == 0
}

pub proof fn lemma_pow256_pos(k: nat)
    ensures
        pow256(k) >= 1,
    decreases k,
{
    if k > 0 {
        lemma_pow256_pos((k - 1) as nat);
    }
}

pub proof fn lemma_pow256_mono(a: nat, b: nat)
    requires
        a <= b,
    ensures
        pow256(a) <= pow256(b),
    decreases b,
{
    if a < b {
        lemma_pow256_mono(a, (b - 1) as nat);
        lemma_pow256_pos((b - 1) as nat);
    }
}

/// Reading back the big-endian bytes of `n` recovers `n` modulo 256^k.
pub proof fn lemma_word_val_be_bytes(n: nat, k: nat)
    ensures
        word_val(be_bytes(n, k)) == n % pow256(k),
    decreases k,
{
    if k == 0 {
        assert(n % 1 == 0) by {
            lemma_breakdown(n as int, 1, 1);
        }
    } else {
        let s = be_bytes(n, k);
        lemma_word_val_be_bytes(n / 256, (k - 1) as nat);
        assert forall|i: int| 0 <= i < k - 1 implies s.drop_last()[i] == be_bytes(
            n / 256,
            (k - 1) as nat,
        )[i] by {
            lemma_pow256_pos((k - 2 - i) as nat);
            lemma_div_denominator(n as int, 256, pow256((k - 2 - i) as nat) as int);
            assert(pow256((k - 1 - i) as nat) == 256 * pow256((k - 2 - i) as nat));
        }
        assert(s.drop_last() =~= be_bytes(n / 256, (k - 1) as nat));
        assert(pow256(0) == 1);
        assert(n / 1 == n);
        assert(s.last() == n % 256);
        lemma_pow256_pos((k - 1) as nat);
        lemma_breakdown(n as int, 256, pow256((k - 1) as nat) as int);
        assert(pow256(k) == 256 * pow256((k - 1) as nat));
        assert(word_val(s) == word_val(s.drop_last()) * 256 + s.last() as nat);
        assert(word_val(s.drop_last()) == (n / 256) % pow256((k - 1) as nat));
        assert(n % pow256(k) == 256 * ((n / 256) % pow256((k - 1) as nat)) + n % 256);
    }
}

/// Leading zero bytes do not change the value.
pub proof fn lemma_word_val_skip_zeros(s: Seq<u8>, k: nat)
    requires
        k <= s.len(),
        forall|i: int| 0 <= i < k ==> s[i] == 0,
    ensures
        word_val(s) == word_val(s.skip(k as int)),
    decreases s.len(),
{
    if s.len() == k {
        lemma_word_val_zeros(s);
        assert(s.skip(k as int) =~= Seq::<u8>::empty());
    } else {
        lemma_word_val_skip_zeros(s.drop_last(), k);
        assert(s.skip(k as int).drop_last() =~= s.drop_last().skip(k as int));
        assert(s.skip(k as int).last() == s.last());
    }
}

/// An all-zero byte string has value zero.
pub proof fn lemma_word_val_zeros(s: Seq<u8>)
    requires
        forall|i: int| 0 <= i < s.len() ==> s[i] == 0,
    ensures
        word_val(s) == 0,
    decreases s.len(),
{
    if s.len() > 0 {
        lemma_word_val_zeros(s.drop_last());
    }
}

/// When `n` fits in the low `j` bytes, the bytes above them are zero.
pub proof fn lemma_be_bytes_small(n: nat, j: nat, k: nat)
    requires
        j <= k,
        n < pow256(j),
    ensures
        forall|i: int| 0 <= i < k - j ==> be_bytes(n, k)[i] == 0,
{
    assert forall|i: int| 0 <= i < k - j implies be_bytes(n, k)[i] == 0 by {
        lemma_pow256_mono(j, (k - 1 - i) as nat);
        lemma_basic_div(n as int, pow256((k - 1 - i) as nat) as int);
    }
}

/// The word carrying a value below 2^64 is a small word.
pub proof fn lemma_be_word_small(n: nat)
    requires
        n < pow256(8),
    ensures
        small_word(be_word(n)),
{
    lemma_be_bytes_small(n, 8, 32);
}

/// The bytes of the words for zero and one, the two truth values.
pub proof fn lemma_be_word_01()
    ensures
        forall|m: int| 0 <= m < 31 ==> be_word(0)[m] == 0 && be_word(1)[m] == 0,
        be_word(0)[31] == 0,
        be_word(1)[31] == 1,
{
    assert(pow256(0) == 1);
    lemma_be_bytes_small(0, 0, 32);
    lemma_be_bytes_small(1, 1, 32);
    assert(1nat / 1 == 1);
    assert(be_bytes(1, 32)[31] == ((1nat / pow256((32 - 1 - 31) as nat)) % 256) as u8);
    assert(be_bytes(0, 32)[31] == ((0nat / pow256((32 - 1 - 31) as nat)) % 256) as u8);
}

/// Appends the 32-byte big-endian word holding `n`.
pub fn push_be_word(out: &mut Vec<u8>, n: u128)
    ensures
        final(out)@ == old(out)@ + be_word(n as nat),
{
    let ghost base = out@;
    let mut low: Vec<u8> = Vec::new();
    let mut cur: u128 = n;
    proof {
        assert(pow256(0) == 1);
        assert(n as nat / 1 == n as nat);
    }
    let mut j: usize = 0;
    while j < 16
        invariant
            j <= 16,
            low@.len() == j,
            cur as nat == n as nat / pow256(j as nat),
            forall|m: int| 0 <= m < j ==> low@[m] as nat == (n as nat / pow256(m as nat)) % 256,
        decreases 16 - j,
    {
        low.push((cur % 256) as u8);
        proof {
            lemma_pow256_pos(j as nat);
            lemma_div_denominator(n as int, pow256(j as nat) as int, 256);
            assert(pow256((j + 1) as nat) == 256 * pow256(j as nat));
            assert(pow256(j as nat) * 256 == 256 * pow256(j as nat)) by (nonlinear_arith);
        }
        cur = cur / 256;
        j = j + 1;
    }
    proof {
        assert(pow256(16) == 0x100000000000000000000000000000000) by {
            assert(pow256(0) == 1);
            assert(pow256(1) == 0x100);
            assert(pow256(2) == 0x10000);
            assert(pow256(3) == 0x1000000);
            assert(pow256(4) == 0x100000000);
            assert(pow256(5) == 0x10000000000);
            assert(pow256(6) == 0x1000000000000);
            assert(pow256(7) == 0x100000000000000);
            assert(pow256(8) == 0x10000000000000000);
            assert(pow256(9) == 0x1000000000000000000);
            assert(pow256(10) == 0x100000000000000000000);
            assert(pow256(11) == 0x10000000000000000000000);
            assert(pow256(12) == 0x1000000000000000000000000);
            assert(pow256(13) == 0x100000000000000000000000000);
            assert(pow256(14) == 0x10000000000000000000000000000);
            assert(pow256(15) == 0x1000000000000000000000000000000);
        }
        lemma_be_bytes_small(n as nat, 16, 32);
    }
    let mut i: usize = 0;
    while i < 32
        invariant
            i <= 32,
            out@.len() == base.len() + i,
            out@ =~= base + be_word(n as nat).take(i as int),
            low@.len() == 16,
            forall|m: int| 0 <= m < 16 ==> low@[m] as nat == (n as nat / pow256(m as nat)) % 256,
            n < pow256(16),
            forall|m: int| 0 <= m < 16 ==> be_word(n as nat)[m] == 0,
        decreases 32 - i,
    {
        if i < 16 {
            out.push(0u8);
        } else {
            out.push(low[31 - i]);
            proof {
                assert(be_word(n as nat)[i as int] as nat == (n as nat / pow256(
                    (31 - i) as nat,
                )) % 256);
            }
        }
        proof {
            assert(out@ =~= base + be_word(n as nat).take(i + 1));
        }
        i = i + 1;
    }
    proof {
        assert(be_word(n as nat).take(32) =~= be_word(n as nat));
    }
}

/// Reads the 32-byte word starting at `start` as an offset or length.
/// Returns its value when it is a small word, and nothing otherwise.
pub fn read_word_u64(b: &Vec<u8>, start: usize) -> (r: Option<u64>)
    requires
        start + 32 <= b@.len(),
    ensures
        (r is Some) == small_word(b@.subrange(start as int, start as int + 32)),
        r matches Some(v) ==> v as nat == word_val(b@.subrange(start as int, start as int + 32)),
{
    let ghost w = b@.subrange(start as int, start as int + 32);
    let _blen: usize = b.len();
    proof {
        assert(b@.len() <= usize::MAX);
    }
    let mut i: usize = 0;
    while i < 24
        invariant
            i <= 24,
            start + 32 <= b@.len() <= usize::MAX,
            w == b@.subrange(start as int, start as int + 32),
            forall|m: int| 0 <= m < i ==> w[m] == 0,
        decreases 24 - i,
    {
        if b[start + i] != 0 {
            proof {
                assert(w[i as int] == b@[start + i]);
            }
            return None;
        }
        proof {
            assert(w[i as int] == b@[start + i]);
        }
        i = i + 1;
    }
    proof {
        assert(pow256(0) == 1);
        assert(pow256(1) == 0x100);
        assert(pow256(2) == 0x10000);
        assert(pow256(3) == 0x1000000);
        assert(pow256(4) == 0x100000000);
        assert(pow256(5) == 0x10000000000);
        assert(pow256(6) == 0x1000000000000);
        assert(pow256(7) == 0x100000000000000);
        assert(pow256(8) == 0x10000000000000000);
    }
    let mut acc: u64 = 0;
    let mut j: usize = 0;
    while j < 8
        invariant
            j <= 8,
            start + 32 <= b@.len() <= usize::MAX,
            w == b@.subrange(start as int, start as int + 32),
            acc as nat == word_val(w.subrange(24, 24 + j as int)),
            pow256(8) == 0x10000000000000000,
            acc < pow256(j as nat),
        decreases 8 - j,
    {
        proof {
            lemma_pow256_mono(j as nat, 7);
            assert(pow256(7) == 0x100000000000000);
            assert(w.subrange(24, 24 + (j + 1) as int).drop_last() =~= w.subrange(
                24,
                24 + j as int,
            ));
            assert(w.subrange(24, 24 + (j + 1) as int).last() == w[24 + j as int]);
            assert(w[24 + j as int] == b@[start + 24 + j]);
            assert(pow256((j + 1) as nat) == 256 * pow256(j as nat));
        }
        acc = acc * 256 + (b[start + 24 + j] as u64);
        j = j + 1;
    }
    proof {
        lemma_word_val_skip_zeros(w, 24);
        assert(w.skip(24) =~= w.subrange(24, 32));
    }
    Some(acc)
}

/// Copies `n` bytes of `b` starting at `start` into a fresh vector.
pub fn copy_range(b: &Vec<u8>, start: usize, n: usize) -> (r: Vec<u8>)
    requires
        start + n <= b@.len(),
    ensures
        r@ == b@.subrange(start as int, start as int + n as int),
{
    let _blen: usize = b.len();
    proof {
        assert(b@.len() <= usize::MAX);
    }
    let mut out: Vec<u8> = Vec::new();
    let mut i: usize = 0;
    while i < n
        invariant
            i <= n,
            start + n <= b@.len() <= usize::MAX,
            out@ =~= b@.subrange(start as int, start as int + i as int),
        decreases n - i,
    {
        out.push(b[start + i]);
        proof {
            assert(out@ =~= b@.subrange(start as int, start as int + (i + 1) as int));
        }
        i = i + 1;
    }
    proof {
        assert(out@ =~= b@.subrange(start as int, start as int + n as int));
    }
    out
}

/// Appends all of `src` to `out`.
pub fn push_bytes(out: &mut Vec<u8>, src: &Vec<u8>)
    ensures
        final(out)@ == old(out)@ + src@,
{
    let mut i: usize = 0;
    while i < src.len()
        invariant
            i <= src@.len(),
            out@ =~= old(out)@ + src@.take(i as int),
        decreases src@.len() - i,
    {
        out.push(src[i]);
        proof {
            assert(out@ =~= old(out)@ + src@.take(i + 1));
        }
        i = i + 1;
    }
    proof {
        assert(out@ =~= old(out)@ + src@);
    }
}

/// Appends `n` zero bytes to `out`.
pub fn push_zeros(out: &mut Vec<u8>, n: usize)
    ensures
        final(out)@ == old(out)@ + zero_bytes(n as nat),
{
    let mut i: usize = 0;
    while i < n
        invariant
            i <= n,
            out@ =~= old(out)@ + zero_bytes(i as nat),
        decreases n - i,
    {
        out.push(0u8);
        proof {
            assert(out@ =~= old(out)@ + zero_bytes((i + 1) as nat));
        }
        i = i + 1;
    }
    proof {
        assert(out@ =~= old(out)@ + zero_bytes(n as nat));
    }
}

} // verus!
