//! Little-endian byte strings and the numbers they stand for.
//!
//! Every fixed-width encoding in this crate is little-endian: the first byte
//! is the least significant one. The two spec functions [`le_value`] and
//! [`le_bytes`] are the mathematical model; the lemmas show that they are
//! inverse to each other, and the executable functions move `u64` words in
//! and out of byte strings.
use vstd::prelude::*;

verus! {

/// `256` to the power `n`.
pub open spec fn pow256(n: nat) -> nat
    decreases n,
{
    if n == 0 {
        1
    } else {
        256 * pow256((n - 1) as nat)
    }
}

/// The number that `bytes` stands for, least significant byte first.
pub open spec fn le_value(bytes: Seq<u8>) -> nat
    decreases bytes.len(),
{
    if bytes.len() == 0 {
        0
    } else {
        bytes[0] as nat + 256 * le_value(bytes.drop_first())
    }
}

/// The `width` least significant bytes of `value`, least significant first.
/// Where `value` needs fewer bytes the rest is zero.
pub open spec fn le_bytes(value: nat, width: nat) -> Seq<u8>
    decreases width,
{
    if width == 0 {
        Seq::empty()
    } else {
        seq![(value % 256) as u8] + le_bytes(value / 256, (width - 1) as nat)
    }
}

/// `2` to the power `64`, the number of values of one word.
pub open spec fn word_base() -> nat {
    0x1_0000_0000_0000_0000nat
}

/// Eight bytes hold exactly one word.
pub proof fn lemma_pow256_word()
    ensures
        pow256(8) == word_base(),
        pow256(16) == word_base() * word_base(),
        pow256(24) == word_base() * word_base() * word_base(),
        pow256(32) == word_base() * word_base() * word_base() * word_base(),
{
    reveal_with_fuel(pow256, 9);
    assert(pow256(8) == 0x1_0000_0000_0000_0000nat);
    lemma_pow256_sum(8, 8);
    lemma_pow256_sum(16, 8);
    lemma_pow256_sum(24, 8);
}

pub proof fn lemma_pow256_sum(a: nat, b: nat)
    ensures
        pow256(a + b) == pow256(a) * pow256(b),
    decreases a,
{
    if a == 0 {
        assert(pow256(0) == 1);
        assert(pow256(0) * pow256(b) == pow256(b));
    } else {
        lemma_pow256_sum((a - 1) as nat, b);
        let p = pow256((a - 1) as nat);
        let q = pow256(b);
        assert(pow256(a + b) == 256 * pow256(((a - 1) + b) as nat));
        assert(256 * (p * q) == (256 * p) * q) by (nonlinear_arith);
    }
}

pub proof fn lemma_pow256_monotonic(a: nat, b: nat)
    requires
        a <= b,
    ensures
        pow256(a) <= pow256(b),
    decreases b,
{
    if a < b {
        lemma_pow256_monotonic(a, (b - 1) as nat);
    }
}

pub proof fn lemma_le_bytes_len(value: nat, width: nat)
    ensures
        le_bytes(value, width).len() == width,
    decreases width,
{
    if width > 0 {
        lemma_le_bytes_len(value / 256, (width - 1) as nat);
    }
}

/// A byte string of length `n` stands for a number below `256^n`.
pub proof fn lemma_le_value_bound(bytes: Seq<u8>)
    ensures
        le_value(bytes) < pow256(bytes.len()),
    decreases bytes.len(),
{
    if bytes.len() > 0 {
        lemma_le_value_bound(bytes.drop_first());
    }
}

/// Decoding what was encoded gives the number back, as long as it fits.
pub proof fn lemma_le_value_of_le_bytes(value: nat, width: nat)
    requires
        value < pow256(width),
    ensures
        le_value(le_bytes(value, width)) == value,
    decreases width,
{
    if width > 0 {
        let rest = le_bytes(value / 256, (width - 1) as nat);
        let all = le_bytes(value, width);
        lemma_le_value_of_le_bytes(value / 256, (width - 1) as nat);
        assert(all.drop_first() =~= rest);
        assert(all[0] == (value % 256) as u8);
    }
}

/// Encoding what was decoded gives the bytes back: the encoding is canonical.
pub proof fn lemma_le_bytes_of_le_value(bytes: Seq<u8>)
    ensures
        le_bytes(le_value(bytes), bytes.len()) == bytes,
    decreases bytes.len(),
{
    if bytes.len() > 0 {
        let tail = bytes.drop_first();
        lemma_le_bytes_of_le_value(tail);
        let v = le_value(bytes);
        assert(v % 256 == bytes[0] as nat);
        assert(v / 256 == le_value(tail));
        assert(le_bytes(v, bytes.len()) =~= seq![bytes[0]] + tail);
        assert(seq![bytes[0]] + tail =~= bytes);
    } else {
        assert(le_bytes(le_value(bytes), 0) =~= bytes);
    }
}

/// The value of two strings laid end to end.
pub proof fn lemma_le_value_concat(low: Seq<u8>, high: Seq<u8>)
    ensures
        le_value(low + high) == le_value(low) + pow256(low.len()) * le_value(high),
    decreases low.len(),
{
    if low.len() == 0 {
        assert(low + high =~= high);
        assert(pow256(0) == 1);
        assert(pow256(0) * le_value(high) == le_value(high));
    } else {
        let tail = low.drop_first();
        lemma_le_value_concat(tail, high);
        assert((low + high).drop_first() =~= tail + high);
        let p = pow256(tail.len());
        let h = le_value(high);
        let t = le_value(tail);
        assert(256 * (t + p * h) == 256 * t + (256 * p) * h) by (nonlinear_arith);
    }
}

/// Appends the eight little-endian bytes of `word` to `out`.
pub fn push_u64_le(out: &mut Vec<u8>, word: u64)
    ensures
        final(out)@ == old(out)@ + le_bytes(word as nat, 8),
{
    let ghost before = out@;
    let mut rest: u64 = word;
    let mut j: usize = 0;
    while j < 8
        invariant
            j <= 8,
            before + le_bytes(word as nat, 8) == out@ + le_bytes(rest as nat, (8 - j) as nat),
        decreases 8 - j,
    {
        let low: u64 = rest & 0xff;
        let next: u64 = rest >> 8;
        assert(low == rest % 256 && next == rest / 256) by (bit_vector)
            requires
                low == rest & 0xff,
                next == rest >> 8,
        ;
        proof {
            let k = (8 - j) as nat;
            assert(le_bytes(rest as nat, k) == seq![(rest as nat % 256) as u8] + le_bytes(
                rest as nat / 256,
                (k - 1) as nat,
            ));
            assert(out@.push(low as u8) + le_bytes(next as nat, (k - 1) as nat) =~= out@
                + le_bytes(rest as nat, k));
        }
        out.push(low as u8);
        rest = next;
        j = j + 1;
    }
    assert(out@ + le_bytes(rest as nat, 0) =~= out@);
}

/// Reads the word whose eight little-endian bytes start at `at`.
pub fn read_u64_le(bytes: &[u8], at: usize) -> (word: u64)
    requires
        at + 8 <= bytes@.len(),
    ensures
        word as nat == le_value(bytes@.subrange(at as int, at + 8)),
{
    let ghost chunk = bytes@.subrange(at as int, at + 8);
    let len: usize = bytes.len();
    let mut word: u64 = 0;
    let mut j: usize = 8;
    while j > 0
        invariant
            j <= 8,
            at + 8 <= bytes@.len(),
            len == bytes@.len(),
            chunk == bytes@.subrange(at as int, at + 8),
            word as nat == le_value(chunk.subrange(j as int, 8)),
        decreases j,
    {
        j = j - 1;
        let byte: u8 = bytes[at + j];
        proof {
            let upper = chunk.subrange(j + 1, 8);
            let from = chunk.subrange(j as int, 8);
            assert(from.drop_first() =~= upper);
            assert(from[0] == byte);
            lemma_le_value_bound(from);
            lemma_pow256_monotonic(from.len(), 8);
            lemma_pow256_word();
        }
        word = word * 256 + byte as u64;
    }
    assert(chunk.subrange(0, 8) =~= chunk);
    word
}

/// Whether two byte strings are equal.
pub fn same_bytes(a: &[u8], b: &[u8]) -> (same: bool)
    ensures
        same == (a@ == b@),
{
    if a.len() != b.len() {
        return false;
    }
    let mut i: usize = 0;
    while i < a.len()
        invariant
            i <= a@.len(),
            a@.len() == b@.len(),
            a@.take(i as int) == b@.take(i as int),
        decreases a@.len() - i,
    {
        if a[i] != b[i] {
            return false;
        }
        assert(a@.take(i + 1) =~= a@.take(i as int).push(a@[i as int]));
        assert(b@.take(i + 1) =~= b@.take(i as int).push(b@[i as int]));
        i = i + 1;
    }
    assert(a@.take(i as int) =~= a@);
    assert(b@.take(i as int) =~= b@);
    true
}

} // verus!
