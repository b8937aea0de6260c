use vstd::prelude::*;

use crate::bytes::{append_bytes, Address};

verus! {

/// Byte `k` (counting from the least significant end, `0 <= k < 8`) of the
/// big-endian representation of `x`.
pub open spec fn u64_byte(x: u64, k: int) -> u8 {
    if k == 0 {
        (x % 256) as u8
    } else if k == 1 {
        ((x / 256) % 256) as u8
    } else if k == 2 {
        ((x / 65536) % 256) as u8
    } else if k == 3 {
        ((x / 16777216) % 256) as u8
    } else if k == 4 {
        ((x / 4294967296) % 256) as u8
    } else if k == 5 {
        ((x / 1099511627776) % 256) as u8
    } else if k == 6 {
        ((x / 281474976710656) % 256) as u8
    } else {
        ((x / 72057594037927936) % 256) as u8
    }
}

/// A fixed-width unsigned integer occupies one 32-byte word, right-aligned,
/// with the high bytes zero.
pub open spec fn word_of_u64(x: u64) -> Seq<u8> {
    Seq::new(32, |i: int| if i < 24 { 0u8 } else { u64_byte(x, 31 - i) })
}

/// A 20-byte address occupies one 32-byte word, zero-padded in the high 12
/// bytes, with the value in the low 20 bytes.
pub open spec fn word_of_address(a: Seq<u8>) -> Seq<u8>
    recommends
        a.len() == 20,
{
    Seq::new(32, |i: int| if i < 12 { 0u8 } else { a[i - 12] })
}

/// Encodes `x` as one 32-byte big-endian word.
pub fn u64_to_word(x: u64) -> (r: Vec<u8>)
    ensures
        r@ == word_of_u64(x),
        r@.len() == 32,
{
    let mut r: Vec<u8> = Vec::new();
    let mut i: usize = 0;
    while i < 24
        invariant
            i <= 24,
            r@ == Seq::new(i as nat, |j: int| 0u8),
        decreases 24 - i,
    {
        r.push(0u8);
        proof {
            assert(r@ =~= Seq::new((i + 1) as nat, |j: int| 0u8));
        }
        i = i + 1;
    }
    r.push(((x / 72057594037927936) % 256) as u8);
    r.push(((x / 281474976710656) % 256) as u8);
    r.push(((x / 1099511627776) % 256) as u8);
    r.push(((x / 4294967296) % 256) as u8);
    r.push(((x / 16777216) % 256) as u8);
    r.push(((x / 65536) % 256) as u8);
    r.push(((x / 256) % 256) as u8);
    r.push((x % 256) as u8);
    proof {
        assert(r@ =~= word_of_u64(x));
    }
    r
}

/// 256 to the power `n`.
pub open spec fn pow256(n: nat) -> nat
    decreases n,
{
    if n == 0 {
        1nat
    } else {
        256 * pow256((n - 1) as nat)
    }
}

/// The unsigned big-endian value of a byte sequence.
pub open spec fn wtn(w: Seq<u8>) -> nat
    decreases w.len(),
{
    if w.len() == 0 {
        0nat
    } else {
        (wtn(w.drop_last()) * 256 + w.last()) as nat
    }
}

/// A byte sequence's value is below 256 to its length.
pub proof fn lemma_wtn_bound(w: Seq<u8>)
    ensures
        wtn(w) < pow256(w.len()),
    decreases w.len(),
{
    if w.len() == 0 {
    } else {
        lemma_wtn_bound(w.drop_last());
    }
}

/// The value of a concatenation: the high part shifted by the low part's
/// width, plus the low part.
pub proof fn lemma_wtn_concat(a: Seq<u8>, b: Seq<u8>)
    ensures
        wtn(a + b) == wtn(a) * pow256(b.len()) + wtn(b),
    decreases b.len(),
{
    if b.len() == 0 {
        assert(a + b =~= a);
        assert(pow256(b.len()) == 1);
        assert(wtn(b) == 0);
        assert(wtn(a) * pow256(b.len()) == wtn(a)) by (nonlinear_arith)
            requires
                pow256(b.len()) == 1,
        ;
    } else {
        assert((a + b).drop_last() =~= a + b.drop_last());
        assert((a + b).last() == b.last());
        lemma_wtn_concat(a, b.drop_last());
        assert(wtn(a + b) == (wtn(a) * pow256((b.len() - 1) as nat) + wtn(b.drop_last())) * 256
            + b.last());
        assert(pow256(b.len()) == 256 * pow256((b.len() - 1) as nat));
        assert(wtn(b) == wtn(b.drop_last()) * 256 + b.last());
        assert(wtn(a + b) == wtn(a) * pow256(b.len()) + wtn(b)) by (nonlinear_arith)
            requires
                wtn(a + b) == (wtn(a) * pow256((b.len() - 1) as nat) + wtn(b.drop_last())) * 256
                    + b.last(),
                wtn(b) == wtn(b.drop_last()) * 256 + b.last(),
                pow256(b.len()) == 256 * pow256((b.len() - 1) as nat),
        ;
    }
}

/// An all-zero byte sequence has value zero.
pub proof fn lemma_wtn_all_zero(w: Seq<u8>)
    requires
        forall|i: int| 0 <= i < w.len() ==> w[i] == 0,
    ensures
        wtn(w) == 0,
    decreases w.len(),
{
    if w.len() == 0 {
    } else {
        assert(w.last() == 0);
        lemma_wtn_all_zero(w.drop_last());
    }
}

/// A byte sequence with a nonzero byte has a nonzero value.
pub proof fn lemma_wtn_nonzero(w: Seq<u8>, i: int)
    requires
        0 <= i < w.len(),
        w[i] != 0,
    ensures
        wtn(w) >= 1,
    decreases w.len(),
{
    if i == w.len() - 1 {
        assert(w.last() != 0);
    } else {
        lemma_wtn_nonzero(w.drop_last(), i);
        assert(wtn(w.drop_last()) * 256 >= 256) by (nonlinear_arith)
            requires
                wtn(w.drop_last()) >= 1,
        ;
    }
}

/// The low-order `m` bytes of `x`, big-endian.
pub open spec fn u64_trunc_bytes(x: u64, m: int) -> Seq<u8> {
    Seq::new(m as nat, |i: int| u64_byte(x, m - 1 - i))
}

/// Byte `k` of `x` is byte `k - 1` of `x` shifted right by one byte.
proof fn lemma_byte_shift(x: u64, k: int)
    requires
        1 <= k <= 7,
    ensures
        u64_byte(x, k) == u64_byte(x / 256, k - 1),
{
    if k == 2 {
        vstd::arithmetic::div_mod::lemma_div_denominator(x as int, 256, 256);
    } else if k == 3 {
        vstd::arithmetic::div_mod::lemma_div_denominator(x as int, 256, 65536);
    } else if k == 4 {
        vstd::arithmetic::div_mod::lemma_div_denominator(x as int, 256, 16777216);
    } else if k == 5 {
        vstd::arithmetic::div_mod::lemma_div_denominator(x as int, 256, 4294967296);
    } else if k == 6 {
        vstd::arithmetic::div_mod::lemma_div_denominator(x as int, 256, 1099511627776);
    } else if k == 7 {
        vstd::arithmetic::div_mod::lemma_div_denominator(x as int, 256, 281474976710656);
    }
}

/// The big-endian value of the low `m` bytes of `x` is `x` modulo 256 to
/// the `m`.
proof fn lemma_wtn_trunc(x: u64, m: int)
    requires
        0 <= m <= 8,
    ensures
        wtn(u64_trunc_bytes(x, m)) == (x as int) % (pow256(m as nat) as int),
    decreases m,
{
    lemma_pow256_values();
    if m == 0 {
        assert(u64_trunc_bytes(x, 0) =~= Seq::<u8>::empty());
    } else {
        let s = u64_trunc_bytes(x, m);
        let y: u64 = x / 256;
        assert forall|i: int| 0 <= i < m - 1 implies s.drop_last()[i] == u64_trunc_bytes(
            y,
            m - 1,
        )[i] by {
            lemma_byte_shift(x, m - 1 - i);
        }
        assert(s.drop_last() =~= u64_trunc_bytes(y, m - 1));
        lemma_wtn_trunc(y, m - 1);
        assert(s.last() == u64_byte(x, 0));
        vstd::arithmetic::div_mod::lemma_mod_breakdown(
            x as int,
            256,
            pow256((m - 1) as nat) as int,
        );
        assert(pow256(m as nat) == 256 * pow256((m - 1) as nat));
        assert(wtn(s) == wtn(s.drop_last()) * 256 + s.last());
        assert(wtn(s.drop_last()) * 256 == 256 * ((x as int / 256) % (pow256((m - 1) as nat)
            as int)));
    }
}

/// The decoder's word reading inverts the canonical encoder: the
/// big-endian value of the word of an integer is that integer.
pub proof fn lemma_word_of_u64_value(x: u64)
    ensures
        wtn(word_of_u64(x)) == x,
{
    lemma_pow256_values();
    let w = word_of_u64(x);
    let hi = w.subrange(0, 24);
    let lo = w.subrange(24, 32);
    assert(w =~= hi + lo);
    lemma_wtn_concat(hi, lo);
    assert(forall|i: int| 0 <= i < 24 ==> hi[i] == 0);
    lemma_wtn_all_zero(hi);
    assert(wtn(hi) * pow256(lo.len()) == 0) by (nonlinear_arith)
        requires
            wtn(hi) == 0,
    ;
    assert(lo =~= u64_trunc_bytes(x, 8));
    lemma_wtn_trunc(x, 8);
    assert((x as int) % (pow256(8) as int) == x) by {
        vstd::arithmetic::div_mod::lemma_small_mod(x as nat, pow256(8));
    }
}

/// True when the first 24 bytes of the word are all zero.
fn high_bytes_zero(w: &[u8]) -> (r: bool)
    requires
        w@.len() == 32,
    ensures
        r <==> forall|j: int| 0 <= j < 24 ==> w@[j] == 0,
{
    let mut i: usize = 0;
    while i < 24
        invariant
            i <= 24,
            w@.len() == 32,
            forall|j: int| 0 <= j < i ==> w@[j] == 0,
        decreases 24 - i,
    {
        if w[i] != 0 {
            return false;
        }
        i = i + 1;
    }
    true
}

/// Unfolds the powers of 256 up to the eighth.
proof fn lemma_pow256_values()
    ensures
        pow256(0) == 1,
        pow256(1) == 256,
        pow256(2) == 65536,
        pow256(3) == 16777216,
        pow256(4) == 4294967296,
        pow256(5) == 1099511627776,
        pow256(6) == 281474976710656,
        pow256(7) == 72057594037927936,
        pow256(8) == 18446744073709551616,
{
    assert(pow256(0) == 1);
    assert(pow256(1) == 256);
    assert(pow256(2) == 65536);
    assert(pow256(3) == 16777216);
    assert(pow256(4) == 4294967296);
    assert(pow256(5) == 1099511627776);
    assert(pow256(6) == 281474976710656);
    assert(pow256(7) == 72057594037927936);
    assert(pow256(8) == 18446744073709551616);
}

/// Reads the value of a 32-byte big-endian word when it fits a `u64`;
/// `None` exactly when the value is too large.
pub fn word_to_u64(w: &[u8]) -> (r: Option<u64>)
    requires
        w@.len() == 32,
    ensures
        match r {
            Some(x) => x == wtn(w@),
            None => wtn(w@) > u64::MAX,
        },
{
    let ghost hi: Seq<u8> = w@.subrange(0, 24);
    let ghost lo: Seq<u8> = w@.subrange(24, 32);
    proof {
        assert(w@ =~= hi + lo);
        lemma_wtn_concat(hi, lo);
        lemma_wtn_bound(lo);
        lemma_pow256_values();
    }
    if !high_bytes_zero(w) {
        proof {
            let j = choose|j: int| 0 <= j < 24 && w@[j] != 0;
            assert(hi[j] != 0);
            lemma_wtn_nonzero(hi, j);
            assert(wtn(hi) * pow256(8) >= pow256(8)) by (nonlinear_arith)
                requires
                    wtn(hi) >= 1,
                    pow256(8) == 18446744073709551616,
            ;
        }
        return None;
    }
    proof {
        assert(forall|j: int| 0 <= j < 24 ==> hi[j] == w@[j]);
        lemma_wtn_all_zero(hi);
        assert(wtn(w@) == wtn(lo));
    }
    let mut acc: u64 = 0;
    let mut k: usize = 0;
    while k < 8
        invariant
            k <= 8,
            w@.len() == 32,
            lo == w@.subrange(24, 32),
            acc == wtn(lo.subrange(0, k as int)),
            acc < pow256(k as nat),
            pow256(1) == 256,
            pow256(2) == 65536,
            pow256(3) == 16777216,
            pow256(4) == 4294967296,
            pow256(5) == 1099511627776,
            pow256(6) == 281474976710656,
            pow256(7) == 72057594037927936,
            pow256(8) == 18446744073709551616,
        decreases 8 - k,
    {
        let b = w[24 + k];
        proof {
            let pre = lo.subrange(0, k as int);
            let post = lo.subrange(0, k as int + 1);
            assert(post.drop_last() =~= pre);
            assert(post.last() == lo[k as int]);
            assert(lo[k as int] == w@[24 + k as int]);
            assert(pow256((k + 1) as nat) == 256 * pow256(k as nat));
            assert(acc * 256 + b < pow256((k + 1) as nat)) by (nonlinear_arith)
                requires
                    acc < pow256(k as nat),
                    b < 256,
                    pow256((k + 1) as nat) == 256 * pow256(k as nat),
            ;
            assert(pow256((k + 1) as nat) <= pow256(8));
        }
        acc = acc * 256 + (b as u64);
        k = k + 1;
    }
    proof {
        assert(lo.subrange(0, 8) =~= lo);
    }
    Some(acc)
}

/// Copies the 32-byte word at `off` out of a buffer.
pub fn read_word(data: &[u8], off: usize) -> (r: Vec<u8>)
    requires
        off + 32 <= data@.len(),
    ensures
        r@ == data@.subrange(off as int, off as int + 32),
        r@.len() == 32,
{
    let n = data.len();
    let mut r: Vec<u8> = Vec::new();
    let mut j: usize = 0;
    while j < 32
        invariant
            j <= 32,
            n == data@.len(),
            off + 32 <= n,
            r@ == data@.subrange(off as int, off as int + j as int),
        decreases 32 - j,
    {
        r.push(data[off + j]);
        proof {
            assert(data@.subrange(off as int, off as int + j as int + 1) =~= data@.subrange(
                off as int,
                off as int + j as int,
            ).push(data@[off as int + j as int]));
        }
        j = j + 1;
    }
    r
}

/// Encodes a 20-byte address as one 32-byte word.
pub fn address_to_word(a: &Address) -> (r: Vec<u8>)
    requires
        a.wf(),
    ensures
        r@ == word_of_address(a@),
        r@.len() == 32,
{
    let mut r: Vec<u8> = Vec::new();
    let mut i: usize = 0;
    while i < 12
        invariant
            i <= 12,
            r@ == Seq::new(i as nat, |j: int| 0u8),
        decreases 12 - i,
    {
        r.push(0u8);
        proof {
            assert(r@ =~= Seq::new((i + 1) as nat, |j: int| 0u8));
        }
        i = i + 1;
    }
    append_bytes(&mut r, a.bytes.as_slice());
    proof {
        assert(r@ =~= word_of_address(a@));
    }
    r
}

} // verus!
