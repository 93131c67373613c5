//! Streams of 64-bit words, and the facts that tie shifts and masks on machine
//! integers to the arithmetic of the bit-string model.
use crate::bits::{bit_of, field, lemma_field_len, lemma_lsb_index, lemma_msb_index};
use vstd::arithmetic::div_mod::*;
use vstd::arithmetic::mul::*;
use vstd::arithmetic::power2::*;
use vstd::bits::*;
use vstd::prelude::*;

verus! {

/// The 64 bits of a word in stream order.
pub open spec fn word_bits(w: u64, m2l: bool) -> Seq<bool> {
    field(w as nat, 64, m2l)
}

/// The bit string that a sequence of words holds, in stream order.
pub open spec fn words_bits(ws: Seq<u64>, m2l: bool) -> Seq<bool> {
    Seq::new(64 * ws.len(), |k: int| word_bits(ws[k / 64], m2l)[k % 64])
}

pub proof fn lemma_words_bits_push(ws: Seq<u64>, w: u64, m2l: bool)
    ensures
        words_bits(ws.push(w), m2l) == words_bits(ws, m2l) + word_bits(w, m2l),
{
    lemma_field_len(w as nat, 64, m2l);
    let a = words_bits(ws.push(w), m2l);
    let b = words_bits(ws, m2l) + word_bits(w, m2l);
    assert forall|k: int| 0 <= k < a.len() implies a[k] == b[k] by {
        if k < 64 * ws.len() {
            assert(k / 64 < ws.len()) by (nonlinear_arith)
                requires
                    0 <= k < 64 * ws.len(),
            ;
        } else {
            assert(k / 64 == ws.len() && k % 64 == k - 64 * ws.len()) by (nonlinear_arith)
                requires
                    64 * ws.len() <= k < 64 * ws.len() + 64,
            ;
        }
    }
    assert(a =~= b);
}

/// The bits `a .. b` of word `i` of a stream.
pub proof fn lemma_words_bits_window(ws: Seq<u64>, m2l: bool, i: int, a: int, b: int)
    requires
        0 <= i < ws.len(),
        0 <= a <= b <= 64,
    ensures
        words_bits(ws, m2l).subrange(64 * i + a, 64 * i + b) == word_bits(ws[i], m2l).subrange(
            a,
            b,
        ),
{
    lemma_field_len(ws[i] as nat, 64, m2l);
    assert(64 * i + b <= 64 * ws.len()) by (nonlinear_arith)
        requires
            0 <= i < ws.len(),
            b <= 64,
    ;
    let s = words_bits(ws, m2l).subrange(64 * i + a, 64 * i + b);
    let t = word_bits(ws[i], m2l).subrange(a, b);
    assert forall|k: int| 0 <= k < s.len() implies s[k] == t[k] by {
        assert((64 * i + a + k) / 64 == i && (64 * i + a + k) % 64 == a + k) by (nonlinear_arith)
            requires
                0 <= a + k < 64,
        ;
    }
    assert(s =~= t);
}

/// The bits `64 * i + a .. 64 * i + b` of a stream, where `b` may run into word `i + 1`.
pub proof fn lemma_words_bits_window2(ws: Seq<u64>, m2l: bool, i: int, a: int, b: int)
    requires
        0 <= i,
        i + 1 < ws.len(),
        0 <= a <= b <= 128,
    ensures
        words_bits(ws, m2l).subrange(64 * i + a, 64 * i + b) == (word_bits(ws[i], m2l)
            + word_bits(ws[i + 1], m2l)).subrange(a, b),
{
    lemma_field_len(ws[i] as nat, 64, m2l);
    lemma_field_len(ws[i + 1] as nat, 64, m2l);
    assert(64 * i + b <= 64 * ws.len()) by (nonlinear_arith)
        requires
            0 <= i,
            i + 1 < ws.len(),
            b <= 128,
    ;
    let s = words_bits(ws, m2l).subrange(64 * i + a, 64 * i + b);
    let t = (word_bits(ws[i], m2l) + word_bits(ws[i + 1], m2l)).subrange(a, b);
    assert forall|k: int| 0 <= k < s.len() implies s[k] == t[k] by {
        if a + k < 64 {
            assert((64 * i + a + k) / 64 == i && (64 * i + a + k) % 64 == a + k) by (nonlinear_arith)
                requires
                    0 <= a + k < 64,
            ;
        } else {
            assert((64 * i + a + k) / 64 == i + 1 && (64 * i + a + k) % 64 == a + k - 64)
                by (nonlinear_arith)
                requires
                    64 <= a + k < 128,
            ;
        }
    }
    assert(s =~= t);
}

/// `1 << n` is `2^n`, and masking with `(1 << n) - 1` keeps the `n` low bits.
pub proof fn lemma_u64_mask(x: u64, n: u64)
    requires
        n < 64,
    ensures
        (1u64 << n) == pow2(n as nat),
        (x & (((1u64 << n) - 1) as u64)) as nat == x as nat % pow2(n as nat),
        x & (((1u64 << n) - 1) as u64) < pow2(n as nat),
{
    lemma_u64_pow2_no_overflow(n as nat);
    lemma_u64_shl_is_mul(1, n);
    lemma_u64_low_bits_mask_is_mod(x, n as nat);
    lemma_pow2_pos(n as nat);
}

/// Or-ing a value below `2^s` into a word shifted left by `s` is adding.
pub proof fn lemma_u64_shl_or(a: u64, b: u64, s: u64)
    requires
        s < 64,
        b < pow2(s as nat),
        a * pow2(s as nat) <= u64::MAX,
    ensures
        (a << s) | b == a * pow2(s as nat) + b,
{
    lemma_u64_mask(b, s);
    lemma_u64_shl_is_mul(a, s);
    assert(b < (1u64 << s) && s < 64 ==> (a << s) & b == 0) by (bit_vector);
    assert((a << s) & b == 0 ==> (a << s) | b == (a << s) + b) by (bit_vector);
}

/// Shifting a 128-bit value left is multiplying, where nothing overflows.
pub proof fn lemma_u128_shl(x: u128, s: u128)
    requires
        s < 128,
        x * pow2(s as nat) <= u128::MAX,
    ensures
        x << s == x * pow2(s as nat),
    decreases s,
{
    lemma_pow2_pos(s as nat);
    if s == 0 {
        lemma2_to64();
        assert(x << 0 == x) by (bit_vector);
    } else {
        let y = x << ((s - 1) as u128);
        lemma_pow2_unfold(s as nat);
        let p = pow2((s - 1) as nat);
        assert(x * p <= x * pow2(s as nat)) by (nonlinear_arith)
            requires
                pow2(s as nat) == 2 * p,
        ;
        lemma_u128_shl(x, ((s - 1) as u128));
        assert(y * 2 <= u128::MAX) by (nonlinear_arith)
            requires
                y == x * p,
                x * pow2(s as nat) <= u128::MAX,
                pow2(s as nat) == 2 * p,
        ;
        assert(0 < s < 128 ==> x << s == (x << ((s - 1) as u128)) << 1u128) by (bit_vector);
        assert(y <= 0x7fff_ffff_ffff_ffff_ffff_ffff_ffff_ffffu128 ==> y << 1u128 == y * 2)
            by (bit_vector);
        assert(y * 2 == x * pow2(s as nat)) by (nonlinear_arith)
            requires
                y == x * p,
                pow2(s as nat) == 2 * p,
        ;
    }
}

/// Powers of two below `2^128` fit in 128 bits.
pub proof fn lemma_pow2_u128(s: nat)
    requires
        s < 128,
    ensures
        pow2(s) <= u128::MAX,
        pow2(s) * 1 <= u128::MAX,
{
    lemma2_to64();
    lemma_pow2_adds(64, 64);
    lemma_pow2_strictly_increases(s, 128);
}

/// Or-ing a value below `2^s` into a 128-bit word shifted left by `s` is adding.
pub proof fn lemma_u128_shl_or(a: u128, b: u128, s: u128)
    requires
        s < 128,
        b < pow2(s as nat),
        a * pow2(s as nat) <= u128::MAX,
    ensures
        (a << s) | b == a * pow2(s as nat) + b,
{
    lemma_u128_shl(a, s);
    lemma_pow2_u128(s as nat);
    lemma_u128_shl(1, s);
    lemma_mul_basics(pow2(s as nat) as int);
    lemma_pow2_pos(s as nat);
    assert(b < (1u128 << s) && s < 128 ==> (a << s) & b == 0) by (bit_vector);
    assert((a << s) & b == 0 ==> (a << s) | b == (a << s) + b) by (bit_vector);
}

/// Bit `j` of a word, read with shifts, is bit `j` of its value.
pub proof fn lemma_bit_u64(x: u64, j: u64)
    requires
        j < 64,
    ensures
        ((x >> j) & 1u64 == 1u64) == bit_of(x as nat, j as nat),
        ((x >> j) & 1u64 != 0u64) == bit_of(x as nat, j as nat),
{
    let y = x >> j;
    lemma_u64_shr_is_div(x, j);
    assert(y & 1u64 == y % 2) by (bit_vector);
}

/// The bits of a word shifted left by `off`.
pub proof fn lemma_shl_bit(w: u64, off: u64, i: u64)
    requires
        off < 64,
        i < 64,
    ensures
        bit_of((w << off) as nat, i as nat) == (i >= off && bit_of(w as nat, (i - off) as nat)),
{
    let x = w << off;
    lemma_bit_u64(x, i);
    if i >= off {
        lemma_bit_u64(w, (i - off) as u64);
        assert(((w << off) >> i) & 1u64 == (w >> ((i - off) as u64)) & 1u64) by (bit_vector)
            requires
                off < 64,
                off <= i < 64,
        ;
    } else {
        assert(((w << off) >> i) & 1u64 == 0u64) by (bit_vector)
            requires
                i < off < 64,
        ;
    }
}

/// The bits of a word shifted right by `off`.
pub proof fn lemma_shr_bit(w: u64, off: u64, j: u64)
    requires
        off + j < 64,
    ensures
        bit_of((w >> off) as nat, j as nat) == bit_of(w as nat, (off + j) as nat),
{
    lemma_bit_u64(w >> off, j);
    lemma_bit_u64(w, (off + j) as u64);
    assert(((w >> off) >> j) & 1u64 == (w >> ((off + j) as u64)) & 1u64) by (bit_vector)
        requires
            off + j < 64,
    ;
}

/// Bit `j` of word `c` of a stream, as a bit of the word's value.
pub proof fn lemma_stream_bit(ws: Seq<u64>, m2l: bool, c: int, j: int)
    requires
        0 <= c < ws.len(),
        0 <= j < 64,
    ensures
        64 * c + j < words_bits(ws, m2l).len(),
        words_bits(ws, m2l)[64 * c + j] == if m2l {
            bit_of(ws[c] as nat, (63 - j) as nat)
        } else {
            bit_of(ws[c] as nat, j as nat)
        },
{
    assert((64 * c + j) / 64 == c && (64 * c + j) % 64 == j && 64 * c + j < 64 * ws.len())
        by (nonlinear_arith)
        requires
            0 <= j < 64,
            0 <= c < ws.len(),
    ;
    lemma_msb_index(ws[c] as nat, 64, j as nat);
    lemma_lsb_index(ws[c] as nat, 64, j as nat);
}

} // verus!
