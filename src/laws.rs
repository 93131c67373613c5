//! Properties that relate writing and reading: what one writer appends, a
//! reader at the same place decodes back.
use crate::codes::{code_at, delta_code, gamma_code, lemma_delta_unique, lemma_gamma_unique, lemma_unary_unique};
use crate::minimal_binary::{lemma_minimal_binary_unique, minimal_binary_code};
use crate::traits::{unary_at, unary_code};
use crate::bits::lemma_field_injective;
use crate::word::{lemma_words_bits_window, word_bits, words_bits};
use vstd::arithmetic::power2::lemma2_to64;
use crate::zeta::{lemma_zeta_unique, zeta_code, zeta_fits};
use vstd::prelude::*;

verus! {

/// The codes of this library.
pub enum Code {
    Unary,
    Gamma,
    Delta,
    /// Minimal binary over `[0, max)`.
    MinimalBinary(u64),
    /// ζ with parameter `k`.
    Zeta(u64),
}

/// The bits of `v` in code `c`.
pub open spec fn code_bits(c: Code, v: nat, m2l: bool) -> Seq<bool> {
    match c {
        Code::Unary => unary_code(v),
        Code::Gamma => gamma_code(v, m2l),
        Code::Delta => delta_code(v, m2l),
        Code::MinimalBinary(max) => minimal_binary_code(v, max as nat, m2l),
        Code::Zeta(k) => zeta_code(v, k as nat, m2l),
    }
}

/// Whether `v` can be written in code `c`.
pub open spec fn encodable(c: Code, v: nat) -> bool {
    match c {
        Code::MinimalBinary(max) => v < max,
        Code::Zeta(k) => zeta_fits(v, k as nat),
        _ => v < u64::MAX,
    }
}

/// The bits of a sequence of writes, each a code and a value, in order.
pub open spec fn encode_all(items: Seq<(Code, nat)>, m2l: bool) -> Seq<bool>
    decreases items.len(),
{
    if items.len() == 0 {
        Seq::empty()
    } else {
        encode_all(items.drop_last(), m2l) + code_bits(items.last().0, items.last().1, m2l)
    }
}

/// Whether a read of code `c` at `p` in `s` may return `w`: this is what the
/// read operations promise of their result.
pub open spec fn decodes(s: Seq<bool>, p: int, c: Code, w: nat, m2l: bool) -> bool {
    match c {
        Code::Unary => unary_at(s, p, w),
        _ => encodable(c, w) && code_at(s, p, code_bits(c, w, m2l)),
    }
}

/// Round trip, at any bit offset: where the code of `v` was written after any
/// bits and before any others, the code is there (so a read of it succeeds),
/// and a read there can only return `v`.
pub proof fn law_round_trip(before: Seq<bool>, c: Code, v: nat, after: Seq<bool>, m2l: bool, w: nat)
    requires
        encodable(c, v),
        decodes(before + code_bits(c, v, m2l) + after, before.len() as int, c, w, m2l),
    ensures
        decodes(before + code_bits(c, v, m2l) + after, before.len() as int, c, v, m2l),
        w == v,
{
    let code = code_bits(c, v, m2l);
    let s = before + code + after;
    let p = before.len() as int;
    assert(s.subrange(p, p + code.len()) =~= code);
    match c {
        Code::Unary => lemma_unary_unique(s, p, w, v),
        Code::Gamma => lemma_gamma_unique(s, p, w, v, m2l),
        Code::Delta => lemma_delta_unique(s, p, w, v, m2l),
        Code::MinimalBinary(max) => lemma_minimal_binary_unique(s, p, w, v, max as nat, m2l),
        Code::Zeta(k) => lemma_zeta_unique(s, p, w, v, k as nat, m2l),
    }
}

proof fn lemma_encode_append(a: Seq<(Code, nat)>, b: Seq<(Code, nat)>, m2l: bool)
    ensures
        encode_all(a + b, m2l) == encode_all(a, m2l) + encode_all(b, m2l),
    decreases b.len(),
{
    if b.len() == 0 {
        assert(a + b =~= a);
        assert(encode_all(a, m2l) + encode_all(b, m2l) =~= encode_all(a, m2l));
    } else {
        lemma_encode_append(a, b.drop_last(), m2l);
        assert((a + b).drop_last() =~= a + b.drop_last());
        assert(encode_all(a + b, m2l) =~= encode_all(a, m2l) + encode_all(b, m2l));
    }
}

/// A stream is self-delimiting: after any sequence of writes of any codes,
/// the `i`-th write stands right after the bits of the writes before it, so
/// reads in the same order return the values written, each read ending where
/// the next write began.
pub proof fn law_stream_round_trip(items: Seq<(Code, nat)>, after: Seq<bool>, m2l: bool, i: int, w: nat)
    requires
        0 <= i < items.len(),
        forall|j: int| 0 <= j < items.len() ==> encodable(#[trigger] items[j].0, items[j].1),
        decodes(
            encode_all(items, m2l) + after,
            encode_all(items.take(i), m2l).len() as int,
            items[i].0,
            w,
            m2l,
        ),
    ensures
        decodes(
            encode_all(items, m2l) + after,
            encode_all(items.take(i), m2l).len() as int,
            items[i].0,
            items[i].1,
            m2l,
        ),
        w == items[i].1,
        encode_all(items.take(i + 1), m2l).len() == encode_all(items.take(i), m2l).len()
            + code_bits(items[i].0, items[i].1, m2l).len(),
{
    let before = encode_all(items.take(i), m2l);
    let code = code_bits(items[i].0, items[i].1, m2l);
    let rest = encode_all(items.skip(i + 1), m2l);
    assert(items =~= items.take(i + 1) + items.skip(i + 1));
    lemma_encode_append(items.take(i + 1), items.skip(i + 1), m2l);
    assert(items.take(i + 1).drop_last() =~= items.take(i));
    assert(encode_all(items.take(i + 1), m2l) == before + code);
    assert(encode_all(items, m2l) + after =~= before + code + (rest + after));
    law_round_trip(before, items[i].0, items[i].1, rest + after, m2l, w);
}

/// Mirror: words whose bits are those of M2L words in reverse order within
/// each word hold, read L2M, the same bit string; so every unary code reads
/// the same from both.
pub proof fn law_mirror(m2l_words: Seq<u64>, l2m_words: Seq<u64>, p: int, n: nat)
    requires
        m2l_words.len() == l2m_words.len(),
        forall|i: int|
            0 <= i < m2l_words.len() ==> #[trigger] word_bits(m2l_words[i], true) == word_bits(
                l2m_words[i],
                false,
            ),
    ensures
        words_bits(m2l_words, true) == words_bits(l2m_words, false),
        unary_at(words_bits(m2l_words, true), p, n) == unary_at(words_bits(l2m_words, false), p, n),
{
    let a = words_bits(m2l_words, true);
    let b = words_bits(l2m_words, false);
    assert forall|k: int| 0 <= k < a.len() implies a[k] == b[k] by {
        assert(0 <= k / 64 < m2l_words.len()) by (nonlinear_arith)
            requires
                0 <= k < 64 * m2l_words.len(),
        ;
    }
    assert(a =~= b);
}

/// Words are determined by the bits they hold: two sinks whose streams hold
/// the same bits hold the same words. So two writers given the same bits,
/// whatever tables they used, leave the same words once released.
pub proof fn law_same_bits_same_words(a: Seq<u64>, b: Seq<u64>, m2l: bool)
    requires
        words_bits(a, m2l) == words_bits(b, m2l),
    ensures
        a == b,
{
    assert(words_bits(a, m2l).len() == 64 * a.len());
    assert(words_bits(b, m2l).len() == 64 * b.len());
    assert(a.len() == b.len()) by (nonlinear_arith)
        requires
            64 * a.len() == 64 * b.len(),
    ;
    assert forall|i: int| 0 <= i < a.len() implies a[i] == b[i] by {
        lemma_words_bits_window(a, m2l, i, 0, 64);
        lemma_words_bits_window(b, m2l, i, 0, 64);
        crate::bits::lemma_field_len(a[i] as nat, 64, m2l);
        crate::bits::lemma_field_len(b[i] as nat, 64, m2l);
        assert(word_bits(a[i], m2l).subrange(0, 64) =~= word_bits(a[i], m2l));
        assert(word_bits(b[i], m2l).subrange(0, 64) =~= word_bits(b[i], m2l));
        lemma2_to64();
        lemma_field_injective(a[i] as nat, b[i] as nat, 64, m2l);
    }
    assert(a =~= b);
}

} // verus!
