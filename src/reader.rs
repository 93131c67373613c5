//! A bit reader that reads the words it needs from a positionable word source
//! on every operation.
use crate::bits::{bit_of, field, lemma_field_len, lemma_lsb_concat, lemma_lsb_window, lemma_msb_concat, lemma_msb_window};
use crate::unary_tables;
use crate::traits::{BitOrder, BitRead, BitStreamError, WordRead, no_one_from, unary_at, unary_code};
use crate::word::{lemma_bit_u64, lemma_shl_bit, lemma_shr_bit, lemma_stream_bit, lemma_u64_mask, lemma_u64_shl_or, lemma_words_bits_window, lemma_words_bits_window2, word_bits, words_bits};
use vstd::arithmetic::div_mod::{lemma_fundamental_div_mod, lemma_small_mod};
use vstd::arithmetic::power2::{lemma2_to64, lemma_pow2_adds, lemma_pow2_pos, lemma_pow2_strictly_increases, pow2};
use vstd::bits::lemma_u64_shr_is_div;
use vstd::prelude::*;
use vstd::std_specs::bits::{axiom_u64_leading_zeros, axiom_u64_trailing_zeros};

verus! {

/// `x / 2^s` of a word is below `2^(64 - s)`.
proof fn lemma_u64_div_bound(x: u64, s: nat)
    requires
        s <= 64,
    ensures
        x as nat / pow2(s) < pow2((64 - s) as nat),
{
    lemma2_to64();
    lemma_pow2_pos(s);
    lemma_pow2_adds(s, (64 - s) as nat);
    assert((s + (64 - s) as nat) as nat == 64);
    lemma_fundamental_div_mod(x as int, pow2(s) as int);
    let q = x as nat / pow2(s);
    assert(q < pow2((64 - s) as nat)) by (nonlinear_arith)
        requires
            x < pow2(s) * pow2((64 - s) as nat),
            x as nat == pow2(s) * q + x as nat % pow2(s),
            x as nat % pow2(s) >= 0,
    ;
}

/// The `n` bits at `off` of one word, right-justified.
pub(crate) fn extract_one(w: u64, off: usize, n: usize, m2l: bool) -> (r: u64)
    requires
        0 < n <= 64,
        off + n <= 64,
    ensures
        r < pow2(n as nat),
        field(r as nat, n as nat, m2l) == word_bits(w, m2l).subrange(off as int, (off + n) as int),
{
    proof {
        lemma2_to64();
        lemma_field_len(w as nat, 64, m2l);
    }
    if n == 64 {
        proof {
            assert(word_bits(w, m2l).subrange(0, 64) =~= word_bits(w, m2l));
        }
        w
    } else if m2l {
        let s = (64 - off - n) as u64;
        proof {
            lemma_u64_shr_is_div(w, s);
            lemma_u64_mask(w >> s, n as u64);
            lemma_msb_window(w as nat, 64, off as nat, n as nat);
        }
        (w >> s) & ((1u64 << n as u64) - 1)
    } else {
        proof {
            lemma_u64_shr_is_div(w, off as u64);
            lemma_u64_mask(w >> off as u64, n as u64);
            lemma_lsb_window(w as nat, 64, off as nat, n as nat);
        }
        (w >> off as u64) & ((1u64 << n as u64) - 1)
    }
}

/// The `n` bits at `off` of two consecutive words, right-justified, where
/// they run from the first word into the second.
pub(crate) fn extract_two(first: u64, second: u64, off: usize, n: usize, m2l: bool) -> (r: u64)
    requires
        0 < off < 64,
        0 < n <= 64,
        off + n > 64,
    ensures
        r < pow2(n as nat),
        field(r as nat, n as nat, m2l) == (word_bits(first, m2l) + word_bits(second, m2l)).subrange(
            off as int,
            (off + n) as int,
        ),
{
    let h = 64 - off;
    let m = off + n - 64;
    proof {
        lemma2_to64();
        lemma_field_len(first as nat, 64, m2l);
        lemma_field_len(second as nat, 64, m2l);
        assert((word_bits(first, m2l) + word_bits(second, m2l)).subrange(off as int, (off + n) as int)
            =~= word_bits(first, m2l).subrange(off as int, 64) + word_bits(second, m2l).subrange(
            0,
            m as int,
        ));
        assert((h + m) as nat == n as nat);
        if n < 64 {
            lemma_pow2_strictly_increases(n as nat, 64);
        }
        assert(first as nat / 1 == first as nat);
        assert(second as nat / 1 == second as nat);
    }
    if m2l {
        proof {
            lemma_u64_mask(first, h as u64);
            lemma_msb_window(first as nat, 64, off as nat, h as nat);
            lemma_u64_shr_is_div(second, (64 - m) as u64);
            lemma_u64_div_bound(second, (64 - m) as nat);
            lemma_small_mod(second as nat / pow2((64 - m) as nat), pow2(m as nat));
            lemma_msb_window(second as nat, 64, 0, m as nat);
        }
        let a = first & ((1u64 << h as u64) - 1);
        let b = second >> (64 - m) as u64;
        proof {
            lemma_pow2_pos(m as nat);
            super::writer::lemma_shift_add_bound(a as nat, h as nat, 0, m as nat);
            super::writer::lemma_shift_add_bound(a as nat, h as nat, b as nat, m as nat);
            lemma_u64_shl_or(a, b, m as u64);
            lemma_msb_concat(a as nat, h as nat, b as nat, m as nat);
        }
        (a << m as u64) | b
    } else {
        proof {
            lemma_u64_shr_is_div(first, off as u64);
            lemma_u64_div_bound(first, off as nat);
            lemma_small_mod(first as nat / pow2(off as nat), pow2(h as nat));
            lemma_lsb_window(first as nat, 64, off as nat, h as nat);
            lemma_u64_mask(second, m as u64);
            lemma_lsb_window(second as nat, 64, 0, m as nat);
        }
        let a = first >> off as u64;
        let b = second & ((1u64 << m as u64) - 1);
        proof {
            lemma_pow2_pos(h as nat);
            super::writer::lemma_shift_add_bound(b as nat, m as nat, 0, h as nat);
            super::writer::lemma_shift_add_bound(b as nat, m as nat, a as nat, h as nat);
            assert((m + h) as nat == n as nat);
            lemma_u64_shl_or(b, a, h as u64);
            lemma_lsb_concat(a as nat, h as nat, b as nat, m as nat);
        }
        (b << h as u64) | a
    }
}

/// A bit reader over a word source `WR`, with bit order `BO`; it keeps only
/// the index of the next bit.
pub struct UnbufferedBitStreamRead<BO: BitOrder, WR: WordRead> {
    /// The source of words.
    data: WR,
    /// The index of the next bit to read.
    bit_idx: usize,
    _marker: core::marker::PhantomData<BO>,
}

impl<BO: BitOrder, WR: WordRead> UnbufferedBitStreamRead<BO, WR> {
    /// The bits of the source, in stream order.
    pub closed spec fn bits(&self) -> Seq<bool> {
        words_bits(self.data.words(), BO::spec_m2l())
    }

    /// The index of the next bit to read.
    pub closed spec fn pos(&self) -> nat {
        self.bit_idx as nat
    }

    pub closed spec fn wf(&self) -> bool {
        64 * self.data.words().len() <= usize::MAX
    }

    /// Creates a reader at the first bit of `data`.
    pub fn new(data: WR) -> (r: Self)
        requires
            64 * data.words().len() <= usize::MAX,
        ensures
            r.wf(),
            r.pos() == 0,
            r.bits() == words_bits(data.words(), BO::spec_m2l()),
    {
        Self { data, bit_idx: 0, _marker: core::marker::PhantomData }
    }

    /// The `n_bits` bits at the current position, right-justified; the
    /// position does not move.
    fn extract(&mut self, n_bits: usize) -> (r: Result<u64, BitStreamError>)
        requires
            old(self).wf(),
            0 < n_bits <= 64,
        ensures
            final(self).wf(),
            final(self).bits() == old(self).bits(),
            final(self).pos() == old(self).pos(),
            old(self).pos() + n_bits <= old(self).bits().len() ==> r is Ok && r->Ok_0 < pow2(
                n_bits as nat,
            ) && field(r->Ok_0 as nat, n_bits as nat, BO::spec_m2l()) == old(self).bits().subrange(
                old(self).pos() as int,
                old(self).pos() + n_bits,
            ),
            old(self).pos() + n_bits > old(self).bits().len() ==> r == Err::<u64, BitStreamError>(
                BitStreamError::UnexpectedEof,
            ),
    {
        let ghost m2l = BO::spec_m2l();
        let ghost ws = self.data.words();
        let word_idx = self.bit_idx / 64;
        let off = self.bit_idx % 64;
        self.data.set_position(word_idx);
        proof {
            lemma_field_len(0, 0, m2l);
            assert(self.bit_idx == 64 * word_idx + off);
            assert(old(self).bits().len() == 64 * ws.len());
        }
        if off + n_bits <= 64 {
            let w = match self.data.read_next_word() {
                Ok(w) => w,
                Err(e) => {
                    return Err(e);
                },
            };
            proof {
                lemma_words_bits_window(ws, m2l, word_idx as int, off as int, (off + n_bits) as int);
            }
            Ok(extract_one(w, off, n_bits, BO::is_m2l()))
        } else {
            let first = match self.data.read_next_word() {
                Ok(w) => w,
                Err(e) => {
                    return Err(e);
                },
            };
            let second = match self.data.read_next_word() {
                Ok(w) => w,
                Err(e) => {
                    return Err(e);
                },
            };
            proof {
                lemma_words_bits_window2(ws, m2l, word_idx as int, off as int, (off + n_bits) as int);
            }
            Ok(extract_two(first, second, off, n_bits, BO::is_m2l()))
        }
    }
}

/// Scans the stream of `data` from bit `bit_idx`, word by word, for the
/// end of a unary code, and returns how many zeros precede its one.
pub(crate) fn scan_unary<WR: WordRead>(data: &mut WR, bit_idx: usize, m2l_order: bool) -> (r: Result<u64, BitStreamError>)
    requires
        64 * old(data).words().len() <= usize::MAX,
    ensures
        final(data).words() == old(data).words(),
        r is Ok ==> unary_at(words_bits(old(data).words(), m2l_order), bit_idx as int, r->Ok_0 as nat),
        r is Err ==> r == Err::<u64, BitStreamError>(BitStreamError::UnexpectedEof),
        r is Err ==> no_one_from(words_bits(old(data).words(), m2l_order), bit_idx as int),
{
    let ghost m2l = m2l_order;
    let ghost ws = data.words();
    let ghost s = words_bits(ws, m2l);
    let ghost p = bit_idx as int;
    let word_idx = bit_idx / 64;
    let off = bit_idx % 64;
    data.set_position(word_idx);
    let w = match data.read_next_word() {
        Ok(w) => w,
        Err(e) => {
            proof {
                assert(s.len() == 64 * ws.len());
                assert(p >= s.len()) by (nonlinear_arith)
                    requires
                        p == 64 * word_idx + off,
                        word_idx >= ws.len(),
                        s.len() == 64 * ws.len(),
                        off >= 0,
                ;
            }
            return Err(e);
        },
    };
    let mut x: u64 = if m2l_order {
        w << off as u64
    } else {
        w >> off as u64
    };
    let mut bits_in_word: usize = 64 - off;
    let mut total: usize = 0;
    proof {
        assert forall|j: int| 0 <= j < bits_in_word implies #[trigger] s[p + j] == if m2l {
            bit_of(x as nat, (63 - j) as nat)
        } else {
            bit_of(x as nat, j as nat)
        } by {
            lemma_stream_bit(ws, m2l, word_idx as int, off + j);
            if m2l {
                lemma_shl_bit(w, off as u64, (63 - j) as u64);
            } else {
                lemma_shr_bit(w, off as u64, j as u64);
            }
        }
        assert(64 * (word_idx + 1) <= 64 * ws.len()) by (nonlinear_arith)
            requires
                word_idx < ws.len(),
        ;
    }
    loop
        invariant
            64 * ws.len() <= usize::MAX,
            data.words() == ws,
            ws == old(data).words(),
            p == bit_idx,
            s == words_bits(ws, m2l),
            m2l == m2l_order,
            s.len() == 64 * ws.len(),
            1 <= bits_in_word <= 64,
            p + total + bits_in_word == 64 * data.word_pos(),
            data.word_pos() <= ws.len(),
            forall|i: int| p <= i < p + total ==> !#[trigger] s[i],
            forall|j: int|
                0 <= j < bits_in_word ==> #[trigger] s[p + total + j] == if m2l {
                    bit_of(x as nat, (63 - j) as nat)
                } else {
                    bit_of(x as nat, j as nat)
                },
        decreases ws.len() - data.word_pos(),
    {
        let ghost q = p + total;
        let zeros: usize = if m2l_order {
            x.leading_zeros() as usize
        } else {
            x.trailing_zeros() as usize
        };
        proof {
            axiom_u64_leading_zeros(x);
            axiom_u64_trailing_zeros(x);
        }
        if zeros < bits_in_word {
            proof {
                assert(s[q + zeros as int]) by {
                    if m2l {
                        lemma_bit_u64(x, (63 - zeros) as u64);
                    } else {
                        lemma_bit_u64(x, zeros as u64);
                    }
                }
                assert forall|j: int| 0 <= j < zeros implies !#[trigger] s[q + j] by {
                    if m2l {
                        lemma_bit_u64(x, (63 - j) as u64);
                    } else {
                        lemma_bit_u64(x, j as u64);
                    }
                }
                let n = (total + zeros) as nat;
                assert(s.subrange(p, p + n + 1) =~= unary_code(n)) by {
                    assert forall|i: int| 0 <= i < n + 1 implies s.subrange(p, p + n + 1)[i]
                        == unary_code(n)[i] by {
                        if i < total {
                            assert(!s[p + i]);
                        } else {
                            assert(s[q + (i - total)] == (i == n));
                        }
                    }
                }
            }
            assert(unary_at(s, p, (total + zeros) as nat));
            return Ok((total + zeros) as u64);
        }
        proof {
            assert forall|i: int| p <= i < q + bits_in_word implies !#[trigger] s[i] by {
                if i >= q {
                    let j = i - q;
                    if m2l {
                        lemma_bit_u64(x, (63 - j) as u64);
                    } else {
                        lemma_bit_u64(x, j as u64);
                    }
                    assert(s[q + j] == s[i]);
                }
            }
        }
        total += bits_in_word;
        bits_in_word = 64;
        let ghost c = data.word_pos();
        x = match data.read_next_word() {
            Ok(w) => w,
            Err(e) => {
                proof {
                    assert(p + total == s.len());
                    assert forall|i: int| p <= i < s.len() implies !#[trigger] s[i] by {}
                }
                return Err(e);
            },
        };
        proof {
            assert(p + total == 64 * c);
            assert forall|j: int| 0 <= j < bits_in_word implies #[trigger] s[p + total + j]
                == if m2l {
                bit_of(x as nat, (63 - j) as nat)
            } else {
                bit_of(x as nat, j as nat)
            } by {
                lemma_stream_bit(ws, m2l, c as int, j);
            }
        }
    }
}

impl<BO: BitOrder, WR: WordRead> BitRead<BO> for UnbufferedBitStreamRead<BO, WR> {
    open spec fn stream(&self) -> Seq<bool> {
        self.bits()
    }

    open spec fn position(&self) -> nat {
        self.pos()
    }

    open spec fn ready(&self) -> bool {
        self.wf()
    }

    proof fn lemma_ready(&self) {
    }

    fn read_bits(&mut self, n_bits: usize) -> (r: Result<u64, BitStreamError>)
    {
        if n_bits > 64 {
            return Err(BitStreamError::BitWidth);
        }
        if n_bits == 0 {
            return Ok(0);
        }
        let res = match self.extract(n_bits) {
            Ok(v) => v,
            Err(e) => {
                return Err(e);
            },
        };
        self.bit_idx += n_bits;
        Ok(res)
    }

    fn peek_bits(&mut self, n_bits: usize) -> (r: Result<u32, BitStreamError>)
    {
        if n_bits > 32 {
            return Err(BitStreamError::BitWidth);
        }
        if n_bits == 0 {
            return Ok(0);
        }
        let res = match self.extract(n_bits) {
            Ok(v) => v,
            Err(e) => {
                return Err(e);
            },
        };
        proof {
            lemma2_to64();
            if n_bits < 32 {
                lemma_pow2_strictly_increases(n_bits as nat, 32);
            }
        }
        Ok(res as u32)
    }

    fn skip_bits(&mut self, n_bits: usize) -> (r: Result<(), BitStreamError>)
    {
        self.bit_idx += n_bits;
        Ok(())
    }

    fn skip_bits_after_table_lookup(&mut self, n_bits: usize) -> (r: Result<
        (),
        BitStreamError,
    >)
    {
        self.skip_bits(n_bits)
    }

    fn get_position(&self) -> (r: usize)
    {
        self.bit_idx
    }

    fn seek_bit(&mut self, bit_index: usize) -> (r: Result<(), BitStreamError>)
    {
        self.bit_idx = bit_index;
        Ok(())
    }

    fn read_unary<const USE_TABLE: bool>(&mut self) -> (r: Result<u64, BitStreamError>) {
        if USE_TABLE {
            let ghost s = self.bits();
            let ghost p = self.bit_idx as int;
            if let Ok(window) = self.peek_bits(unary_tables::READ_BITS) {
                proof {
                    lemma2_to64();
                }
                if let Some((value, len)) = unary_tables::read_entry(window, BO::is_m2l()) {
                    proof {
                        assert(s.subrange(p, p + len) =~= s.subrange(p, p + 5).subrange(0, len as int));
                    }
                    self.bit_idx += len;
                    return Ok(value);
                }
            }
        }
        let r = scan_unary(&mut self.data, self.bit_idx, BO::is_m2l());
        if let Ok(z) = r {
            proof {
                assert(self.bits().len() <= usize::MAX);
            }
            self.bit_idx += (z as usize) + 1;
        }
        r
    }
}

} // verus!
