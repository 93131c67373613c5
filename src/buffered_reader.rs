//! A bit reader that keeps the last word it read from its source, so that
//! reads within one word go to the source once.
use crate::bits::field;
use crate::reader::{extract_one, extract_two, scan_unary};
use crate::traits::{BitOrder, BitRead, BitStreamError, WordRead, no_one_from, unary_at};
use crate::unary_tables;
use crate::word::{lemma_words_bits_window, lemma_words_bits_window2, words_bits};
use vstd::arithmetic::power2::{lemma2_to64, lemma_pow2_strictly_increases, pow2};
use vstd::prelude::*;

verus! {

/// A bit reader over a word source `WR`, with bit order `BO`, that keeps the
/// last word read.
pub struct BufferedBitStreamRead<BO: BitOrder, WR: WordRead> {
    /// The source of words.
    data: WR,
    /// The index of the next bit to read.
    bit_idx: usize,
    /// The last word read from the source.
    cached_word: u64,
    /// One more than the index of `cached_word` in the source; 0 before any read.
    cached_index: usize,
    _marker: core::marker::PhantomData<BO>,
}

impl<BO: BitOrder, WR: WordRead> BufferedBitStreamRead<BO, WR> {
    /// The bits of the source, in stream order.
    pub closed spec fn bits(&self) -> Seq<bool> {
        words_bits(self.data.words(), BO::spec_m2l())
    }

    /// The index of the next bit to read.
    pub closed spec fn pos(&self) -> nat {
        self.bit_idx as nat
    }

    pub closed spec fn wf(&self) -> bool {
        &&& 64 * self.data.words().len() <= usize::MAX
        &&& self.cached_index > 0 ==> self.cached_index - 1 < self.data.words().len()
            && self.cached_word == self.data.words()[self.cached_index - 1]
    }

    /// Creates a reader at the first bit of `data`.
    pub fn new(data: WR) -> (r: Self)
        requires
            64 * data.words().len() <= usize::MAX,
        ensures
            r.wf(),
            r.pos() == 0,
            r.bits() == words_bits(data.words(), BO::spec_m2l()),
    {
        Self { data, bit_idx: 0, cached_word: 0, cached_index: 0, _marker: core::marker::PhantomData }
    }

    /// Word `idx` of the source, from the kept word where it is that one.
    fn word_at(&mut self, idx: usize) -> (r: Result<u64, BitStreamError>)
        requires
            old(self).wf(),
        ensures
            final(self).wf(),
            final(self).data.words() == old(self).data.words(),
            final(self).bits() == old(self).bits(),
            final(self).pos() == old(self).pos(),
            idx < old(self).data.words().len() ==> r == Ok::<u64, BitStreamError>(
                old(self).data.words()[idx as int],
            ),
            idx >= old(self).data.words().len() ==> r == Err::<u64, BitStreamError>(
                BitStreamError::UnexpectedEof,
            ),
    {
        if self.cached_index > 0 && self.cached_index - 1 == idx {
            return Ok(self.cached_word);
        }
        self.data.set_position(idx);
        match self.data.read_next_word() {
            Ok(w) => {
                self.cached_word = w;
                self.cached_index = idx + 1;
                Ok(w)
            },
            Err(e) => Err(e),
        }
    }

    /// The `n_bits` bits at the current position, right-justified; the
    /// position does not move.
    fn extract(&mut self, n_bits: usize) -> (r: Result<u64, BitStreamError>)
        requires
            old(self).wf(),
            0 < n_bits <= 64,
        ensures
            final(self).wf(),
            final(self).bits() == old(self).bits(),
            final(self).pos() == old(self).pos(),
            old(self).pos() + n_bits <= old(self).bits().len() ==> r is Ok && r->Ok_0 < pow2(
                n_bits as nat,
            ) && field(r->Ok_0 as nat, n_bits as nat, BO::spec_m2l()) == old(self).bits().subrange(
                old(self).pos() as int,
                old(self).pos() + n_bits,
            ),
            old(self).pos() + n_bits > old(self).bits().len() ==> r == Err::<u64, BitStreamError>(
                BitStreamError::UnexpectedEof,
            ),
    {
        let ghost m2l = BO::spec_m2l();
        let ghost ws = self.data.words();
        let word_idx = self.bit_idx / 64;
        let off = self.bit_idx % 64;
        proof {
            assert(self.bit_idx == 64 * word_idx + off);
            assert(old(self).bits().len() == 64 * ws.len());
            if self.bit_idx + n_bits <= 64 * ws.len() {
                assert(word_idx < ws.len()) by (nonlinear_arith)
                    requires
                        self.bit_idx + n_bits <= 64 * ws.len(),
                        self.bit_idx == 64 * word_idx + off,
                        n_bits >= 1,
                        off >= 0,
                ;
                if off + n_bits > 64 {
                    assert(word_idx + 1 < ws.len()) by (nonlinear_arith)
                        requires
                            self.bit_idx + n_bits <= 64 * ws.len(),
                            self.bit_idx == 64 * word_idx + off,
                            off + n_bits > 64,
                    ;
                }
            }
        }
        if off + n_bits <= 64 {
            let w = match self.word_at(word_idx) {
                Ok(w) => w,
                Err(e) => {
                    return Err(e);
                },
            };
            proof {
                assert(w == ws[word_idx as int]);
                lemma_words_bits_window(ws, m2l, word_idx as int, off as int, (off + n_bits) as int);
            }
            Ok(extract_one(w, off, n_bits, BO::is_m2l()))
        } else {
            let first = match self.word_at(word_idx) {
                Ok(w) => w,
                Err(e) => {
                    return Err(e);
                },
            };
            let second = match self.word_at(word_idx + 1) {
                Ok(w) => w,
                Err(e) => {
                    return Err(e);
                },
            };
            proof {
                assert(first == ws[word_idx as int]);
                assert(second == ws[word_idx + 1]);
                lemma_words_bits_window2(ws, m2l, word_idx as int, off as int, (off + n_bits) as int);
            }
            Ok(extract_two(first, second, off, n_bits, BO::is_m2l()))
        }
    }
}

impl<BO: BitOrder, WR: WordRead> BitRead<BO> for BufferedBitStreamRead<BO, WR> {
    open spec fn stream(&self) -> Seq<bool> {
        self.bits()
    }

    open spec fn position(&self) -> nat {
        self.pos()
    }

    open spec fn ready(&self) -> bool {
        self.wf()
    }

    proof fn lemma_ready(&self) {
    }

    fn read_bits(&mut self, n_bits: usize) -> (r: Result<u64, BitStreamError>)
    {
        if n_bits > 64 {
            return Err(BitStreamError::BitWidth);
        }
        if n_bits == 0 {
            return Ok(0);
        }
        let res = match self.extract(n_bits) {
            Ok(v) => v,
            Err(e) => {
                return Err(e);
            },
        };
        self.bit_idx += n_bits;
        Ok(res)
    }

    fn peek_bits(&mut self, n_bits: usize) -> (r: Result<u32, BitStreamError>)
    {
        if n_bits > 32 {
            return Err(BitStreamError::BitWidth);
        }
        if n_bits == 0 {
            return Ok(0);
        }
        let res = match self.extract(n_bits) {
            Ok(v) => v,
            Err(e) => {
                return Err(e);
            },
        };
        proof {
            lemma2_to64();
            if n_bits < 32 {
                lemma_pow2_strictly_increases(n_bits as nat, 32);
            }
        }
        Ok(res as u32)
    }

    fn skip_bits(&mut self, n_bits: usize) -> (r: Result<(), BitStreamError>)
    {
        self.bit_idx += n_bits;
        Ok(())
    }

    fn skip_bits_after_table_lookup(&mut self, n_bits: usize) -> (r: Result<
        (),
        BitStreamError,
    >)
    {
        self.skip_bits(n_bits)
    }

    fn get_position(&self) -> (r: usize)
    {
        self.bit_idx
    }

    fn seek_bit(&mut self, bit_index: usize) -> (r: Result<(), BitStreamError>)
    {
        self.bit_idx = bit_index;
        Ok(())
    }

    fn read_unary<const USE_TABLE: bool>(&mut self) -> (r: Result<u64, BitStreamError>) {
        if USE_TABLE {
            let ghost s = self.bits();
            let ghost p = self.bit_idx as int;
            if let Ok(window) = self.peek_bits(unary_tables::READ_BITS) {
                proof {
                    lemma2_to64();
                }
                if let Some((value, len)) = unary_tables::read_entry(window, BO::is_m2l()) {
                    proof {
                        assert(s.subrange(p, p + len) =~= s.subrange(p, p + 5).subrange(0, len as int));
                    }
                    self.bit_idx += len;
                    return Ok(value);
                }
            }
        }
        let r = scan_unary(&mut self.data, self.bit_idx, BO::is_m2l());
        if let Ok(z) = r {
            proof {
                assert(self.bits().len() <= usize::MAX);
            }
            self.bit_idx += (z as usize) + 1;
        }
        r
    }
}

} // verus!
