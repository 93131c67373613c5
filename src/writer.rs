//! A bit writer that stages bits in a 128-bit register and hands full 64-bit
//! words to a word sink.
use crate::bits::{bits_lsb, bits_msb, field, lemma_field_len, lemma_field_zero, lemma_lsb_concat, lemma_lsb_split, lemma_msb_concat, lemma_msb_split, zeros};
use crate::unary_tables;
use crate::traits::{BitOrder, BitStreamError, BitWrite, WordWrite, unary_code};
use crate::word::{lemma_pow2_u128, lemma_u128_shl, lemma_u128_shl_or, lemma_words_bits_push, word_bits, words_bits};
use vstd::arithmetic::div_mod::{lemma_div_denominator, lemma_fundamental_div_mod_converse, lemma_fundamental_div_mod, lemma_small_mod};
use vstd::arithmetic::mul::{lemma_mul_basics, lemma_mul_is_associative, lemma_mul_is_commutative, lemma_mul_strict_inequality};
use vstd::arithmetic::power2::{lemma2_to64, lemma2_to64_rest, lemma_pow2_adds, lemma_pow2_pos, lemma_pow2_strictly_increases, lemma_pow2_unfold, pow2};
use vstd::bits::lemma_u128_shr_is_div;
use vstd::prelude::*;

verus! {

/// A bit writer over a word sink `WR`, with bit order `BO`.
///
/// Release it with `into_inner`, which flushes the staged bits; a writer
/// dropped without it loses the bits staged since its last whole word, as a
/// verified drop could not call a sink that may fail.
pub struct BufferedBitStreamWrite<BO: BitOrder, WR: WordWrite> {
    /// The sink that receives full words.
    backend: WR,
    /// Staged bits: the low `bits_in_buffer` bits for M2L, the high ones for L2M.
    buffer: u128,
    /// How many bits of `buffer` are staged.
    bits_in_buffer: usize,
    _marker: core::marker::PhantomData<BO>,
}

/// How many zero bits complete `k` bits to a whole number of words.
pub open spec fn pad_to_word(k: nat) -> nat {
    if k % 64 == 0 {
        0
    } else {
        (64 - k % 64) as nat
    }
}

proof fn lemma_low_word(x: u128)
    ensures
        (x & 0xFFFF_FFFF_FFFF_FFFFu128) == x % 0x1_0000_0000_0000_0000u128,
        (x & 0xFFFF_FFFF_FFFF_FFFFu128) < 0x1_0000_0000_0000_0000u128,
{
    assert((x & 0xFFFF_FFFF_FFFF_FFFFu128) == x % 0x1_0000_0000_0000_0000u128) by (bit_vector);
}

/// `x < 2^a` and `y < 2^b` give `x * 2^b + y < 2^(a + b)`.
pub(crate) proof fn lemma_shift_add_bound(x: nat, a: nat, y: nat, b: nat)
    requires
        x < pow2(a),
        y < pow2(b),
    ensures
        x * pow2(b) + y < pow2(a + b),
{
    lemma_pow2_adds(a, b);
    let pa = pow2(a);
    let pb = pow2(b);
    assert(x * pb + y < pa * pb) by (nonlinear_arith)
        requires
            x < pa,
            y < pb,
    ;
}

/// The field of `1` is a one after zeros, in both orders.
pub(crate) proof fn lemma_one_field(c: nat)
    requires
        c >= 1,
    ensures
        bits_msb(1, c) == zeros((c - 1) as nat).push(true),
        bits_lsb(pow2((c - 1) as nat), c) == zeros((c - 1) as nat).push(true),
{
    lemma2_to64();
    lemma_pow2_pos((c - 1) as nat);
    lemma_field_len(0, (c - 1) as nat, true);
    lemma_field_len(0, 0, true);
    lemma_msb_concat(0, (c - 1) as nat, 1, 1);
    lemma_lsb_concat(0, (c - 1) as nat, 1, 1);
    lemma_field_zero((c - 1) as nat, true);
    lemma_mul_basics(pow2((c - 1) as nat) as int);
    lemma_mul_basics(2);
    assert(bits_msb(0, (c - 1) as nat) + bits_msb(1, 1) =~= zeros((c - 1) as nat).push(true));
    assert(bits_lsb(0, (c - 1) as nat) + bits_lsb(1, 1) =~= zeros((c - 1) as nat).push(true));
    assert((c - 1) as nat + 1 == c);
}

/// The staged part of an L2M register: its high `k` bits.
pub open spec fn l2m_staged(buffer: u128, k: nat) -> nat {
    buffer as nat / pow2((128 - k) as nat)
}

proof fn lemma_l2m_staged_bound(buffer: u128, k: nat)
    requires
        k <= 128,
    ensures
        l2m_staged(buffer, k) < pow2(k),
{
    let d = pow2((128 - k) as nat);
    lemma_pow2_pos((128 - k) as nat);
    lemma2_to64();
    lemma2_to64_rest();
    lemma_pow2_adds(64, 64);
    lemma_pow2_adds(k, (128 - k) as nat);
    assert((k + (128 - k) as nat) as nat == 128);
    let q = buffer as nat / d;
    lemma_fundamental_div_mod(buffer as int, d as int);
    assert(q < pow2(k)) by (nonlinear_arith)
        requires
            buffer < pow2(k) * d,
            buffer as nat == d * q + buffer as nat % d,
            d > 0,
    ;
}

/// Shifting an L2M register right by `n` and putting `v` in the top `n` bits
/// appends the `n`-bit field of `v` to the staged bits.
proof fn lemma_l2m_append(buffer: u128, k: nat, n: nat, v: nat)
    requires
        1 <= n,
        k + n <= 128,
        v < pow2(n),
    ensures
        (buffer as nat / pow2(n) + v * pow2((128 - n) as nat)) / pow2((128 - k - n) as nat)
            == l2m_staged(buffer, k) + v * pow2(k),
        buffer as nat / pow2(n) < pow2((128 - n) as nat),
{
    let r = (128 - k - n) as nat;
    let d = pow2(r);
    let s = buffer as nat / pow2(n);
    lemma_pow2_pos(n);
    lemma_pow2_pos(r);
    lemma_pow2_pos(k);
    lemma_div_denominator(buffer as int, pow2(n) as int, d as int);
    lemma_pow2_adds(n, r);
    assert((n + r) as nat == (128 - k) as nat);
    lemma_pow2_adds(k, r);
    assert((k + r) as nat == (128 - n) as nat);
    lemma_mul_is_associative(v as int, pow2(k) as int, d as int);
    let m = v * pow2(k);
    lemma_fundamental_div_mod(s as int, d as int);
    assert(s + v * pow2((128 - n) as nat) == (m + s / d) * d + s % d) by (nonlinear_arith)
        requires
            s == d * (s / d) + s % d,
            v * pow2((128 - n) as nat) == m * d,
    ;
    lemma_fundamental_div_mod_converse((s + v * pow2((128 - n) as nat)) as int, d as int, (m + s / d) as int, (s % d) as int);
    lemma_l2m_staged_bound(buffer, (128 - n) as nat);
    assert(l2m_staged(buffer, (128 - n) as nat) == s);
}

impl<BO: BitOrder, WR: WordWrite> BufferedBitStreamWrite<BO, WR> {
    /// The bits staged in the register, in stream order.
    pub closed spec fn staged(&self) -> Seq<bool> {
        if BO::spec_m2l() {
            bits_msb(self.buffer as nat, self.bits_in_buffer as nat)
        } else {
            bits_lsb(l2m_staged(self.buffer, self.bits_in_buffer as nat), self.bits_in_buffer as nat)
        }
    }

    /// Every bit written so far, in stream order: those in the sink, then the staged ones.
    pub closed spec fn bits(&self) -> Seq<bool> {
        words_bits(self.backend.written(), BO::spec_m2l()) + self.staged()
    }

    /// How many written bits are still staged.
    pub closed spec fn pending(&self) -> nat {
        self.bits_in_buffer as nat
    }

    /// The sink.
    pub closed spec fn sink(&self) -> WR {
        self.backend
    }

    /// The staged bits are where the bit order puts them, at most 128 of them.
    pub closed spec fn staging_ok(&self) -> bool {
        &&& self.bits_in_buffer <= 128
        &&& BO::spec_m2l() ==> self.buffer < pow2(self.bits_in_buffer as nat)
    }

    /// Between operations fewer than 128 bits are staged: a full register is
    /// flushed at once.
    pub closed spec fn wf(&self) -> bool {
        &&& self.staging_ok()
        &&& self.bits_in_buffer < 128
    }

    /// Creates a writer that appends to `backend`.
    pub fn new(backend: WR) -> (r: Self)
        ensures
            r.wf(),
            r.pending() == 0,
            r.sink() == backend,
            r.bits() == words_bits(backend.written(), BO::spec_m2l()),
    {
        let r = Self { backend, buffer: 0, bits_in_buffer: 0, _marker: core::marker::PhantomData };
        proof {
            lemma2_to64();
            lemma_field_len(0, 0, true);
            lemma_field_len(l2m_staged(0, 0), 0, false);
            assert(r.staged() =~= Seq::<bool>::empty());
            assert(r.bits() =~= words_bits(backend.written(), BO::spec_m2l()));
        }
        r
    }

    #[inline(always)]
    fn space_left_in_buffer(&self) -> (r: usize)
        requires
            self.wf(),
        ensures
            r == 128 - self.bits_in_buffer,
    {
        128 - self.bits_in_buffer
    }

    /// The sink, for reading what was written.
    pub fn backend(&self) -> (r: &WR)
        ensures
            *r == self.sink(),
    {
        &self.backend
    }

    /// Releases the writer and gives the sink back, after a last flush; an
    /// error of that flush is dropped, as nothing could receive it. To see
    /// such an error, call `flush` first.
    pub fn into_inner(self) -> (r: WR)
        requires
            self.wf(),
        ensures
            r.infallible() == self.sink().infallible(),
            self.sink().infallible() ==> words_bits(r.written(), BO::spec_m2l()) == self.bits()
                + zeros(pad_to_word(self.pending())),
            self.sink().infallible() ==> r.written().len() == self.sink().written().len() + (
            self.pending() + 63) / 64,
            self.pending() == 0 ==> r == self.sink(),
    {
        let mut w = self;
        let _ = w.flush();
        w.backend
    }

    proof fn lemma_staged_len(&self)
        requires
            self.staging_ok(),
        ensures
            self.staged().len() == self.bits_in_buffer,
    {
        lemma_field_len(self.buffer as nat, self.bits_in_buffer as nat, true);
        lemma_field_len(
            l2m_staged(self.buffer, self.bits_in_buffer as nat),
            self.bits_in_buffer as nat,
            false,
        );
    }

    /// Hands one full word to the sink when at least 64 bits are staged.
    /// `partial_flush`, from a register that may be full.
    fn flush_full_word(&mut self) -> (r: Result<(), BitStreamError>)
        requires
            old(self).staging_ok(),
        ensures
            final(self).wf(),
            old(self).pending() < 64 ==> r is Ok && *final(self) == *old(self),
            r is Ok ==> final(self).bits() == old(self).bits(),
            r is Ok ==> final(self).pending() == if old(self).pending() >= 64 {
                (old(self).pending() - 64) as nat
            } else {
                old(self).pending()
            },
            r is Err ==> r == Err::<(), BitStreamError>(BitStreamError::BackendIo),
            final(self).sink().infallible() == old(self).sink().infallible(),
            old(self).sink().infallible() ==> r is Ok,
            final(self).sink().written().len() <= old(self).sink().written().len() + 1,
            final(self).pending() <= old(self).pending(),
            r is Ok && old(self).pending() >= 64 ==> final(self).sink().written().len() == old(
                self,
            ).sink().written().len() + 1,
            r is Ok && old(self).pending() >= 64 ==> words_bits(
                final(self).sink().written(),
                BO::spec_m2l(),
            ) == old(self).bits().subrange(0, 64 * (old(self).sink().written().len() + 1) as int),
    {
        if self.bits_in_buffer < 64 {
            return Ok(());
        }
        let ghost old_bits = self.bits();
        let ghost k = self.bits_in_buffer as nat;
        let ghost m2l = BO::spec_m2l();
        let word: u64;
        if BO::is_m2l() {
            self.bits_in_buffer -= 64;
            let b = self.bits_in_buffer;
            proof {
                lemma_u128_shr_is_div(self.buffer, b as u128);
                lemma_pow2_pos(b as nat);
                lemma_pow2_adds(64, b as nat);
                lemma2_to64();
                lemma_fundamental_div_mod(self.buffer as int, pow2(b as nat) as int);
                let q = self.buffer as nat / pow2(b as nat);
                assert(q < pow2(64)) by (nonlinear_arith)
                    requires
                        self.buffer < pow2(64) * pow2(b as nat),
                        self.buffer as nat == pow2(b as nat) * q + self.buffer as nat % pow2(b as nat),
                ;
                lemma_msb_split(self.buffer as nat, 64, b as nat);
                lemma_mul_is_commutative(pow2(b as nat) as int, q as int);
                lemma_pow2_u128(b as nat);
                lemma_u128_shl(q as u128, b as u128);
            }
            word = (self.buffer >> b) as u64;
            // keep only the bits still staged
            self.buffer = self.buffer - ((word as u128) << b);
            proof {
                lemma_pow2_pos(b as nat);
                assert(self.buffer < pow2(b as nat));
            }
        } else {
            let b = self.bits_in_buffer;
            proof {
                lemma_u128_shr_is_div(self.buffer, (128 - b) as u128);
                lemma_low_word(self.buffer >> ((128 - b) as u128));
            }
            word = ((self.buffer >> (128 - b)) & 0xFFFF_FFFF_FFFF_FFFF) as u64;
            self.bits_in_buffer -= 64;
            proof {
                let s = l2m_staged(self.buffer, k);
                lemma2_to64();
                lemma2_to64_rest();
                lemma_lsb_split(s, 64, (k - 64) as nat);
                lemma_div_denominator(self.buffer as int, pow2((128 - k) as nat) as int, pow2(64) as int);
                lemma_pow2_pos((128 - k) as nat);
                lemma_pow2_adds((128 - k) as nat, 64);
                assert(((128 - k) as nat + 64) as nat == (128 - (k - 64)) as nat);
            }
        }
        let ghost mid = self.backend.written();
        let r = self.backend.write_word(word);
        proof {
            if r is Ok {
                lemma_words_bits_push(mid, word, m2l);
                lemma_field_len(word as nat, 64, m2l);
                assert(self.bits() =~= old_bits);
                let wb = words_bits(self.backend.written(), m2l);
                assert(wb.len() == 64 * (mid.len() + 1));
                assert(old_bits.subrange(0, wb.len() as int) =~= wb);
            }
        }
        r
    }

    /// Hands one full word, the oldest 64 staged bits, to the sink when at
    /// least 64 bits are staged.
    pub fn partial_flush(&mut self) -> (r: Result<(), BitStreamError>)
        requires
            old(self).wf(),
        ensures
            final(self).wf(),
            old(self).pending() < 64 ==> r is Ok && *final(self) == *old(self),
            r is Ok ==> final(self).bits() == old(self).bits(),
            r is Ok ==> final(self).pending() == if old(self).pending() >= 64 {
                (old(self).pending() - 64) as nat
            } else {
                old(self).pending()
            },
            r is Err ==> r == Err::<(), BitStreamError>(BitStreamError::BackendIo),
            final(self).sink().infallible() == old(self).sink().infallible(),
            old(self).sink().infallible() ==> r is Ok,
            final(self).sink().written().len() <= old(self).sink().written().len() + 1,
            r is Ok && old(self).pending() >= 64 ==> final(self).sink().written().len() == old(
                self,
            ).sink().written().len() + 1,
            r is Ok && old(self).pending() >= 64 ==> words_bits(
                final(self).sink().written(),
                BO::spec_m2l(),
            ) == old(self).bits().subrange(0, 64 * (old(self).sink().written().len() + 1) as int),
    {
        self.flush_full_word()
    }

    /// Everything written is the sink's words followed by fewer than 128
    /// staged bits.
    pub proof fn lemma_bits_len(&self)
        requires
            self.wf(),
        ensures
            self.bits().len() == 64 * self.sink().written().len() + self.pending(),
            self.pending() < 128,
    {
        self.lemma_staged_len();
    }

    proof fn lemma_bits_append(&self, old_self: Self, tail: Seq<bool>)
        requires
            self.backend.written() == old_self.backend.written(),
            self.staged() == old_self.staged() + tail,
        ensures
            self.bits() == old_self.bits() + tail,
    {
        assert(self.bits() =~= old_self.bits() + tail);
    }

    /// The staged bits followed by zeros up to 128 bits, as two words.
    fn spill_words(&self) -> (r: (u64, u64))
        requires
            self.wf(),
            pow2(64) == 0x1_0000_0000_0000_0000,
            pow2(128) == pow2(64) * pow2(64),
        ensures
            word_bits(r.0, BO::spec_m2l()) + word_bits(r.1, BO::spec_m2l()) == self.staged() + zeros(
                (128 - self.bits_in_buffer) as nat,
            ),
    {
        let space_left = 128 - self.bits_in_buffer;
        let ghost k = self.bits_in_buffer as nat;
        let ghost m2l = BO::spec_m2l();
        let ghost before = *self;
            let first: u64;
            let second: u64;
            proof {
                self.lemma_staged_len();
            }
            if space_left == 128 {
                first = 0;
                second = 0;
                proof {
                    lemma_field_zero(64, m2l);
                    assert(zeros(64) + zeros(64) =~= self.staged() + zeros(128));
                }
            } else if BO::is_m2l() {
                proof {
                    lemma_pow2_u128(space_left as nat);
                    lemma_pow2_pos(space_left as nat);
                    lemma_shift_add_bound(self.buffer as nat, k, 0, space_left as nat);
                    assert((k + space_left as nat) as nat == 128);
                    lemma_u128_shl(self.buffer, space_left as u128);
                    lemma_msb_concat(self.buffer as nat, k, 0, space_left as nat);
                    lemma_field_zero(space_left as nat, true);
                }
                let x = self.buffer << space_left as u128;
                proof {
                    lemma_u128_shr_is_div(x, 64);
                    lemma_low_word(x);
                    lemma_msb_split(x as nat, 64, 64);
                    lemma_pow2_pos(64);
                    vstd::arithmetic::div_mod::lemma_div_by_multiple_is_strongly_ordered(
                        x as int, pow2(128) as int, pow2(64) as int, pow2(64) as int);
                    lemma_mul_strict_inequality(0, 1, 1);
                }
                first = (x >> 64u128) as u64;
                second = (x & 0xFFFF_FFFF_FFFF_FFFF) as u64;
                proof {
                    assert(x as nat / pow2(64) < pow2(64)) by {
                        lemma_fundamental_div_mod(x as int, pow2(64) as int);
                    }
                }
            } else {
                proof {
                    lemma_u128_shr_is_div(self.buffer, space_left as u128);
                    lemma_l2m_staged_bound(self.buffer, k);
                    lemma_lsb_concat(l2m_staged(self.buffer, k), k, 0, space_left as nat);
                    lemma_mul_basics(pow2(k) as int);
                    lemma_field_zero(space_left as nat, false);
                    assert((k + space_left as nat) as nat == 128);
                }
                let x = self.buffer >> space_left as u128;
                proof {
                    lemma_u128_shr_is_div(x, 64);
                    lemma_low_word(x);
                    lemma_lsb_split(x as nat, 64, 64);
                    assert(x as nat / pow2(64) < pow2(64)) by {
                        lemma_fundamental_div_mod(x as int, pow2(64) as int);
                        assert(x < pow2(128));
                        assert(x as nat / pow2(64) < pow2(64)) by (nonlinear_arith)
                            requires
                                x < pow2(64) * pow2(64),
                                x as nat == pow2(64) * (x as nat / pow2(64)) + x as nat % pow2(64),
                                x as nat % pow2(64) >= 0,
                        ;
                    }
                }
                first = (x & 0xFFFF_FFFF_FFFF_FFFF) as u64;
                second = (x >> 64u128) as u64;
            }
            proof {
                assert(word_bits(first, m2l) + word_bits(second, m2l) == before.staged() + zeros(
                    space_left as nat,
                ));
            }
        (first, second)
    }

    /// Writes the unary code of `value` (`value` zeros, then a one), however
    /// long it is.
    fn write_unary_code(&mut self, value: u64) -> (r: Result<(), BitStreamError>)
        requires
            old(self).wf(),
        ensures
            final(self).wf(),
            value == u64::MAX ==> r == Err::<(), BitStreamError>(BitStreamError::ValueOverflow),
            r is Err && value < u64::MAX ==> r == Err::<(), BitStreamError>(
                BitStreamError::BackendIo,
            ),
            r is Ok ==> final(self).bits() == old(self).bits() + unary_code(value as nat),
            value < u64::MAX && old(self).pending() + value + 1 < 128 ==> r is Ok,
            final(self).sink().infallible() == old(self).sink().infallible(),
            old(self).sink().infallible() && value < u64::MAX ==> r is Ok,
            value == u64::MAX ==> *final(self) == *old(self),
            r is Ok && old(self).pending() + value + 1 < 128 ==> final(self).pending() == old(
                self,
            ).pending() + value + 1,
    {
        if value == u64::MAX {
            return Err(BitStreamError::ValueOverflow);
        }
        let ghost start = self.bits();
        let ghost m2l = BO::spec_m2l();
        proof {
            lemma2_to64();
            lemma2_to64_rest();
            lemma_pow2_adds(64, 64);
            assert(start + zeros(0) =~= start);
        }
        let mut code_length: u64 = value + 1;
        while code_length > (128 - self.bits_in_buffer) as u64
            invariant
                self.wf(),
                1 <= code_length <= value + 1,
                value < u64::MAX,
                old(self).pending() + value + 1 < 128 ==> self.bits_in_buffer
                    == old(self).bits_in_buffer && code_length == value + 1,
                self.backend.infallible() == old(self).backend.infallible(),
                self.bits() == start + zeros((value + 1 - code_length) as nat),
                m2l == BO::spec_m2l(),
                pow2(64) == 0x1_0000_0000_0000_0000,
                pow2(128) == pow2(64) * pow2(64),
            decreases code_length + self.bits_in_buffer,
        {
            let space_left = 128 - self.bits_in_buffer;
            let ghost before = *self;
            let ghost cl_old = code_length;
            let ghost k = self.bits_in_buffer as nat;
            let (first, second) = self.spill_words();
            self.buffer = 0;
            self.bits_in_buffer = 0;
            let ghost w0 = self.backend.written();
            match self.backend.write_word(first) {
                Ok(()) => {},
                Err(e) => {
                    proof {
                        lemma2_to64();
                    }
                    return Err(e);
                },
            }
            let ghost w1 = self.backend.written();
            match self.backend.write_word(second) {
                Ok(()) => {},
                Err(e) => {
                    proof {
                        lemma2_to64();
                    }
                    return Err(e);
                },
            }
            code_length -= space_left as u64;
            proof {
                assert(before.bits() == words_bits(w0, m2l) + before.staged());
                lemma_words_bits_push(w0, first, m2l);
                lemma_words_bits_push(w1, second, m2l);
                assert(self.backend.written() == w1.push(second));
                assert(words_bits(self.backend.written(), m2l) == words_bits(w0, m2l) + word_bits(first, m2l) + word_bits(second, m2l));
                assert(before.bits() == start + zeros((value + 1 - cl_old) as nat));
                lemma_field_len(first as nat, 64, m2l);
                lemma_field_len(second as nat, 64, m2l);
                assert(words_bits(self.backend.written(), m2l) =~= words_bits(w0, m2l) + (word_bits(first, m2l) + word_bits(second, m2l)));
                assert(words_bits(self.backend.written(), m2l) =~= before.bits() + zeros(space_left as nat));
                lemma_words_bits_push(w0, first, m2l);
                lemma_words_bits_push(w1, second, m2l);
                lemma2_to64();
                lemma_field_len(0, 0, m2l);
                assert(self.staged() =~= Seq::<bool>::empty());
                assert(self.bits() =~= start + zeros((value + 1 - code_length) as nat));
            }
        }
        let ghost before = *self;
        let k = self.bits_in_buffer;
        let c = code_length as usize;
        proof {
            self.lemma_staged_len();
            lemma_one_field(c as nat);
            lemma_pow2_pos((c - 1) as nat);
            lemma_pow2_strictly_increases((c - 1) as nat, c as nat);
        }
        if BO::is_m2l() {
            if c == 128 {
                self.buffer = 0;
            } else {
                proof {
                    lemma_pow2_u128(c as nat);
                    lemma_shift_add_bound(self.buffer as nat, k as nat, 0, c as nat);
                    assert(pow2((k + c) as nat) <= pow2(128)) by {
                        if k + c < 128 {
                            lemma_pow2_strictly_increases((k + c) as nat, 128);
                        }
                    }
                    lemma_u128_shl(self.buffer, c as u128);
                }
                self.buffer = self.buffer << c as u128;
            }
            proof {
                lemma_pow2_pos(c as nat);
                lemma_mul_basics(pow2(c as nat) as int);
                assert(self.buffer == before.buffer * pow2(c as nat));
                lemma_shift_add_bound(before.buffer as nat, k as nat, 1, c as nat);
                assert(pow2((k + c) as nat) <= pow2(128)) by {
                    if k + c < 128 {
                        lemma_pow2_strictly_increases((k + c) as nat, 128);
                    }
                }
                assert(self.buffer | 1 == self.buffer + 1) by {
                    lemma_shift_add_bound(0, 0, 0, 0);
                    assert(self.buffer % 2 == 0) by {
                        lemma_pow2_unfold(c as nat);
                        vstd::arithmetic::div_mod::lemma_mod_multiples_basic((before.buffer * pow2((c - 1) as nat)) as int, 2);
                        lemma_mul_is_associative(before.buffer as int, pow2((c - 1) as nat) as int, 2);
                    }
                    let b = self.buffer;
                    assert(b % 2 == 0 ==> b | 1 == b + 1) by (bit_vector);
                }
                lemma_msb_concat(before.buffer as nat, k as nat, 1, c as nat);
            }
            self.buffer = self.buffer | 1;
        } else {
            proof {
                lemma_l2m_append(self.buffer, k as nat, c as nat, pow2((c - 1) as nat));
                lemma_pow2_adds((c - 1) as nat, (128 - c) as nat);
                assert(((c - 1) as nat + (128 - c) as nat) as nat == 127);
                lemma_pow2_u128(127);
                lemma_u128_shl(1, 127);
                lemma_mul_basics(pow2(127) as int);
                lemma_l2m_staged_bound(self.buffer, k as nat);
                lemma_lsb_concat(l2m_staged(self.buffer, k as nat), k as nat, pow2((c - 1) as nat), c as nat);
                if 1 < c < 128 {
                    lemma_pow2_strictly_increases((128 - c) as nat, 127);
                }
                if c < 128 {
                    lemma_u128_shr_is_div(self.buffer, c as u128);
                }
            }
            let rest: u128 = if c == 128 {
                0
            } else {
                self.buffer >> c as u128
            };
            proof {
                if c == 128 {
                    lemma_pow2_pos(128);
                    vstd::arithmetic::div_mod::lemma_basic_div(self.buffer as int, pow2(128) as int);
                }
                assert(rest == self.buffer as nat / pow2(c as nat));
                lemma_u128_shl_or(1, rest, 127);
            }
            self.buffer = (1u128 << 127u128) | rest;
        }
        self.bits_in_buffer = k + c;
        proof {
            assert(self.staged() == before.staged() + zeros((c - 1) as nat).push(true));
            self.lemma_bits_append(before, zeros((c - 1) as nat).push(true));
            assert(self.bits() =~= start + unary_code(value as nat));
        }
        if self.bits_in_buffer == 128 {
            return self.flush_full_word();
        }
        Ok(())
    }

    /// Hands every staged bit to the sink, the last word padded with zeros.
    pub fn flush(&mut self) -> (r: Result<(), BitStreamError>)
        requires
            old(self).wf(),
        ensures
            final(self).wf(),
            r is Err ==> r == Err::<(), BitStreamError>(BitStreamError::BackendIo),
            r is Ok ==> final(self).pending() == 0,
            r is Ok ==> final(self).bits() == old(self).bits() + zeros(
                pad_to_word(old(self).pending()),
            ),
            r is Ok ==> final(self).bits() == words_bits(final(self).sink().written(), BO::spec_m2l()),
            final(self).sink().infallible() == old(self).sink().infallible(),
            old(self).sink().infallible() ==> r is Ok,
            r is Ok ==> final(self).sink().written().len() == old(self).sink().written().len() + (
            old(self).pending() + 63) / 64,
            old(self).pending() == 0 ==> r is Ok && *final(self) == *old(self),
    {
        let ghost start = self.bits();
        let ghost m2l = BO::spec_m2l();
        match self.flush_full_word() {
            Ok(()) => {},
            Err(e) => {
                return Err(e);
            },
        }
        proof {
            lemma2_to64();
            lemma2_to64_rest();
            lemma_pow2_adds(64, 64);
            self.lemma_staged_len();
        }
        if self.bits_in_buffer > 0 {
            let k = self.bits_in_buffer;
            let ghost before = *self;
            let word: u64;
            if BO::is_m2l() {
                proof {
                    lemma_pow2_pos((64 - k) as nat);
                    lemma_shift_add_bound(self.buffer as nat, k as nat, 0, (64 - k) as nat);
                    assert((k + (64 - k) as nat) as nat == 64);
                    if k < 64 {
                        lemma_pow2_strictly_increases(k as nat, 64);
                    }
                    vstd::bits::lemma_u64_shl_is_mul(self.buffer as u64, (64 - k) as u64);
                    lemma_msb_concat(self.buffer as nat, k as nat, 0, (64 - k) as nat);
                    lemma_field_zero((64 - k) as nat, true);
                }
                word = (self.buffer as u64) << (64 - k) as u64;
            } else {
                let b = self.buffer;
                proof {
                    lemma_u128_shr_is_div(b, 64);
                    lemma_fundamental_div_mod(b as int, pow2(64) as int);
                    assert(b as nat / pow2(64) < pow2(64)) by (nonlinear_arith)
                        requires
                            b < pow2(64) * pow2(64),
                            b as nat == pow2(64) * (b as nat / pow2(64)) + b as nat % pow2(64),
                            b as nat % pow2(64) >= 0,
                    ;
                }
                let t = (b >> 64u128) as u64;
                proof {
                    vstd::bits::lemma_u64_shr_is_div(t, (64 - k) as u64);
                    lemma_pow2_pos(64);
                    lemma_pow2_pos((64 - k) as nat);
                    lemma_div_denominator(b as int, pow2(64) as int, pow2((64 - k) as nat) as int);
                    lemma_pow2_adds(64, (64 - k) as nat);
                    assert((64 + (64 - k) as nat) as nat == (128 - k) as nat);
                    let st = l2m_staged(b, k as nat);
                    lemma_l2m_staged_bound(b, k as nat);
                    lemma_lsb_split(st, k as nat, (64 - k) as nat);
                    lemma_small_mod(st, pow2(k as nat));
                    vstd::arithmetic::div_mod::lemma_basic_div(st as int, pow2(k as nat) as int);
                    lemma_field_zero((64 - k) as nat, false);
                    assert((k + (64 - k) as nat) as nat == 64);
                }
                word = t >> (64 - k) as u64;
            }
            proof {
                assert(word_bits(word, m2l) == before.staged() + zeros((64 - k) as nat));
            }
            self.buffer = 0;
            self.bits_in_buffer = 0;
            let ghost w0 = self.backend.written();
            match self.backend.write_word(word) {
                Ok(()) => {},
                Err(e) => {
                    return Err(e);
                },
            }
            proof {
                lemma_words_bits_push(w0, word, m2l);
                lemma_field_len(0, 0, m2l);
                assert(self.staged() =~= Seq::<bool>::empty());
                assert(before.bits() == words_bits(w0, m2l) + before.staged());
                assert(self.bits() =~= before.bits() + zeros((64 - k) as nat));
                assert(self.bits() =~= start + zeros(pad_to_word(old(self).pending())));
            }
        } else {
            proof {
                lemma_field_len(0, 0, m2l);
                assert(self.staged() =~= Seq::<bool>::empty());
                assert(self.bits() =~= start + zeros(pad_to_word(old(self).pending())));
            }
        }
        Ok(())
    }
}

impl<BO: BitOrder, WR: WordWrite> BitWrite<BO> for BufferedBitStreamWrite<BO, WR> {
    open spec fn written_bits(&self) -> Seq<bool> {
        self.bits()
    }

    open spec fn pending_bits(&self) -> nat {
        self.pending()
    }

    open spec fn ready(&self) -> bool {
        self.wf()
    }

    open spec fn infallible(&self) -> bool {
        self.sink().infallible()
    }

    open spec fn words_out(&self) -> nat {
        self.sink().written().len()
    }

    proof fn lemma_ready(&self) {
    }

    fn write_bits(&mut self, value: u64, n_bits: usize) -> (r: Result<(), BitStreamError>)
    {
        if n_bits > 64 {
            return Err(BitStreamError::BitWidth);
        }
        if n_bits == 0 {
            proof {
                lemma_field_len(value as nat, 0, BO::spec_m2l());
                assert(old(self).bits() =~= old(self).bits() + field(value as nat, 0, BO::spec_m2l()));
            }
            return Ok(());
        }
        proof {
            lemma2_to64();
            lemma2_to64_rest();
            lemma_pow2_adds(64, 64);
        }
        if n_bits < 64 {
            proof {
                vstd::bits::lemma_u64_shr_is_div(value, n_bits as u64);
                lemma_pow2_pos(n_bits as nat);
                if value < pow2(n_bits as nat) {
                    vstd::arithmetic::div_mod::lemma_basic_div(value as int, pow2(n_bits as nat) as int);
                }
                lemma_fundamental_div_mod(value as int, pow2(n_bits as nat) as int);
            }
            if (value >> n_bits as u64) != 0 {
                return Err(BitStreamError::ValueOverflow);
            }
            proof {
                let d = pow2(n_bits as nat);
                assert(value as nat / d == 0);
                if value >= d {
                    vstd::arithmetic::div_mod::lemma_div_is_ordered(d as int, value as int, d as int);
                    vstd::arithmetic::div_mod::lemma_div_by_self(d as int);
                }
            }
        }
        assert(value < pow2(n_bits as nat));
        if n_bits > self.space_left_in_buffer() {
            match self.flush_full_word() {
                Ok(()) => {},
                Err(e) => {
                    return Err(e);
                },
            }
        }
        let ghost before = *self;
        let k = self.bits_in_buffer;
        let n = n_bits;
        proof {
            self.lemma_staged_len();
            lemma_pow2_strictly_increases((k + n) as nat, 129);
            if k + n < 128 {
                lemma_pow2_strictly_increases((k + n) as nat, 128);
            }
            assert(pow2((k + n) as nat) <= pow2(128));
        }
        if BO::is_m2l() {
            proof {
                lemma_shift_add_bound(self.buffer as nat, k as nat, value as nat, n as nat);
                lemma_shift_add_bound(self.buffer as nat, k as nat, 0, n as nat);
                lemma_u128_shl_or(self.buffer, value as u128, n as u128);
                lemma_msb_concat(self.buffer as nat, k as nat, value as nat, n as nat);
            }
            self.buffer = (self.buffer << n as u128) | value as u128;
            assert(self.buffer == before.buffer * pow2(n as nat) + value);
            assert(bits_msb(self.buffer as nat, (k + n) as nat) == bits_msb(before.buffer as nat, k as nat) + bits_msb(value as nat, n as nat));
        } else {
            proof {
                lemma_l2m_append(self.buffer, k as nat, n as nat, value as nat);
                lemma_u128_shr_is_div(self.buffer, n as u128);
                lemma_shift_add_bound(value as nat, n as nat, 0, (128 - n) as nat);
                assert((n + (128 - n) as nat) as nat == 128);
                lemma_u128_shl_or(value as u128, self.buffer >> (n as u128), (128 - n) as u128);
                lemma_mul_is_commutative(value as int, pow2((128 - n) as nat) as int);
                lemma_l2m_staged_bound(self.buffer, k as nat);
                lemma_lsb_concat(l2m_staged(self.buffer, k as nat), k as nat, value as nat, n as nat);
            }
            self.buffer = ((value as u128) << (128 - n) as u128) | (self.buffer >> n as u128);
            assert(self.buffer == before.buffer as nat / pow2(n as nat) + value * pow2((128 - n) as nat));
            assert(l2m_staged(self.buffer, (k + n) as nat) == l2m_staged(before.buffer, k as nat) + value * pow2(k as nat));
        }
        self.bits_in_buffer = k + n;
        assert(self.staged() == before.staged() + field(value as nat, n as nat, BO::spec_m2l()));
        proof {
            self.lemma_bits_append(before, field(value as nat, n as nat, BO::spec_m2l()));
        }
        if self.bits_in_buffer == 128 {
            return self.flush_full_word();
        }
        Ok(())
    }

    fn write_unary<const USE_TABLE: bool>(&mut self, value: u64) -> (r: Result<(), BitStreamError>) {
        if USE_TABLE {
            if let Some((bits, len)) = unary_tables::write_entry(value, BO::is_m2l()) {
                return self.write_bits(bits, len);
            }
        }
        self.write_unary_code(value)
    }
}

} // verus!
