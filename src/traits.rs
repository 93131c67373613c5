//! Bit orders, errors, and the interfaces of word backends and bit streams.
use crate::bits::field;
use vstd::arithmetic::power2::pow2;
use vstd::prelude::*;

verus! {

/// The kinds of failure of a stream operation.
#[derive(Debug, Clone, Copy, PartialEq, Eq, Structural)]
pub enum BitStreamError {
    /// More bits were asked for than one operation can move.
    BitWidth,
    /// A value does not fit in the bits requested for it, or is reserved.
    ValueOverflow,
    /// The word backend failed.
    BackendIo,
    /// The source ended before the requested bits.
    UnexpectedEof,
}

/// The order of bits within each word of a stream, fixed by a type.
pub trait BitOrder {
    /// Whether the first bit of a word is its most significant one.
    spec fn spec_m2l() -> bool;

    fn is_m2l() -> (r: bool)
        ensures
            r == Self::spec_m2l(),
    ;
}

/// Most significant bit first within each word.
pub struct M2L;

/// Least significant bit first within each word.
pub struct L2M;

impl BitOrder for M2L {
    open spec fn spec_m2l() -> bool {
        true
    }

    fn is_m2l() -> (r: bool) {
        true
    }
}

impl BitOrder for L2M {
    open spec fn spec_m2l() -> bool {
        false
    }

    fn is_m2l() -> (r: bool) {
        false
    }
}

/// A sink of 64-bit words.
pub trait WordWrite {
    /// The words accepted so far.
    spec fn written(&self) -> Seq<u64>;

    /// Whether the sink accepts every word, as a sink in memory does.
    spec fn infallible(&self) -> bool;

    /// Appends one word; the only failure is the sink's own.
    fn write_word(&mut self, word: u64) -> (r: Result<(), BitStreamError>)
        ensures
            r is Ok ==> final(self).written() == old(self).written().push(word),
            r is Err ==> r == Err::<(), BitStreamError>(BitStreamError::BackendIo),
            r is Err ==> final(self).written() == old(self).written(),
            final(self).infallible() == old(self).infallible(),
            old(self).infallible() ==> r is Ok,
    ;
}

/// A source of 64-bit words with a movable cursor.
pub trait WordRead {
    /// All the words of the source.
    spec fn words(&self) -> Seq<u64>;

    /// The index of the next word to be read.
    spec fn word_pos(&self) -> nat;

    /// Moves the cursor to word `word_index`.
    fn set_position(&mut self, word_index: usize)
        ensures
            final(self).words() == old(self).words(),
            final(self).word_pos() == word_index,
    ;

    /// Reads the word under the cursor and advances it.
    fn read_next_word(&mut self) -> (r: Result<u64, BitStreamError>)
        ensures
            final(self).words() == old(self).words(),
            old(self).word_pos() < old(self).words().len() ==> r == Ok::<u64, BitStreamError>(
                old(self).words()[old(self).word_pos() as int],
            ) && final(self).word_pos() == old(self).word_pos() + 1,
            old(self).word_pos() >= old(self).words().len() ==> r == Err::<u64, BitStreamError>(
                BitStreamError::UnexpectedEof,
            ),
    ;
}

/// The unary code of `n`: `n` zeros, then a one.
pub open spec fn unary_code(n: nat) -> Seq<bool> {
    Seq::new(n + 1, |i: int| i == n)
}

/// Whether the bits of `s` from `p` on are all zero (no unary code ends there).
pub open spec fn no_one_from(s: Seq<bool>, p: int) -> bool {
    forall|i: int| p <= i < s.len() ==> !#[trigger] s[i]
}

/// Whether a unary code of `n` starts at `p` in `s`.
pub open spec fn unary_at(s: Seq<bool>, p: int, n: nat) -> bool {
    0 <= p && p + n + 1 <= s.len() && s.subrange(p, p + n + 1) == unary_code(n)
}

/// A stream of bits to read, with a position.
pub trait BitRead<BO: BitOrder>: Sized {
    /// Every bit of the stream, in stream order.
    spec fn stream(&self) -> Seq<bool>;

    /// The index of the next bit to read.
    spec fn position(&self) -> nat;

    /// Whether the reader is in a usable state.
    spec fn ready(&self) -> bool;

    /// The positions of a usable stream fit in a `usize`.
    proof fn lemma_ready(&self)
        requires
            self.ready(),
        ensures
            self.stream().len() <= usize::MAX,
    ;

    /// Reads the next `n_bits` bits, right-justified: the first bit read is the
    /// most significant for M2L, the least significant for L2M.
    fn read_bits(&mut self, n_bits: usize) -> (r: Result<u64, BitStreamError>)
        requires
            old(self).ready(),
        ensures
            final(self).ready(),
            final(self).stream() == old(self).stream(),
            r is Err ==> final(self).position() == old(self).position(),
            n_bits > 64 ==> r == Err::<u64, BitStreamError>(BitStreamError::BitWidth),
            n_bits == 0 ==> r == Ok::<u64, BitStreamError>(0) && final(self).position() == old(self).position(),
            0 < n_bits <= 64 && old(self).position() + n_bits > old(self).stream().len() ==> r == Err::<
                u64,
                BitStreamError,
            >(BitStreamError::UnexpectedEof),
            0 < n_bits <= 64 && old(self).position() + n_bits <= old(self).stream().len() ==> r is Ok,
            r is Ok && n_bits > 0 ==> final(self).position() == old(self).position() + n_bits && r->Ok_0
                < pow2(n_bits as nat) && field(r->Ok_0 as nat, n_bits as nat, BO::spec_m2l()) == old(
                self,
            ).stream().subrange(old(self).position() as int, old(self).position() + n_bits),
    ;

    /// The next `n_bits` bits, as `read_bits` would return them, without
    /// moving the position.
    fn peek_bits(&mut self, n_bits: usize) -> (r: Result<u32, BitStreamError>)
        requires
            old(self).ready(),
        ensures
            final(self).ready(),
            final(self).stream() == old(self).stream(),
            final(self).position() == old(self).position(),
            n_bits > 32 ==> r == Err::<u32, BitStreamError>(BitStreamError::BitWidth),
            n_bits == 0 ==> r == Ok::<u32, BitStreamError>(0),
            0 < n_bits <= 32 && old(self).position() + n_bits > old(self).stream().len() ==> r == Err::<
                u32,
                BitStreamError,
            >(BitStreamError::UnexpectedEof),
            0 < n_bits <= 32 && old(self).position() + n_bits <= old(self).stream().len() ==> r is Ok,
            r is Ok && n_bits > 0 ==> r->Ok_0 < pow2(n_bits as nat) && field(
                r->Ok_0 as nat,
                n_bits as nat,
                BO::spec_m2l(),
            ) == old(self).stream().subrange(old(self).position() as int, old(self).position() + n_bits),
    ;

    /// Moves the position `n_bits` bits forward.
    fn skip_bits(&mut self, n_bits: usize) -> (r: Result<(), BitStreamError>)
        requires
            old(self).ready(),
            old(self).position() + n_bits <= usize::MAX,
        ensures
            final(self).ready(),
            final(self).stream() == old(self).stream(),
            r is Ok,
            final(self).position() == old(self).position() + n_bits,
    ;

    /// Moves the position past `n_bits` bits that a table lookup has just
    /// decoded; the same as `skip_bits`.
    fn skip_bits_after_table_lookup(&mut self, n_bits: usize) -> (r: Result<
        (),
        BitStreamError,
    >)
        requires
            old(self).ready(),
            old(self).position() + n_bits <= usize::MAX,
        ensures
            final(self).ready(),
            final(self).stream() == old(self).stream(),
            r is Ok,
            final(self).position() == old(self).position() + n_bits,
    ;

    /// The index of the next bit to read.
    fn get_position(&self) -> (r: usize)
        ensures
            r == self.position(),
    ;

    /// Moves the position to bit `bit_index`.
    fn seek_bit(&mut self, bit_index: usize) -> (r: Result<(), BitStreamError>)
        requires
            old(self).ready(),
        ensures
            final(self).ready(),
            final(self).stream() == old(self).stream(),
            r is Ok,
            final(self).position() == bit_index,
    ;

    /// Reads a unary code and returns how many zeros precede its one.
    /// `USE_TABLE` selects the table for short codes.
    fn read_unary<const USE_TABLE: bool>(&mut self) -> (r: Result<u64, BitStreamError>)
        requires
            old(self).ready(),
        ensures
            final(self).ready(),
            final(self).stream() == old(self).stream(),
            r is Ok ==> unary_at(old(self).stream(), old(self).position() as int, r->Ok_0 as nat)
                && final(self).position() == old(self).position() + r->Ok_0 + 1,
            r is Err ==> r == Err::<u64, BitStreamError>(BitStreamError::UnexpectedEof),
            r is Err ==> final(self).position() == old(self).position(),
            r is Err ==> no_one_from(old(self).stream(), old(self).position() as int),
    ;
}

/// A stream of bits to write.
pub trait BitWrite<BO: BitOrder>: Sized {
    /// Every bit written so far, in stream order.
    spec fn written_bits(&self) -> Seq<bool>;

    /// How many of the written bits are not yet in whole words.
    spec fn pending_bits(&self) -> nat;

    /// Whether the writer is in a usable state.
    spec fn ready(&self) -> bool;

    /// Whether the writer's sink accepts every word.
    spec fn infallible(&self) -> bool;

    /// How many whole words the writer has handed to its sink.
    spec fn words_out(&self) -> nat;

    /// Between operations fewer than 128 bits are pending.
    proof fn lemma_ready(&self)
        requires
            self.ready(),
        ensures
            self.pending_bits() < 128,
    ;

    /// Writes the `n_bits` low bits of `value`: most significant first for
    /// M2L, least significant first for L2M.
    fn write_bits(&mut self, value: u64, n_bits: usize) -> (r: Result<(), BitStreamError>)
        requires
            old(self).ready(),
        ensures
            final(self).ready(),
            n_bits > 64 ==> r == Err::<(), BitStreamError>(BitStreamError::BitWidth),
            0 < n_bits <= 64 && value >= pow2(n_bits as nat) ==> r == Err::<(), BitStreamError>(
                BitStreamError::ValueOverflow,
            ),
            r is Err && n_bits <= 64 && (n_bits == 0 || value < pow2(n_bits as nat)) ==> r
                == Err::<(), BitStreamError>(BitStreamError::BackendIo),
            r is Ok ==> final(self).written_bits() == old(self).written_bits() + field(
                value as nat,
                n_bits as nat,
                BO::spec_m2l(),
            ),
            n_bits == 0 ==> r is Ok && *final(self) == *old(self),
            n_bits <= 64 && value < pow2(n_bits as nat) && old(self).pending_bits() + n_bits < 128
                ==> r is Ok,
            final(self).infallible() == old(self).infallible(),
            old(self).infallible() && n_bits <= 64 && (n_bits == 0 || value < pow2(n_bits as nat))
                ==> r is Ok,
            n_bits > 64 || (0 < n_bits && value >= pow2(n_bits as nat)) ==> *final(self) == *old(
                self,
            ),
            final(self).words_out() <= old(self).words_out() + 1,
            old(self).pending_bits() + n_bits < 128 ==> final(self).words_out() == old(
                self,
            ).words_out(),
            r is Ok && old(self).pending_bits() + n_bits < 128 ==> final(self).pending_bits()
                == old(self).pending_bits() + n_bits,
    ;

    /// Writes the unary code of `value`: `value` zeros, then a one.
    /// `USE_TABLE` selects the table for short codes.
    fn write_unary<const USE_TABLE: bool>(&mut self, value: u64) -> (r: Result<(), BitStreamError>)
        requires
            old(self).ready(),
        ensures
            final(self).ready(),
            value == u64::MAX ==> r == Err::<(), BitStreamError>(BitStreamError::ValueOverflow),
            r is Err && value < u64::MAX ==> r == Err::<(), BitStreamError>(
                BitStreamError::BackendIo,
            ),
            r is Ok ==> final(self).written_bits() == old(self).written_bits() + unary_code(value as nat),
            value < u64::MAX && old(self).pending_bits() + value + 1 < 128 ==> r is Ok,
            final(self).infallible() == old(self).infallible(),
            old(self).infallible() && value < u64::MAX ==> r is Ok,
            value == u64::MAX ==> *final(self) == *old(self),
            r is Ok && old(self).pending_bits() + value + 1 < 128 ==> final(self).pending_bits()
                == old(self).pending_bits() + value + 1,
    ;
}

} // verus!
