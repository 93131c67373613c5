//! Reading and writing Elias γ codes on any bit stream.
use crate::bits::{field, lemma_field_len};
use crate::codes::{code_at, fast_floor_log2, gamma_code, lemma_gamma_len, lemma_log2_bounds, lemma_log2_mono, lemma_log2_unique, lemma_unary_unique, log2};
use crate::gamma_tables;
use crate::traits::{BitOrder, BitRead, BitStreamError, BitWrite, unary_at, unary_code};
use crate::word::lemma_u64_mask;
use vstd::arithmetic::power2::{lemma2_to64, lemma_pow2_pos, lemma_pow2_strictly_increases, lemma_pow2_unfold, pow2};
use vstd::prelude::*;

verus! {

/// Streams that γ codes can be read from.
pub trait GammaRead<BO: BitOrder>: BitRead<BO> {
    /// Reads a γ code. `USE_TABLE` selects the table for short codes.
    fn read_gamma<const USE_TABLE: bool>(&mut self) -> (r: Result<u64, BitStreamError>)
        requires
            old(self).ready(),
        ensures
            final(self).ready(),
            final(self).stream() == old(self).stream(),
            r is Ok ==> code_at(
                old(self).stream(),
                old(self).position() as int,
                gamma_code(r->Ok_0 as nat, BO::spec_m2l()),
            ) && final(self).position() == old(self).position() + gamma_code(
                r->Ok_0 as nat,
                BO::spec_m2l(),
            ).len(),
            r is Ok ==> r->Ok_0 < u64::MAX,
            (exists|v: nat|
                v < u64::MAX && code_at(
                    old(self).stream(),
                    old(self).position() as int,
                    #[trigger] gamma_code(v, BO::spec_m2l()),
                )) ==> r is Ok,
            r is Err ==> final(self).position() == old(self).position(),
            r is Err ==> r == Err::<u64, BitStreamError>(BitStreamError::UnexpectedEof) || r == Err::<
                u64,
                BitStreamError,
            >(BitStreamError::ValueOverflow),
            r == Err::<u64, BitStreamError>(BitStreamError::ValueOverflow) <==> unary_too_long(
                old(self).stream(),
                old(self).position() as int,
            ),
    ;
}

/// Whether a unary code of 64 or more zeros starts at `p`: the length of a
/// γ code there does not fit in a word.
pub open spec fn unary_too_long(s: Seq<bool>, p: int) -> bool {
    exists|l: nat| l >= 64 && #[trigger] unary_at(s, p, l)
}

/// Streams that γ codes can be written to.
pub trait GammaWrite<BO: BitOrder>: BitWrite<BO> {
    /// Writes the γ code of `value`, which must be below `u64::MAX`.
    /// `USE_TABLE` selects the table for small values.
    fn write_gamma<const USE_TABLE: bool>(&mut self, value: u64) -> (r: Result<(), BitStreamError>)
        requires
            old(self).ready(),
        ensures
            final(self).ready(),
            value == u64::MAX ==> r == Err::<(), BitStreamError>(BitStreamError::ValueOverflow),
            r is Err && value < u64::MAX ==> r == Err::<(), BitStreamError>(
                BitStreamError::BackendIo,
            ),
            r is Ok ==> final(self).written_bits() == old(self).written_bits() + gamma_code(
                value as nat,
                BO::spec_m2l(),
            ),
            final(self).infallible() == old(self).infallible(),
            old(self).infallible() && value < u64::MAX ==> r is Ok,
            value == u64::MAX ==> *final(self) == *old(self),
            value < u64::MAX && old(self).pending_bits() + gamma_code(value as nat, BO::spec_m2l()).len()
                < 128 ==> r is Ok,
            r is Ok && old(self).pending_bits() + gamma_code(value as nat, BO::spec_m2l()).len() < 128
                ==> final(self).pending_bits() == old(self).pending_bits() + gamma_code(
                value as nat,
                BO::spec_m2l(),
            ).len(),
    ;
}

/// `2^l - 1 + t` for `t < 2^l` has `log2` of its successor equal to `l`.
pub proof fn lemma_gamma_value(l: nat, t: nat)
    requires
        t < pow2(l),
    ensures
        log2(t + pow2(l)) == l,
        (t + pow2(l) - pow2(l)) as nat == t,
{
    lemma_pow2_unfold(l + 1);
    lemma_log2_unique(t + pow2(l), l);
}

/// Reads the common part of γ and δ codes after their length: `len` bits,
/// as the low bits of a value whose highest one is bit `len`.
pub fn read_tail<BO: BitOrder, B: BitRead<BO>>(backend: &mut B, len: u64, start: usize) -> (r: Result<u64, BitStreamError>)
    requires
        old(backend).ready(),
        start <= old(backend).position() <= old(backend).stream().len(),
    ensures
        final(backend).ready(),
        final(backend).stream() == old(backend).stream(),
        len > 63 <==> r == Err::<u64, BitStreamError>(BitStreamError::ValueOverflow),
        len <= 63 && old(backend).position() + len <= old(backend).stream().len() ==> r is Ok,
        r is Ok ==> old(backend).position() + len <= old(backend).stream().len(),
        r is Ok ==> len <= 63 && r->Ok_0 + 1 == (r->Ok_0 + 1 - pow2(len as nat)) + pow2(len as nat)
            && pow2(len as nat) <= r->Ok_0 + 1 < pow2(len as nat + 1) && log2((r->Ok_0 + 1) as nat) == len
            && old(backend).stream().subrange(
            old(backend).position() as int,
            old(backend).position() + len,
        ) == field((r->Ok_0 + 1 - pow2(len as nat)) as nat, len as nat, BO::spec_m2l())
            && final(backend).position() == old(backend).position() + len,
        r is Err ==> final(backend).position() == start,
        r is Err ==> r == Err::<u64, BitStreamError>(BitStreamError::UnexpectedEof) || r == Err::<
            u64,
            BitStreamError,
        >(BitStreamError::ValueOverflow),
{
    if len > 63 {
        let _ = backend.seek_bit(start);
        return Err(BitStreamError::ValueOverflow);
    }
    let tail = match backend.read_bits(len as usize) {
        Ok(t) => t,
        Err(e) => {
            let _ = backend.seek_bit(start);
            return Err(e);
        },
    };
    proof {
        lemma2_to64();
        lemma_u64_mask(0, len);
        lemma_pow2_unfold(len as nat + 1);
        if len + 1 < 64 {
            lemma_pow2_strictly_increases(len as nat + 1, 64);
        }
        lemma_gamma_value(len as nat, tail as nat);
        if len == 0 {
            lemma_field_len(0, 0, BO::spec_m2l());
            assert(old(backend).stream().subrange(
                old(backend).position() as int,
                old(backend).position() as int,
            ) =~= field(0, 0, BO::spec_m2l()));
        }
    }
    Ok(tail + ((1u64 << len) - 1))
}

impl<BO: BitOrder, B: BitRead<BO>> GammaRead<BO> for B {
    fn read_gamma<const USE_TABLE: bool>(&mut self) -> (r: Result<u64, BitStreamError>) {
        let ghost s = self.stream();
        let ghost p = self.position() as int;
        let ghost m2l = BO::spec_m2l();
        if USE_TABLE {
            if let Ok(Some(v)) = gamma_tables::read_table::<BO, Self>(self) {
                proof {
                    lemma_gamma_split(s, p, v as nat, m2l);
                    if unary_too_long(s, p) {
                        let l = choose|l: nat| l >= 64 && #[trigger] unary_at(s, p, l);
                        lemma_unary_unique(s, p, l, log2(v as nat + 1));
                    }
                }
                return Ok(v);
            }
        }
        let start = self.get_position();
        let len = match self.read_unary::<false>() {
            Ok(l) => l,
            Err(e) => {
                proof {
                    if exists|v: nat| v < u64::MAX && code_at(s, p, #[trigger] gamma_code(v, m2l)) {
                        let v = choose|v: nat| v < u64::MAX && code_at(s, p, #[trigger] gamma_code(v, m2l));
                        lemma_gamma_split(s, p, v, m2l);
                        assert(s[p + log2(v + 1)]);
                    }
                    if unary_too_long(s, p) {
                        let l = choose|l: nat| l >= 64 && #[trigger] unary_at(s, p, l);
                        assert(s.subrange(p, p + l + 1)[l as int] == s[p + l]);
                    }
                }
                return Err(e);
            },
        };
        proof {
            if exists|v: nat| v < u64::MAX && code_at(s, p, #[trigger] gamma_code(v, m2l)) {
                let v = choose|v: nat| v < u64::MAX && code_at(s, p, #[trigger] gamma_code(v, m2l));
                lemma_gamma_split(s, p, v, m2l);
                lemma_unary_unique(s, p, len as nat, log2(v + 1));
                lemma_gamma_len(v, m2l);
            }
            if unary_too_long(s, p) {
                let l = choose|l: nat| l >= 64 && #[trigger] unary_at(s, p, l);
                lemma_unary_unique(s, p, len as nat, l);
            }
            if len > 63 {
                assert(unary_at(s, p, len as nat));
            }
        }
        let r = read_tail(self, len, start);
        proof {
            if r is Ok {
                let v = r->Ok_0 as nat;
                lemma2_to64();
                if len + 1 < 64 {
                    lemma_pow2_strictly_increases(len as nat + 1, 64);
                }
                lemma_gamma_len(v, m2l);
                let l = len as int;
                assert(s.subrange(p, p + 2 * l + 1) =~= s.subrange(p, p + l + 1) + s.subrange(
                    p + l + 1,
                    p + 2 * l + 1,
                ));
            }
        }
        r
    }
}

/// Where a γ code of `v` stands at `p`, its unary part stands there too, and
/// the value fits in a word.
pub(crate) proof fn lemma_gamma_split(s: Seq<bool>, p: int, v: nat, m2l: bool)
    requires
        v < u64::MAX,
        code_at(s, p, gamma_code(v, m2l)),
    ensures
        unary_at(s, p, log2(v + 1)),
        log2(v + 1) <= 63,
        s[p + log2(v + 1)],
        p + 2 * log2(v + 1) + 1 <= s.len(),
{
    let l = log2(v + 1);
    lemma_gamma_len(v, m2l);
    let c = gamma_code(v, m2l);
    assert(s.subrange(p, p + l + 1) =~= c.subrange(0, l + 1 as int));
    assert(c.subrange(0, l + 1 as int) =~= unary_code(l));
    assert(s.subrange(p, p + l + 1)[l as int] == s[p + l]);
    lemma2_to64();
    lemma_log2_mono(v + 1, 0xFFFF_FFFF_FFFF_FFFF);
    lemma_log2_bounds(0xFFFF_FFFF_FFFF_FFFF);
    if log2(0xFFFF_FFFF_FFFF_FFFF) > 63 {
        lemma_pow2_strictly_increases(64, log2(0xFFFF_FFFF_FFFF_FFFF));
    }
}

impl<BO: BitOrder, B: BitWrite<BO>> GammaWrite<BO> for B {
    fn write_gamma<const USE_TABLE: bool>(&mut self, value: u64) -> (r: Result<(), BitStreamError>) {
        if USE_TABLE {
            if let Some((bits, len)) = gamma_tables::write_entry(value, BO::is_m2l()) {
                proof {
                    lemma_field_len(bits as nat, len as nat, BO::spec_m2l());
                }
                return self.write_bits(bits, len);
            }
        }
        if value == u64::MAX {
            return Err(BitStreamError::ValueOverflow);
        }
        let ghost start = self.written_bits();
        let v = value + 1;
        let l = fast_floor_log2(v);
        proof {
            lemma_log2_bounds(v as nat);
            lemma_u64_mask(0, l as u64);
            lemma_pow2_pos(l as nat);
            lemma_pow2_unfold(l as nat + 1);
            lemma_gamma_len(value as nat, BO::spec_m2l());
        }
        let short = v - (1u64 << l);
        match self.write_unary::<false>(l as u64) {
            Ok(()) => {},
            Err(e) => {
                return Err(e);
            },
        }
        let r = self.write_bits(short, l as usize);
        proof {
            if r is Ok {
                assert(self.written_bits() =~= start + gamma_code(value as nat, BO::spec_m2l()));
            }
        }
        r
    }
}

} // verus!
