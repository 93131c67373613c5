//! Reading and writing Elias δ codes on any bit stream.
use crate::bits::lemma_field_len;
use crate::codes::{code_at, delta_code, fast_floor_log2, gamma_code, lemma_gamma_unique, lemma_unary_unique, lemma_log2_bounds, lemma_log2_mono, log2};
use crate::gamma::{GammaRead, GammaWrite, lemma_gamma_split, read_tail, unary_too_long};
use crate::delta_tables;
use crate::traits::{BitOrder, BitRead, BitStreamError, BitWrite, unary_at};
use crate::word::lemma_u64_mask;
use vstd::arithmetic::power2::{lemma2_to64, lemma_pow2_pos, lemma_pow2_strictly_increases, lemma_pow2_unfold, pow2};
use vstd::prelude::*;

verus! {

/// Streams that δ codes can be read from.
pub trait DeltaRead<BO: BitOrder>: GammaRead<BO> {
    /// Reads a δ code. `USE_TABLE` selects the δ table for short codes,
    /// `USE_GAMMA_TABLE` the γ table for the length.
    fn read_delta<const USE_TABLE: bool, const USE_GAMMA_TABLE: bool>(&mut self) -> (r: Result<
        u64,
        BitStreamError,
    >)
        requires
            old(self).ready(),
        ensures
            final(self).ready(),
            final(self).stream() == old(self).stream(),
            r is Ok ==> code_at(
                old(self).stream(),
                old(self).position() as int,
                delta_code(r->Ok_0 as nat, BO::spec_m2l()),
            ) && final(self).position() == old(self).position() + delta_code(
                r->Ok_0 as nat,
                BO::spec_m2l(),
            ).len(),
            r is Ok ==> r->Ok_0 < u64::MAX,
            (exists|v: nat|
                v < u64::MAX && code_at(
                    old(self).stream(),
                    old(self).position() as int,
                    #[trigger] delta_code(v, BO::spec_m2l()),
                )) ==> r is Ok,
            r is Err ==> final(self).position() == old(self).position(),
            r is Err ==> r == Err::<u64, BitStreamError>(BitStreamError::UnexpectedEof) || r == Err::<
                u64,
                BitStreamError,
            >(BitStreamError::ValueOverflow),
            r == Err::<u64, BitStreamError>(BitStreamError::ValueOverflow) <==> delta_too_long(
                old(self).stream(),
                old(self).position() as int,
                BO::spec_m2l(),
            ),
    ;
}

/// Whether the length part of a δ code at `p` does not fit in a word: its
/// own unary part has 64 or more zeros, or it is the γ code of 64 or more.
pub open spec fn delta_too_long(s: Seq<bool>, p: int, m2l: bool) -> bool {
    unary_too_long(s, p) || exists|l: nat|
        64 <= l < u64::MAX && code_at(s, p, #[trigger] gamma_code(l, m2l))
}

/// Streams that δ codes can be written to.
pub trait DeltaWrite<BO: BitOrder>: GammaWrite<BO> {
    /// Writes the δ code of `value`, which must be below `u64::MAX`.
    fn write_delta<const USE_TABLE: bool, const USE_GAMMA_TABLE: bool>(&mut self, value: u64) -> (r:
        Result<(), BitStreamError>)
        requires
            old(self).ready(),
        ensures
            final(self).ready(),
            value == u64::MAX ==> r == Err::<(), BitStreamError>(BitStreamError::ValueOverflow),
            r is Err && value < u64::MAX ==> r == Err::<(), BitStreamError>(
                BitStreamError::BackendIo,
            ),
            r is Ok ==> final(self).written_bits() == old(self).written_bits() + delta_code(
                value as nat,
                BO::spec_m2l(),
            ),
            final(self).infallible() == old(self).infallible(),
            old(self).infallible() && value < u64::MAX ==> r is Ok,
            value == u64::MAX ==> *final(self) == *old(self),
            value < u64::MAX && old(self).pending_bits() + delta_code(value as nat, BO::spec_m2l()).len()
                < 128 ==> r is Ok,
            r is Ok && old(self).pending_bits() + delta_code(value as nat, BO::spec_m2l()).len() < 128
                ==> final(self).pending_bits() == old(self).pending_bits() + delta_code(
                value as nat,
                BO::spec_m2l(),
            ).len(),
    ;
}

/// Where a δ code of `v` stands at `p`, the γ code of its length stands there.
proof fn lemma_delta_split(s: Seq<bool>, p: int, v: nat, m2l: bool)
    requires
        v < u64::MAX,
        code_at(s, p, delta_code(v, m2l)),
    ensures
        code_at(s, p, gamma_code(log2(v + 1), m2l)),
        log2(v + 1) <= 63,
        p + gamma_code(log2(v + 1), m2l).len() + log2(v + 1) <= s.len(),
{
    let l = log2(v + 1);
    let g = gamma_code(l, m2l);
    lemma_field_len((v + 1 - pow2(l)) as nat, l, m2l);
    let c = delta_code(v, m2l);
    assert(s.subrange(p, p + g.len()) =~= c.subrange(0, g.len() as int));
    assert(c.subrange(0, g.len() as int) =~= g);
    lemma2_to64();
    lemma_log2_mono(v + 1, 0xFFFF_FFFF_FFFF_FFFF);
    lemma_log2_bounds(0xFFFF_FFFF_FFFF_FFFF);
    if log2(0xFFFF_FFFF_FFFF_FFFF) > 63 {
        lemma_pow2_strictly_increases(64, log2(0xFFFF_FFFF_FFFF_FFFF));
    }
}

/// Where the γ code of `l <= 63` stands at `p`, no longer length stands there.
proof fn lemma_not_too_long(s: Seq<bool>, p: int, l: nat, m2l: bool)
    requires
        l <= 63,
        code_at(s, p, gamma_code(l, m2l)),
    ensures
        !delta_too_long(s, p, m2l),
{
    lemma_gamma_split(s, p, l, m2l);
    if unary_too_long(s, p) {
        let u = choose|u: nat| u >= 64 && #[trigger] unary_at(s, p, u);
        lemma_unary_unique(s, p, u, log2(l + 1));
    }
    if exists|g: nat| 64 <= g < u64::MAX && code_at(s, p, #[trigger] gamma_code(g, m2l)) {
        let g = choose|g: nat| 64 <= g < u64::MAX && code_at(s, p, #[trigger] gamma_code(g, m2l));
        lemma_gamma_unique(s, p, g, l, m2l);
    }
}

impl<BO: BitOrder, B: GammaRead<BO>> DeltaRead<BO> for B {
    fn read_delta<const USE_TABLE: bool, const USE_GAMMA_TABLE: bool>(&mut self) -> (r: Result<
        u64,
        BitStreamError,
    >) {
        let ghost s = self.stream();
        let ghost p = self.position() as int;
        let ghost m2l = BO::spec_m2l();
        if USE_TABLE {
            if let Ok(Some(v)) = delta_tables::read_table::<BO, Self>(self) {
                proof {
                    lemma_delta_split(s, p, v as nat, m2l);
                    lemma_not_too_long(s, p, log2(v as nat + 1), m2l);
                }
                return Ok(v);
            }
        }
        let start = self.get_position();
        proof {
            if exists|v: nat| v < u64::MAX && code_at(s, p, #[trigger] delta_code(v, m2l)) {
                let v = choose|v: nat| v < u64::MAX && code_at(s, p, #[trigger] delta_code(v, m2l));
                lemma_delta_split(s, p, v, m2l);
                lemma2_to64();
                assert(log2(v + 1) < u64::MAX);
            }
        }
        let len = match self.read_gamma::<USE_GAMMA_TABLE>() {
            Ok(l) => l,
            Err(e) => {
                proof {
                    if exists|l: nat| 64 <= l < u64::MAX && code_at(s, p, #[trigger] gamma_code(l, m2l)) {
                        let l = choose|l: nat| 64 <= l < u64::MAX && code_at(s, p, #[trigger] gamma_code(l, m2l));
                        assert(l < u64::MAX && code_at(s, p, gamma_code(l, m2l)));
                    }
                }
                return Err(e);
            },
        };
        let ghost g = gamma_code(len as nat, m2l);
        proof {
            if exists|v: nat| v < u64::MAX && code_at(s, p, #[trigger] delta_code(v, m2l)) {
                let v = choose|v: nat| v < u64::MAX && code_at(s, p, #[trigger] delta_code(v, m2l));
                lemma_delta_split(s, p, v, m2l);
                lemma_gamma_unique(s, p, len as nat, log2(v + 1), m2l);
            }
        }
        let r = read_tail(self, len, start);
        proof {
            if exists|l: nat| 64 <= l < u64::MAX && code_at(s, p, #[trigger] gamma_code(l, m2l)) {
                let l = choose|l: nat| 64 <= l < u64::MAX && code_at(s, p, #[trigger] gamma_code(l, m2l));
                lemma_gamma_unique(s, p, len as nat, l, m2l);
            }
            if len > 63 {
                assert(64 <= len < u64::MAX && code_at(s, p, gamma_code(len as nat, m2l)));
            }
            if r is Ok {
                let v = r->Ok_0 as nat;
                lemma2_to64();
                if len + 1 < 64 {
                    lemma_pow2_strictly_increases(len as nat + 1, 64);
                }
                lemma_field_len((v + 1 - pow2(len as nat)) as nat, len as nat, m2l);
                let l = len as int;
                assert(s.subrange(p, p + g.len() + l) =~= s.subrange(p, p + g.len()) + s.subrange(
                    p + g.len(),
                    p + g.len() + l,
                ));
            }
        }
        r
    }
}

impl<BO: BitOrder, B: GammaWrite<BO>> DeltaWrite<BO> for B {
    fn write_delta<const USE_TABLE: bool, const USE_GAMMA_TABLE: bool>(&mut self, value: u64) -> (r:
        Result<(), BitStreamError>) {
        if USE_TABLE {
            if let Some((bits, len)) = delta_tables::write_entry(value, BO::is_m2l()) {
                proof {
                    lemma_field_len(bits as nat, len as nat, BO::spec_m2l());
                }
                return self.write_bits(bits, len);
            }
        }
        if value == u64::MAX {
            return Err(BitStreamError::ValueOverflow);
        }
        let ghost start = self.written_bits();
        let v = value + 1;
        let l = fast_floor_log2(v);
        proof {
            lemma_log2_bounds(v as nat);
            lemma_u64_mask(0, l as u64);
            lemma_pow2_pos(l as nat);
            lemma_pow2_unfold(l as nat + 1);
        }
        proof {
            crate::codes::lemma_gamma_len(value as nat, BO::spec_m2l());
            crate::codes::lemma_gamma_len(l as nat, BO::spec_m2l());
        }
        let short = v - (1u64 << l);
        match self.write_gamma::<USE_GAMMA_TABLE>(l as u64) {
            Ok(()) => {},
            Err(e) => {
                return Err(e);
            },
        }
        let r = self.write_bits(short, l as usize);
        proof {
            if r is Ok {
                assert(self.written_bits() =~= start + delta_code(value as nat, BO::spec_m2l()));
            }
        }
        r
    }
}

} // verus!
