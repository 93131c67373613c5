//! Minimal binary codes: the integers of `[0, max)` in `log2(max)` or
//! `log2(max) + 1` bits, the smaller values taking the shorter codes.
use crate::bits::{field, lemma_field_injective, lemma_field_len};
use crate::codes::{code_at, fast_floor_log2, lemma_log2_bounds, log2};
use crate::traits::{BitOrder, BitRead, BitStreamError, BitWrite};
use crate::word::lemma_u64_mask;
use vstd::arithmetic::power2::{lemma2_to64, lemma_pow2_pos, lemma_pow2_strictly_increases, lemma_pow2_unfold, pow2};
use vstd::prelude::*;

verus! {

/// The values below `pivot(max)` take `log2(max)` bits, the others one more.
pub open spec fn pivot(max: nat) -> nat {
    (pow2(log2(max) + 1) - max) as nat
}

/// The minimal binary code of `n` in `[0, max)`: `n` in `log2(max)` bits when
/// it is below the pivot; otherwise `n + pivot(max)` in one bit more, written
/// as its high `log2(max)` bits followed by its lowest bit, so that in both
/// bit orders the first `log2(max)` bits tell whether one more follows.
pub open spec fn minimal_binary_code(n: nat, max: nat, m2l: bool) -> Seq<bool> {
    let u = log2(max);
    if n < pivot(max) {
        field(n, u, m2l)
    } else {
        field((n + pivot(max)) / 2, u, m2l).push((n + pivot(max)) % 2 == 1)
    }
}

proof fn lemma_pivot(max: nat)
    requires
        max >= 1,
    ensures
        pow2(log2(max)) <= max < pow2(log2(max) + 1),
        pivot(max) == pow2(log2(max)) - (max - pow2(log2(max))),
        0 < pivot(max) <= pow2(log2(max)),
        pow2(log2(max) + 1) == 2 * pow2(log2(max)),
{
    lemma_log2_bounds(max);
    lemma_pow2_unfold(log2(max) + 1);
}

pub proof fn lemma_minimal_binary_len(n: nat, max: nat, m2l: bool)
    ensures
        minimal_binary_code(n, max, m2l).len() == if n < pivot(max) {
            log2(max)
        } else {
            log2(max) + 1
        },
{
    lemma_field_len(n, log2(max), m2l);
    lemma_field_len((n + pivot(max)) / 2, log2(max), m2l);
}

/// Minimal binary codes over one range are prefix-free: two of them at one
/// place are equal.
pub proof fn lemma_minimal_binary_unique(s: Seq<bool>, p: int, a: nat, b: nat, max: nat, m2l: bool)
    requires
        max >= 1,
        a < max,
        b < max,
        code_at(s, p, minimal_binary_code(a, max, m2l)),
        code_at(s, p, minimal_binary_code(b, max, m2l)),
    ensures
        a == b,
{
    let u = log2(max);
    let pv = pivot(max);
    lemma_pivot(max);
    lemma_minimal_binary_len(a, max, m2l);
    lemma_minimal_binary_len(b, max, m2l);
    let ca = minimal_binary_code(a, max, m2l);
    let cb = minimal_binary_code(b, max, m2l);
    let head_a = if a < pv { a } else { (a + pv) / 2 };
    let head_b = if b < pv { b } else { (b + pv) / 2 };
    lemma_field_len(head_a, u, m2l);
    lemma_field_len(head_b, u, m2l);
    assert(ca.subrange(0, u as int) =~= field(head_a, u, m2l));
    assert(cb.subrange(0, u as int) =~= field(head_b, u, m2l));
    assert(s.subrange(p, p + u) =~= ca.subrange(0, u as int));
    assert(s.subrange(p, p + u) =~= cb.subrange(0, u as int));
    lemma_field_injective(head_a, head_b, u, m2l);
    if a >= pv && b >= pv {
        assert(s[p + u] == ca[u as int]);
        assert(s[p + u] == cb[u as int]);
    }
}

/// Streams that minimal binary codes can be read from.
pub trait MinimalBinaryRead<BO: BitOrder>: BitRead<BO> {
    /// Reads the minimal binary code of a value in `[0, max)`.
    fn read_minimal_binary(&mut self, max: u64) -> (r: Result<u64, BitStreamError>)
        requires
            old(self).ready(),
        ensures
            final(self).ready(),
            final(self).stream() == old(self).stream(),
            max == 0 ==> r == Err::<u64, BitStreamError>(BitStreamError::ValueOverflow),
            r is Ok ==> r->Ok_0 < max && final(self).position() == old(self).position()
                + minimal_binary_code(r->Ok_0 as nat, max as nat, BO::spec_m2l()).len(),
            r is Ok && old(self).position() <= old(self).stream().len() ==> code_at(
                old(self).stream(),
                old(self).position() as int,
                minimal_binary_code(r->Ok_0 as nat, max as nat, BO::spec_m2l()),
            ),
            (exists|n: nat|
                n < max && code_at(
                    old(self).stream(),
                    old(self).position() as int,
                    #[trigger] minimal_binary_code(n, max as nat, BO::spec_m2l()),
                )) ==> r is Ok,
            r is Err ==> final(self).position() == old(self).position(),
            r is Err && max > 0 ==> r == Err::<u64, BitStreamError>(BitStreamError::UnexpectedEof),
    ;
}

/// Streams that minimal binary codes can be written to.
pub trait MinimalBinaryWrite<BO: BitOrder>: BitWrite<BO> {
    /// Writes the minimal binary code of `value`, which must be below `max`.
    fn write_minimal_binary(&mut self, value: u64, max: u64) -> (r: Result<(), BitStreamError>)
        requires
            old(self).ready(),
        ensures
            final(self).ready(),
            value >= max ==> r == Err::<(), BitStreamError>(BitStreamError::ValueOverflow),
            r is Err && value < max ==> r == Err::<(), BitStreamError>(BitStreamError::BackendIo),
            r is Ok ==> final(self).written_bits() == old(self).written_bits()
                + minimal_binary_code(value as nat, max as nat, BO::spec_m2l()),
            final(self).infallible() == old(self).infallible(),
            old(self).infallible() && value < max ==> r is Ok,
            value >= max ==> *final(self) == *old(self),
            value < max && old(self).pending_bits() + minimal_binary_code(
                value as nat,
                max as nat,
                BO::spec_m2l(),
            ).len() < 128 ==> r is Ok,
            r is Ok && old(self).pending_bits() + minimal_binary_code(
                value as nat,
                max as nat,
                BO::spec_m2l(),
            ).len() < 128 ==> final(self).pending_bits() == old(self).pending_bits()
                + minimal_binary_code(value as nat, max as nat, BO::spec_m2l()).len(),
    ;
}

/// The length of the minimal binary code of `value` in `[0, max)`.
pub fn len_minimal_binary(value: u64, max: u64) -> (r: usize)
    requires
        value < max,
    ensures
        r == minimal_binary_code(value as nat, max as nat, true).len(),
        r == minimal_binary_code(value as nat, max as nat, false).len(),
        r <= 64,
{
    let (u, pv) = split_range(max);
    proof {
        lemma_minimal_binary_len(value as nat, max as nat, true);
        lemma_minimal_binary_len(value as nat, max as nat, false);
    }
    if value < pv {
        u as usize
    } else {
        u as usize + 1
    }
}

/// `log2(max)` and the pivot of `max`.
fn split_range(max: u64) -> (r: (u32, u64))
    requires
        max >= 1,
    ensures
        r.0 == log2(max as nat),
        r.1 == pivot(max as nat),
        r.0 <= 63,
{
    let u = fast_floor_log2(max);
    proof {
        lemma_pivot(max as nat);
        lemma_u64_mask(0, u as u64);
    }
    let p2u = 1u64 << u;
    (u, p2u - (max - p2u))
}

impl<BO: BitOrder, B: BitRead<BO>> MinimalBinaryRead<BO> for B {
    fn read_minimal_binary(&mut self, max: u64) -> (r: Result<u64, BitStreamError>) {
        if max == 0 {
            return Err(BitStreamError::ValueOverflow);
        }
        let ghost s = self.stream();
        let ghost p = self.position() as int;
        let ghost m2l = BO::spec_m2l();
        let start = self.get_position();
        let (u, pv) = split_range(max);
        proof {
            lemma_pivot(max as nat);
            lemma2_to64();
            lemma_pow2_pos(u as nat);
            if u < 63 {
                lemma_pow2_strictly_increases(u as nat + 1, 64);
            }
            if exists|n: nat| n < max && code_at(s, p, #[trigger] minimal_binary_code(n, max as nat, m2l)) {
                let n = choose|n: nat| n < max && code_at(s, p, #[trigger] minimal_binary_code(n, max as nat, m2l));
                lemma_minimal_binary_len(n, max as nat, m2l);
            }
        }
        let head = match self.read_bits(u as usize) {
            Ok(x) => x,
            Err(e) => {
                return Err(e);
            },
        };
        proof {
            if u == 0 && p <= s.len() {
                lemma_field_len(0, 0, m2l);
                assert(s.subrange(p, p) =~= field(0, 0, m2l));
            }
            lemma_field_len(head as nat, u as nat, m2l);
        }
        if head < pv {
            proof {
                lemma_minimal_binary_len(head as nat, max as nat, m2l);
                if exists|n: nat| n < max && code_at(s, p, #[trigger] minimal_binary_code(n, max as nat, m2l)) {
                    let n = choose|n: nat| n < max && code_at(s, p, #[trigger] minimal_binary_code(n, max as nat, m2l));
                    lemma_minimal_binary_len(n, max as nat, m2l);
                }
            }
            return Ok(head);
        }
        let low = match self.read_bits(1) {
            Ok(b) => b,
            Err(e) => {
                let _ = self.seek_bit(start);
                proof {
                    if exists|n: nat| n < max && code_at(s, p, #[trigger] minimal_binary_code(n, max as nat, m2l)) {
                        let n = choose|n: nat| n < max && code_at(s, p, #[trigger] minimal_binary_code(n, max as nat, m2l));
                        lemma_minimal_binary_len(n, max as nat, m2l);
                        let hn = if n < pivot(max as nat) { n } else { (n + pivot(max as nat)) / 2 };
                        lemma_field_len(hn, u as nat, m2l);
                        assert(s.subrange(p, p + u) =~= minimal_binary_code(n, max as nat, m2l).subrange(0, u as int));
                        assert(minimal_binary_code(n, max as nat, m2l).subrange(0, u as int) =~= field(hn, u as nat, m2l));
                        lemma_field_injective(hn, head as nat, u as nat, m2l);
                    }
                }
                return Err(e);
            },
        };
        proof {
            lemma2_to64();
            crate::word::lemma_u64_shl_or(head, low, 1);
            lemma_field_len(low as nat, 1, m2l);
            let y = 2 * head + low;
            assert(y / 2 == head && y % 2 == low);
            assert(field(low as nat, 1, m2l)[0] == (low % 2 == 1));
            assert(s.subrange(p, p + u + 1) =~= s.subrange(p, p + u).push(s[p + u]));
            lemma_minimal_binary_len((y - pv) as nat, max as nat, m2l);
        }
        Ok(((head << 1) | low) - pv)
    }
}

impl<BO: BitOrder, B: BitWrite<BO>> MinimalBinaryWrite<BO> for B {
    fn write_minimal_binary(&mut self, value: u64, max: u64) -> (r: Result<(), BitStreamError>) {
        if value >= max {
            return Err(BitStreamError::ValueOverflow);
        }
        let ghost start = self.written_bits();
        let ghost m2l = BO::spec_m2l();
        let (u, pv) = split_range(max);
        proof {
            lemma_pivot(max as nat);
            lemma2_to64();
            lemma_pow2_pos(u as nat);
            if u < 63 {
                lemma_pow2_strictly_increases(u as nat + 1, 64);
            }
            lemma_minimal_binary_len(value as nat, max as nat, m2l);
        }
        if value < pv {
            return self.write_bits(value, u as usize);
        }
        let y = value + pv;
        proof {
            lemma_u64_mask(y, 1);
            vstd::bits::lemma_u64_shr_is_div(y, 1);
            lemma_field_len(y as nat % 2, 1, m2l);
        }
        match self.write_bits(y >> 1, u as usize) {
            Ok(()) => {},
            Err(e) => {
                return Err(e);
            },
        }
        let r = self.write_bits(y & 1, 1);
        proof {
            if r is Ok {
                assert(field(y as nat % 2, 1, m2l) =~= seq![y % 2 == 1]);
                assert(self.written_bits() =~= start + minimal_binary_code(value as nat, max as nat, m2l));
            }
        }
        r
    }
}

} // verus!
