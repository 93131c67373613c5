//! Boldi–Vigna ζ codes with parameter `k`: the band of `v + 1` among
//! `[2^(h k), 2^((h + 1) k))` in unary, then its place in the band in minimal
//! binary.
use crate::codes::{code_at, fast_floor_log2, lemma_log2_bounds, lemma_log2_unique, lemma_unary_unique, log2};
use crate::minimal_binary::{MinimalBinaryRead, MinimalBinaryWrite, lemma_minimal_binary_len, minimal_binary_code};
use crate::traits::{BitOrder, BitRead, BitStreamError, BitWrite, unary_at, unary_code};
use crate::word::lemma_u64_mask;
use vstd::arithmetic::div_mod::{lemma_fundamental_div_mod, lemma_fundamental_div_mod_converse};
use vstd::arithmetic::power2::{lemma2_to64, lemma_pow2_adds, lemma_pow2_pos, lemma_pow2_strictly_increases, pow2};
use vstd::prelude::*;

verus! {

/// The band of `v` in the ζ code with parameter `k`.
pub open spec fn zeta_band(v: nat, k: nat) -> nat {
    log2(v + 1) / k
}

/// Whether `v` has a ζ code with parameter `k` whose band fits in a word.
pub open spec fn zeta_fits(v: nat, k: nat) -> bool {
    k >= 1 && v < u64::MAX && (zeta_band(v, k) + 1) * k <= 64
}

/// The ζ code of `v` with parameter `k`: the unary code of its band `h`, then
/// `v + 1 - 2^(h k)` in minimal binary over the `2^((h + 1) k) - 2^(h k)`
/// values of the band.
pub open spec fn zeta_code(v: nat, k: nat, m2l: bool) -> Seq<bool> {
    let h = zeta_band(v, k);
    unary_code(h) + minimal_binary_code(
        (v + 1 - pow2(h * k)) as nat,
        (pow2((h + 1) * k) - pow2(h * k)) as nat,
        m2l,
    )
}

/// The band of `x - 1` is `h` exactly when `x` lies in `[2^(h k), 2^((h + 1) k))`.
proof fn lemma_band(x: nat, k: nat, h: nat)
    requires
        k >= 1,
        pow2(h * k) <= x < pow2((h + 1) * k),
    ensures
        zeta_band((x - 1) as nat, k) == h,
{
    let l = log2(x);
    lemma_pow2_pos(h * k);
    lemma_log2_bounds(x);
    if l < h * k {
        lemma_pow2_strictly_increases(l + 1, h * k);
        if l + 1 == h * k {
        }
        assert(pow2(l + 1) <= pow2(h * k)) by {
            if l + 1 < h * k {
                lemma_pow2_strictly_increases(l + 1, h * k);
            }
        }
    }
    if l >= (h + 1) * k {
        assert(pow2((h + 1) * k) <= pow2(l)) by {
            if (h + 1) * k < l {
                lemma_pow2_strictly_increases((h + 1) * k, l);
            }
        }
    }
    assert(h * k <= l < h * k + k) by (nonlinear_arith)
        requires
            h * k <= l < (h + 1) * k,
    ;
    lemma_fundamental_div_mod_converse(l as int, k as int, h as int, (l - h * k) as int);
}

/// The values of band `h` lie in `[2^(h k), 2^((h + 1) k))`.
proof fn lemma_band_bounds(v: nat, k: nat)
    requires
        k >= 1,
    ensures
        pow2(zeta_band(v, k) * k) <= v + 1 < pow2((zeta_band(v, k) + 1) * k),
{
    let l = log2(v + 1);
    let h = zeta_band(v, k);
    lemma_log2_bounds(v + 1);
    lemma_fundamental_div_mod(l as int, k as int);
    assert(h * k <= l < (h + 1) * k) by (nonlinear_arith)
        requires
            h == l as int / k as int,
            l == k * (l as int / k as int) + l as int % k as int,
            0 <= (l as int % k as int) < k,
    ;
    if h * k < l {
        lemma_pow2_strictly_increases(h * k, l);
    }
    if l + 1 < (h + 1) * k {
        lemma_pow2_strictly_increases(l + 1, (h + 1) * k);
    }
}

/// The first and last values of band `h`, as words: `2^(h k)` and the size of
/// the band.
fn band_bounds(h: u64, k: u64) -> (r: (u64, u64))
    requires
        k >= 1,
        (h + 1) * k <= 64,
    ensures
        r.0 == pow2((h * k) as nat),
        r.1 == pow2(((h + 1) * k) as nat) - pow2((h * k) as nat),
        r.1 >= 1,
{
    proof {
        assert(h * k + k == (h + 1) * k) by (nonlinear_arith);
        lemma2_to64();
        lemma_u64_mask(0, (h * k) as u64);
        lemma_pow2_strictly_increases((h * k) as nat, ((h + 1) * k) as nat);
    }
    let shift = h * k;
    let lo = 1u64 << shift;
    let top = shift + k;
    if top == 64 {
        (lo, u64::MAX - lo + 1)
    } else {
        proof {
            lemma_u64_mask(0, top as u64);
        }
        (lo, (1u64 << top) - lo)
    }
}

/// Whether the unary part at `p` names a band that does not fit in a word
/// with parameter `k` (every band does not, when `k` is 0).
pub open spec fn zeta_too_wide(s: Seq<bool>, p: int, k: nat) -> bool {
    exists|h: nat| #[trigger] unary_at(s, p, h) && (k == 0 || (h + 1) * k > 64)
}

/// Streams that ζ codes can be read from.
pub trait ZetaRead<BO: BitOrder>: BitRead<BO> {
    /// Reads a ζ code with parameter `k`.
    fn read_zeta(&mut self, k: u64) -> (r: Result<u64, BitStreamError>)
        requires
            old(self).ready(),
        ensures
            final(self).ready(),
            final(self).stream() == old(self).stream(),
            r is Ok ==> zeta_fits(r->Ok_0 as nat, k as nat) && code_at(
                old(self).stream(),
                old(self).position() as int,
                zeta_code(r->Ok_0 as nat, k as nat, BO::spec_m2l()),
            ) && final(self).position() == old(self).position() + zeta_code(
                r->Ok_0 as nat,
                k as nat,
                BO::spec_m2l(),
            ).len(),
            (exists|v: nat|
                zeta_fits(v, k as nat) && code_at(
                    old(self).stream(),
                    old(self).position() as int,
                    #[trigger] zeta_code(v, k as nat, BO::spec_m2l()),
                )) ==> r is Ok,
            r == Err::<u64, BitStreamError>(BitStreamError::ValueOverflow) <==> zeta_too_wide(
                old(self).stream(),
                old(self).position() as int,
                k as nat,
            ),
            r is Err ==> final(self).position() == old(self).position(),
            r is Err ==> r == Err::<u64, BitStreamError>(BitStreamError::UnexpectedEof) || r == Err::<
                u64,
                BitStreamError,
            >(BitStreamError::ValueOverflow),
    ;
}

/// Streams that ζ codes can be written to.
pub trait ZetaWrite<BO: BitOrder>: BitWrite<BO> {
    /// Writes the ζ code of `value` with parameter `k`.
    fn write_zeta(&mut self, value: u64, k: u64) -> (r: Result<(), BitStreamError>)
        requires
            old(self).ready(),
        ensures
            final(self).ready(),
            !zeta_fits(value as nat, k as nat) ==> r == Err::<(), BitStreamError>(
                BitStreamError::ValueOverflow,
            ),
            r is Err && zeta_fits(value as nat, k as nat) ==> r == Err::<(), BitStreamError>(
                BitStreamError::BackendIo,
            ),
            r is Ok ==> final(self).written_bits() == old(self).written_bits() + zeta_code(
                value as nat,
                k as nat,
                BO::spec_m2l(),
            ),
            final(self).infallible() == old(self).infallible(),
            old(self).infallible() && zeta_fits(value as nat, k as nat) ==> r is Ok,
            !zeta_fits(value as nat, k as nat) ==> *final(self) == *old(self),
            zeta_fits(value as nat, k as nat) && old(self).pending_bits() + zeta_code(
                value as nat,
                k as nat,
                BO::spec_m2l(),
            ).len() < 128 ==> r is Ok,
            r is Ok && old(self).pending_bits() + zeta_code(value as nat, k as nat, BO::spec_m2l()).len()
                < 128 ==> final(self).pending_bits() == old(self).pending_bits() + zeta_code(
                value as nat,
                k as nat,
                BO::spec_m2l(),
            ).len(),
    ;
}

impl<BO: BitOrder, B: BitWrite<BO>> ZetaWrite<BO> for B {
    fn write_zeta(&mut self, value: u64, k: u64) -> (r: Result<(), BitStreamError>) {
        if k == 0 || value == u64::MAX {
            return Err(BitStreamError::ValueOverflow);
        }
        let ghost start = self.written_bits();
        let x = value + 1;
        let l = fast_floor_log2(x);
        let h = l as u64 / k;
        proof {
            lemma_fundamental_div_mod(l as int, k as int);
            assert(h * k <= l) by (nonlinear_arith)
                requires
                    h == l as int / k as int,
                    l == k * (l as int / k as int) + l as int % k as int,
                    l as int % k as int >= 0,
                    k >= 1,
            ;
            assert(h <= 63) by (nonlinear_arith)
                requires
                    h * k <= l <= 63,
                    k >= 1,
            ;
        }
        if k > 64 {
            proof {
                assert((h + 1) * k > 64) by (nonlinear_arith)
                    requires
                        k > 64,
                ;
            }
            return Err(BitStreamError::ValueOverflow);
        }
        proof {
            assert((h + 1) * k <= 64 * 64) by (nonlinear_arith)
                requires
                    h <= 63,
                    k <= 64,
            ;
        }
        if (h + 1) * k > 64 {
            return Err(BitStreamError::ValueOverflow);
        }
        let (lo, range) = band_bounds(h, k);
        proof {
            lemma_log2_bounds(x as nat);
            assert(lo <= x) by {
                if (h * k) < l {
                    lemma_pow2_strictly_increases((h * k) as nat, l as nat);
                }
            }
            assert(h * k + k == (h + 1) * k) by (nonlinear_arith);
            assert(x < pow2(((h + 1) * k) as nat)) by {
                if (l + 1) < (h + 1) * k {
                    lemma_pow2_strictly_increases((l + 1) as nat, ((h + 1) * k) as nat);
                }
                lemma_fundamental_div_mod(l as int, k as int);
                assert(l < (h + 1) * k) by (nonlinear_arith)
                    requires
                        h == l as int / k as int,
                        l == k * (l as int / k as int) + l as int % k as int,
                        (l as int % k as int) < k,
                ;
            }
            lemma_band(x as nat, k as nat, h as nat);
        }
        match self.write_unary::<false>(h) {
            Ok(()) => {},
            Err(e) => {
                return Err(e);
            },
        }
        let r = self.write_minimal_binary(x - lo, range);
        proof {
            if r is Ok {
                assert(self.written_bits() =~= start + zeta_code(value as nat, k as nat, BO::spec_m2l()));
            }
        }
        r
    }
}

impl<BO: BitOrder, B: BitRead<BO>> ZetaRead<BO> for B {
    fn read_zeta(&mut self, k: u64) -> (r: Result<u64, BitStreamError>) {
        let ghost s = self.stream();
        let ghost p = self.position() as int;
        let ghost m2l = BO::spec_m2l();
        let start = self.get_position();
        let h = match self.read_unary::<false>() {
            Ok(h) => h,
            Err(e) => {
                proof {
                    if exists|v: nat| zeta_fits(v, k as nat) && code_at(s, p, #[trigger] zeta_code(v, k as nat, m2l)) {
                        let v = choose|v: nat| zeta_fits(v, k as nat) && code_at(s, p, #[trigger] zeta_code(v, k as nat, m2l));
                        lemma_zeta_split(s, p, v, k as nat, m2l);
                    }
                    if zeta_too_wide(s, p, k as nat) {
                        let h = choose|h: nat| #[trigger] unary_at(s, p, h) && (k == 0 || (h + 1) * k > 64);
                        assert(s.subrange(p, p + h + 1)[h as int] == s[p + h]);
                    }
                }
                return Err(e);
            },
        };
        proof {
            if exists|v: nat| zeta_fits(v, k as nat) && code_at(s, p, #[trigger] zeta_code(v, k as nat, m2l)) {
                let v = choose|v: nat| zeta_fits(v, k as nat) && code_at(s, p, #[trigger] zeta_code(v, k as nat, m2l));
                lemma_zeta_split(s, p, v, k as nat, m2l);
                lemma_unary_unique(s, p, h as nat, zeta_band(v, k as nat));
            }
        }
        let too_wide = if k == 0 || k > 64 || h >= 64 {
            true
        } else {
            proof {
                assert((h + 1) * k <= 64 * 64) by (nonlinear_arith)
                    requires
                        h < 64,
                        k <= 64,
                ;
            }
            (h + 1) * k > 64
        };
        if too_wide {
            let _ = self.seek_bit(start);
            proof {
                if k > 64 {
                    assert((h + 1) * k > 64) by (nonlinear_arith)
                        requires
                            k > 64,
                    ;
                }
                if h >= 64 && k >= 1 {
                    assert((h + 1) * k > 64) by (nonlinear_arith)
                        requires
                            h >= 64,
                            k >= 1,
                    ;
                }
                assert(unary_at(s, p, h as nat));
                if exists|v: nat| zeta_fits(v, k as nat) && code_at(s, p, #[trigger] zeta_code(v, k as nat, m2l)) {
                    if k > 64 {
                        assert((h + 1) * k > 64) by (nonlinear_arith)
                            requires
                                k > 64,
                        ;
                    }
                    if h >= 64 {
                        assert((h + 1) * k > 64) by (nonlinear_arith)
                            requires
                                h >= 64,
                                k >= 1,
                        ;
                    }
                }
            }
            return Err(BitStreamError::ValueOverflow);
        }
        let (lo, range) = band_bounds(h, k);
        let ghost q = self.position() as int;
        proof {
            if zeta_too_wide(s, p, k as nat) {
                let h2 = choose|h2: nat| #[trigger] unary_at(s, p, h2) && (k == 0 || (h2 + 1) * k > 64);
                lemma_unary_unique(s, p, h2, h as nat);
            }
            if exists|v: nat| zeta_fits(v, k as nat) && code_at(s, p, #[trigger] zeta_code(v, k as nat, m2l)) {
                let v = choose|v: nat| zeta_fits(v, k as nat) && code_at(s, p, #[trigger] zeta_code(v, k as nat, m2l));
                lemma_zeta_split(s, p, v, k as nat, m2l);
                lemma_band_bounds(v, k as nat);
                let n = (v + 1 - pow2(h as nat * k as nat)) as nat;
                assert(n < range && code_at(s, q, minimal_binary_code(n, range as nat, m2l)));
            }
        }
        let off = match self.read_minimal_binary(range) {
            Ok(o) => o,
            Err(e) => {
                let _ = self.seek_bit(start);
                proof {
                    if exists|v: nat| zeta_fits(v, k as nat) && code_at(s, p, #[trigger] zeta_code(v, k as nat, m2l)) {
                        let v = choose|v: nat| zeta_fits(v, k as nat) && code_at(s, p, #[trigger] zeta_code(v, k as nat, m2l));
                        lemma_zeta_split(s, p, v, k as nat, m2l);
                    }
                }
                return Err(e);
            },
        };
        proof {
            assert(h * k + k == (h + 1) * k) by (nonlinear_arith);
            lemma2_to64();
            if (h + 1) * k < 64 {
                lemma_pow2_strictly_increases(((h + 1) * k) as nat, 64);
            }
            assert(lo + range <= 0x1_0000_0000_0000_0000);
            assert(off < range);
            lemma_pow2_pos((h * k) as nat);
            lemma_band((lo + off) as nat, k as nat, h as nat);
            let mb = minimal_binary_code(off as nat, range as nat, m2l);
            assert(s.subrange(p, q + mb.len()) =~= s.subrange(p, q) + s.subrange(q, q + mb.len()));
        }
        Ok(lo + off - 1)
    }
}

/// Where a ζ code of `v` stands at `p`, its unary part stands there, and its
/// minimal binary part right after.
proof fn lemma_zeta_split(s: Seq<bool>, p: int, v: nat, k: nat, m2l: bool)
    requires
        zeta_fits(v, k),
        code_at(s, p, zeta_code(v, k, m2l)),
    ensures
        unary_at(s, p, zeta_band(v, k)),
        code_at(
            s,
            p + zeta_band(v, k) + 1,
            minimal_binary_code(
                (v + 1 - pow2(zeta_band(v, k) * k)) as nat,
                (pow2((zeta_band(v, k) + 1) * k) - pow2(zeta_band(v, k) * k)) as nat,
                m2l,
            ),
        ),
        s[p + zeta_band(v, k)],
{
    let h = zeta_band(v, k);
    let u = unary_code(h);
    let mb = minimal_binary_code(
        (v + 1 - pow2(h * k)) as nat,
        (pow2((h + 1) * k) - pow2(h * k)) as nat,
        m2l,
    );
    let c = zeta_code(v, k, m2l);
    assert(s.subrange(p, p + h + 1) =~= c.subrange(0, h + 1 as int));
    assert(c.subrange(0, h + 1 as int) =~= u);
    assert(s.subrange(p + h + 1, p + h + 1 + mb.len()) =~= c.subrange(h + 1 as int, c.len() as int));
    assert(c.subrange(h + 1 as int, c.len() as int) =~= mb);
    assert(s.subrange(p, p + h + 1)[h as int] == s[p + h]);
}

/// ζ codes with one parameter are prefix-free: two of them at one place are
/// equal.
pub proof fn lemma_zeta_unique(s: Seq<bool>, p: int, a: nat, b: nat, k: nat, m2l: bool)
    requires
        zeta_fits(a, k),
        zeta_fits(b, k),
        code_at(s, p, zeta_code(a, k, m2l)),
        code_at(s, p, zeta_code(b, k, m2l)),
    ensures
        a == b,
{
    lemma_zeta_split(s, p, a, k, m2l);
    lemma_zeta_split(s, p, b, k, m2l);
    lemma_unary_unique(s, p, zeta_band(a, k), zeta_band(b, k));
    let h = zeta_band(a, k);
    lemma_band_bounds(a, k);
    lemma_band_bounds(b, k);
    crate::minimal_binary::lemma_minimal_binary_unique(
        s,
        p + h + 1,
        (a + 1 - pow2(h * k)) as nat,
        (b + 1 - pow2(h * k)) as nat,
        (pow2((h + 1) * k) - pow2(h * k)) as nat,
        m2l,
    );
}

/// The length of the ζ code of `value` with parameter `k`.
pub fn len_zeta(value: u64, k: u64) -> (r: usize)
    requires
        zeta_fits(value as nat, k as nat),
    ensures
        r == zeta_code(value as nat, k as nat, true).len(),
        r == zeta_code(value as nat, k as nat, false).len(),
{
    let x = value + 1;
    let l = fast_floor_log2(x);
    let h = l as u64 / k;
    proof {
        lemma_fundamental_div_mod(l as int, k as int);
        assert(h <= 63) by (nonlinear_arith)
            requires
                h == l as int / k as int,
                l == k * (l as int / k as int) + l as int % k as int,
                l as int % k as int >= 0,
                k >= 1,
                l <= 63,
        ;
        lemma_band_bounds(value as nat, k as nat);
        lemma_minimal_binary_len((x - pow2((h * k) as nat)) as nat, (pow2(((h + 1) * k) as nat) - pow2((h * k) as nat)) as nat, true);
        lemma_minimal_binary_len((x - pow2((h * k) as nat)) as nat, (pow2(((h + 1) * k) as nat) - pow2((h * k) as nat)) as nat, false);
    }
    let (lo, range) = band_bounds(h, k);
    h as usize + 1 + crate::minimal_binary::len_minimal_binary(x - lo, range)
}

} // verus!
