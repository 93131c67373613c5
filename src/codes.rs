//! The universal codes as bit strings, their lengths, and the facts that make
//! them decodable: each is prefix-free.
use crate::bits::{bits_lsb, bits_msb, field, lemma_field_injective, lemma_field_len, lemma_lsb_concat, lemma_msb_concat};
use crate::traits::{unary_at, unary_code};
use crate::{delta_tables, gamma_tables, unary_tables};
use vstd::arithmetic::power2::{lemma2_to64, lemma_pow2_pos, lemma_pow2_unfold, pow2};
use vstd::arithmetic::mul::lemma_mul_basics;
use vstd::prelude::*;
use vstd::std_specs::bits::u64_leading_zeros;

verus! {

/// The floor of the base-2 logarithm of `x` (0 for `x <= 1`).
pub open spec fn log2(x: nat) -> nat
    decreases x,
{
    if x <= 1 {
        0
    } else {
        1 + log2(x / 2)
    }
}

/// The Elias γ code of `v`: with `l = log2(v + 1)`, the unary code of `l`,
/// then the `l` low bits of `v + 1`.
pub open spec fn gamma_code(v: nat, m2l: bool) -> Seq<bool> {
    let l = log2(v + 1);
    unary_code(l) + field((v + 1 - pow2(l)) as nat, l, m2l)
}

/// The Elias δ code of `v`: with `l = log2(v + 1)`, the γ code of `l`, then
/// the `l` low bits of `v + 1`.
pub open spec fn delta_code(v: nat, m2l: bool) -> Seq<bool> {
    let l = log2(v + 1);
    gamma_code(l, m2l) + field((v + 1 - pow2(l)) as nat, l, m2l)
}

/// Whether the bit string `c` occurs in `s` at `p`.
pub open spec fn code_at(s: Seq<bool>, p: int, c: Seq<bool>) -> bool {
    0 <= p && p + c.len() <= s.len() && s.subrange(p, p + c.len()) == c
}

/// `2^log2(x) <= x < 2^(log2(x) + 1)`.
pub proof fn lemma_log2_bounds(x: nat)
    requires
        x >= 1,
    ensures
        pow2(log2(x)) <= x < pow2(log2(x) + 1),
    decreases x,
{
    lemma2_to64();
    if x > 1 {
        lemma_log2_bounds(x / 2);
        lemma_pow2_unfold(log2(x));
        lemma_pow2_unfold(log2(x) + 1);
    }
}

/// `log2(x)` is the `l` with `2^l <= x < 2^(l + 1)`.
pub proof fn lemma_log2_unique(x: nat, l: nat)
    requires
        pow2(l) <= x < pow2(l + 1),
    ensures
        log2(x) == l,
    decreases l,
{
    lemma2_to64();
    lemma_pow2_unfold(l + 1);
    if l > 0 {
        lemma_pow2_unfold(l);
        lemma_log2_unique(x / 2, (l - 1) as nat);
    }
}

/// `log2` is monotone.
pub proof fn lemma_log2_mono(x: nat, y: nat)
    requires
        1 <= x <= y,
    ensures
        log2(x) <= log2(y),
    decreases y,
{
    if x > 1 {
        lemma_log2_mono(x / 2, y / 2);
    }
}

/// The leading zeros of a nonzero word count the bits above its highest one.
pub proof fn lemma_leading_zeros_log2(x: u64)
    requires
        x > 0,
    ensures
        u64_leading_zeros(x) == 63 - log2(x as nat),
    decreases x,
{
    reveal(u64_leading_zeros);
    if x > 1 {
        lemma_leading_zeros_log2(x / 2);
    } else {
        reveal(u64_leading_zeros);
        assert(u64_leading_zeros(0) == 64);
    }
}

pub proof fn lemma_gamma_len(v: nat, m2l: bool)
    ensures
        gamma_code(v, m2l).len() == 2 * log2(v + 1) + 1,
        delta_code(v, m2l).len() == log2(v + 1) + 2 * log2(log2(v + 1) + 1) + 1,
{
    let l = log2(v + 1);
    lemma_field_len((v + 1 - pow2(l)) as nat, l, m2l);
    let ll = log2(l + 1);
    lemma_field_len((l + 1 - pow2(ll)) as nat, ll, m2l);
}

/// A unary code ends at its first one: two unary codes at one place are equal.
pub proof fn lemma_unary_unique(s: Seq<bool>, p: int, a: nat, b: nat)
    requires
        unary_at(s, p, a),
        unary_at(s, p, b),
    ensures
        a == b,
{
    if a < b {
        assert(s.subrange(p, p + a + 1)[a as int] == s.subrange(p, p + b + 1)[a as int]);
    } else if b < a {
        assert(s.subrange(p, p + a + 1)[b as int] == s.subrange(p, p + b + 1)[b as int]);
    }
}

/// The length field of a γ code and its low bits, split apart.
pub(crate) proof fn lemma_gamma_parts(s: Seq<bool>, p: int, v: nat, m2l: bool)
    requires
        code_at(s, p, gamma_code(v, m2l)),
    ensures
        unary_at(s, p, log2(v + 1)),
        s.subrange(p + log2(v + 1) + 1, p + 2 * log2(v + 1) + 1) == field(
            (v + 1 - pow2(log2(v + 1))) as nat,
            log2(v + 1),
            m2l,
        ),
{
    let l = log2(v + 1) as int;
    lemma_gamma_len(v, m2l);
    let c = gamma_code(v, m2l);
    assert(s.subrange(p, p + l + 1) =~= c.subrange(0, l + 1));
    assert(c.subrange(0, l + 1) =~= unary_code(l as nat));
    assert(s.subrange(p + l + 1, p + 2 * l + 1) =~= c.subrange(l + 1, 2 * l + 1));
    lemma_field_len((v + 1 - pow2(l as nat)) as nat, l as nat, m2l);
    assert(c.subrange(l + 1, 2 * l + 1) =~= field((v + 1 - pow2(l as nat)) as nat, l as nat, m2l));
}

/// γ codes are prefix-free: two γ codes at one place are equal.
pub proof fn lemma_gamma_unique(s: Seq<bool>, p: int, a: nat, b: nat, m2l: bool)
    requires
        code_at(s, p, gamma_code(a, m2l)),
        code_at(s, p, gamma_code(b, m2l)),
    ensures
        a == b,
{
    lemma_gamma_parts(s, p, a, m2l);
    lemma_gamma_parts(s, p, b, m2l);
    lemma_unary_unique(s, p, log2(a + 1), log2(b + 1));
    let l = log2(a + 1);
    lemma_log2_bounds(a + 1);
    lemma_log2_bounds(b + 1);
    lemma_pow2_unfold(l + 1);
    lemma_field_injective((a + 1 - pow2(l)) as nat, (b + 1 - pow2(l)) as nat, l, m2l);
}

/// The length code of a δ code and its low bits, split apart.
pub(crate) proof fn lemma_delta_parts(s: Seq<bool>, p: int, v: nat, m2l: bool)
    requires
        code_at(s, p, delta_code(v, m2l)),
    ensures
        code_at(s, p, gamma_code(log2(v + 1), m2l)),
        s.subrange(
            p + gamma_code(log2(v + 1), m2l).len(),
            p + gamma_code(log2(v + 1), m2l).len() + log2(v + 1),
        ) == field((v + 1 - pow2(log2(v + 1))) as nat, log2(v + 1), m2l),
{
    let l = log2(v + 1);
    let g = gamma_code(l, m2l);
    lemma_field_len((v + 1 - pow2(l)) as nat, l, m2l);
    let c = delta_code(v, m2l);
    assert(s.subrange(p, p + g.len()) =~= c.subrange(0, g.len() as int));
    assert(c.subrange(0, g.len() as int) =~= g);
    assert(s.subrange(p + g.len(), p + g.len() + l) =~= c.subrange(g.len() as int, g.len() + l as int));
    assert(c.subrange(g.len() as int, g.len() + l as int) =~= field((v + 1 - pow2(l)) as nat, l, m2l));
}

/// δ codes are prefix-free: two δ codes at one place are equal.
pub proof fn lemma_delta_unique(s: Seq<bool>, p: int, a: nat, b: nat, m2l: bool)
    requires
        code_at(s, p, delta_code(a, m2l)),
        code_at(s, p, delta_code(b, m2l)),
    ensures
        a == b,
{
    lemma_delta_parts(s, p, a, m2l);
    lemma_delta_parts(s, p, b, m2l);
    lemma_gamma_unique(s, p, log2(a + 1), log2(b + 1), m2l);
    let l = log2(a + 1);
    lemma_log2_bounds(a + 1);
    lemma_log2_bounds(b + 1);
    lemma_pow2_unfold(l + 1);
    lemma_field_injective((a + 1 - pow2(l)) as nat, (b + 1 - pow2(l)) as nat, l, m2l);
}

/// The γ code of `x`, M2L, is `x + 1` written in `2 * log2(x + 1) + 1` bits.
pub open spec fn gamma_m2l_value(x: nat) -> nat {
    x + 1
}

/// The γ code of `x`, L2M, as the value of its bits read least significant first.
pub open spec fn gamma_l2m_value(x: nat) -> nat {
    let m = log2(x + 1);
    pow2(m) + (x + 1 - pow2(m)) as nat * pow2(m + 1)
}

/// The δ code of `v`, M2L, as a number.
pub open spec fn delta_m2l_value(v: nat) -> nat {
    let l = log2(v + 1);
    gamma_m2l_value(l) * pow2(l) + (v + 1 - pow2(l)) as nat
}

/// The δ code of `v`, L2M, as a number.
pub open spec fn delta_l2m_value(v: nat) -> nat {
    let l = log2(v + 1);
    let m = log2(l + 1);
    gamma_l2m_value(l) + (v + 1 - pow2(l)) as nat * pow2(2 * m + 1)
}

/// The γ code of `x` as one field, in each order.
pub proof fn lemma_gamma_closed_form(x: nat)
    ensures
        gamma_code(x, true) == bits_msb(gamma_m2l_value(x), 2 * log2(x + 1) + 1),
        gamma_code(x, false) == bits_lsb(gamma_l2m_value(x), 2 * log2(x + 1) + 1),
        gamma_m2l_value(x) < pow2(2 * log2(x + 1) + 1),
        gamma_l2m_value(x) < pow2(2 * log2(x + 1) + 1),
{
    let m = log2(x + 1);
    let t = (x + 1 - pow2(m)) as nat;
    lemma_log2_bounds(x + 1);
    lemma_pow2_unfold(m + 1);
    lemma_pow2_pos(m);
    crate::writer::lemma_one_field(m + 1);
    assert(unary_code(m) =~= crate::bits::zeros(m).push(true));
    lemma_msb_concat(1, m + 1, t, m);
    lemma_mul_basics(pow2(m) as int);
    lemma_lsb_concat(pow2(m), m + 1, t, m);
    assert((m + 1 + m) as nat == 2 * m + 1);
    crate::writer::lemma_shift_add_bound(1, m + 1, t, m);
    crate::writer::lemma_shift_add_bound(t, m, pow2(m), m + 1);
    vstd::arithmetic::mul::lemma_mul_is_commutative(t as int, pow2(m + 1) as int);
}

/// The δ code of `v` as one field, in each order.
pub proof fn lemma_delta_closed_form(v: nat)
    ensures
        delta_code(v, true) == bits_msb(delta_m2l_value(v), delta_code(v, true).len()),
        delta_code(v, false) == bits_lsb(delta_l2m_value(v), delta_code(v, false).len()),
        delta_m2l_value(v) < pow2(delta_code(v, true).len()),
        delta_l2m_value(v) < pow2(delta_code(v, false).len()),
{
    let l = log2(v + 1);
    let m = log2(l + 1);
    let t = (v + 1 - pow2(l)) as nat;
    lemma_log2_bounds(v + 1);
    lemma_pow2_unfold(l + 1);
    lemma_gamma_closed_form(l);
    lemma_gamma_len(v, true);
    lemma_gamma_len(v, false);
    lemma_msb_concat(gamma_m2l_value(l), 2 * m + 1, t, l);
    lemma_lsb_concat(gamma_l2m_value(l), 2 * m + 1, t, l);
    crate::writer::lemma_shift_add_bound(gamma_m2l_value(l), 2 * m + 1, t, l);
    crate::writer::lemma_shift_add_bound(t, l, gamma_l2m_value(l), 2 * m + 1);
    vstd::arithmetic::mul::lemma_mul_is_commutative(t as int, pow2(2 * m + 1) as int);
    assert((2 * m + 1 + l) as nat == (l + (2 * m + 1)) as nat);
}

/// The closed form of a γ code, L2M, once the logarithm and powers are known.
pub proof fn lemma_gamma_values_at(x: nat, m: nat, pm: nat, pm1: nat)
    requires
        log2(x + 1) == m,
        pow2(m) == pm,
        pow2(m + 1) == pm1,
        x + 1 >= pm,
    ensures
        gamma_l2m_value(x) == pm + (x + 1 - pm) * pm1,
{
}

/// The closed forms of a δ code, once the logarithms and powers are known.
pub proof fn lemma_delta_values_at(v: nat, l: nat, m: nat, pl: nat, pm: nat, pm1: nat, p2m1: nat)
    requires
        log2(v + 1) == l,
        log2(l + 1) == m,
        pow2(l) == pl,
        pow2(m) == pm,
        pow2(m + 1) == pm1,
        pow2(2 * m + 1) == p2m1,
        v + 1 >= pl,
        l + 1 >= pm,
    ensures
        delta_m2l_value(v) == (l + 1) * pl + (v + 1 - pl),
        delta_l2m_value(v) == pm + (l + 1 - pm) * pm1 + (v + 1 - pl) * p2m1,
{
}

/// Returns the floor of the base-2 logarithm of `value`, which must be nonzero.
pub fn fast_floor_log2(value: u64) -> (r: u32)
    requires
        value > 0,
    ensures
        r == log2(value as nat),
        r <= 63,
{
    proof {
        lemma_leading_zeros_log2(value);
    }
    63 - value.leading_zeros()
}

/// The length of the unary code of `value`.
pub fn len_unary<const USE_TABLE: bool>(value: u64) -> (r: usize)
    requires
        value < usize::MAX,
    ensures
        r == unary_code(value as nat).len(),
{
    if USE_TABLE && value <= unary_tables::WRITE_MAX {
        proof {
            unary_tables::lemma_len_table(value as int);
        }
        return unary_tables::LEN[value as usize] as usize;
    }
    (value + 1) as usize
}

/// The length of the γ code of `value`.
pub fn len_gamma<const USE_TABLE: bool>(value: u64) -> (r: usize)
    requires
        value < u64::MAX,
    ensures
        r == gamma_code(value as nat, true).len(),
        r == gamma_code(value as nat, false).len(),
        r <= 127,
{
    proof {
        lemma_gamma_len(value as nat, true);
        lemma_gamma_len(value as nat, false);
    }
    if USE_TABLE && value <= gamma_tables::WRITE_MAX {
        proof {
            gamma_tables::lemma_len_table(value as int);
        }
        return gamma_tables::LEN[value as usize] as usize;
    }
    2 * fast_floor_log2(value + 1) as usize + 1
}

/// The length of the δ code of `value`.
pub fn len_delta<const USE_TABLE: bool>(value: u64) -> (r: usize)
    requires
        value < u64::MAX,
    ensures
        r == delta_code(value as nat, true).len(),
        r == delta_code(value as nat, false).len(),
{
    proof {
        lemma_gamma_len(value as nat, true);
        lemma_gamma_len(value as nat, false);
    }
    if USE_TABLE && value <= delta_tables::WRITE_MAX {
        proof {
            delta_tables::lemma_len_table(value as int);
        }
        return delta_tables::LEN[value as usize] as usize;
    }
    let l = fast_floor_log2(value + 1);
    l as usize + len_gamma::<USE_TABLE>(l as u64)
}

} // verus!
