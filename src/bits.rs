//! Mathematical model of bit strings: fields of integers laid out in either
//! bit order, and the lemmas that connect them to word arithmetic.
use vstd::arithmetic::div_mod::*;
use vstd::arithmetic::mul::*;
use vstd::arithmetic::power2::*;
use vstd::prelude::*;

verus! {

/// The `n` low bits of `x`, most significant first.
pub open spec fn bits_msb(x: nat, n: nat) -> Seq<bool>
    decreases n,
{
    if n == 0 {
        Seq::empty()
    } else {
        bits_msb(x / 2, (n - 1) as nat).push(x % 2 == 1)
    }
}

/// The `n` low bits of `x`, least significant first.
pub open spec fn bits_lsb(x: nat, n: nat) -> Seq<bool>
    decreases n,
{
    if n == 0 {
        Seq::empty()
    } else {
        seq![x % 2 == 1] + bits_lsb(x / 2, (n - 1) as nat)
    }
}

/// A field of `n` bits holding the low bits of `x`, in stream order: most
/// significant bit first for `m2l`, least significant bit first otherwise.
pub open spec fn field(x: nat, n: nat, m2l: bool) -> Seq<bool> {
    if m2l {
        bits_msb(x, n)
    } else {
        bits_lsb(x, n)
    }
}

/// `n` zero bits.
pub open spec fn zeros(n: nat) -> Seq<bool> {
    Seq::new(n, |i: int| false)
}

/// Bit `i` of `x`, counting from the least significant.
pub open spec fn bit_of(x: nat, i: nat) -> bool {
    (x / pow2(i)) % 2 == 1
}

pub proof fn lemma_field_len(x: nat, n: nat, m2l: bool)
    ensures
        bits_msb(x, n).len() == n,
        bits_lsb(x, n).len() == n,
        #[trigger] field(x, n, m2l).len() == n,
    decreases n,
{
    if n > 0 {
        lemma_field_len(x / 2, (n - 1) as nat, m2l);
    }
}

proof fn lemma_halves(a: nat, t: nat, b: nat, n: nat)
    requires
        n > 0,
        t == a * pow2((n - 1) as nat),
        b < pow2(n),
    ensures
        (a * pow2(n) + b) / 2 == t + b / 2,
        (a * pow2(n) + b) % 2 == b % 2,
        b / 2 < pow2((n - 1) as nat),
{
    lemma_pow2_unfold(n);
    let p = pow2((n - 1) as nat);
    assert(a * pow2(n) == 2 * t) by (nonlinear_arith)
        requires
            pow2(n) == 2 * p,
            t == a * p,
    ;
    assert(b == 2 * (b / 2) + b % 2);
}

/// Appending fields, most significant bit first, is shifting and adding.
pub proof fn lemma_msb_concat(a: nat, m: nat, b: nat, n: nat)
    requires
        b < pow2(n),
    ensures
        bits_msb(a, m) + bits_msb(b, n) == bits_msb(a * pow2(n) + b, m + n),
    decreases n,
{
    lemma_field_len(a, m, true);
    if n == 0 {
        lemma2_to64();
        lemma_mul_basics(a as int);
        assert(bits_msb(a, m) + bits_msb(b, n) =~= bits_msb(a, m));
    } else {
        let t = a * pow2((n - 1) as nat);
        lemma_halves(a, t, b, n);
        lemma_msb_concat(a, m, b / 2, (n - 1) as nat);
        assert(bits_msb(a, m) + bits_msb(b, n) =~= (bits_msb(a, m) + bits_msb(
            b / 2,
            (n - 1) as nat,
        )).push(b % 2 == 1));
    }
}

/// Appending fields, least significant bit first, is adding at a higher power.
pub proof fn lemma_lsb_concat(a: nat, m: nat, b: nat, n: nat)
    requires
        a < pow2(m),
    ensures
        bits_lsb(a, m) + bits_lsb(b, n) == bits_lsb(a + b * pow2(m), m + n),
    decreases m,
{
    lemma_field_len(b, n, false);
    if m == 0 {
        lemma2_to64();
        lemma_mul_basics(b as int);
        assert(bits_lsb(a, m) + bits_lsb(b, n) =~= bits_lsb(b, n));
        assert(a + b * pow2(m) == b);
    } else {
        let t = b * pow2((m - 1) as nat);
        lemma_mul_is_commutative(b as int, pow2(m) as int);
        lemma_mul_is_commutative(b as int, pow2((m - 1) as nat) as int);
        lemma_halves(b, t, a, m);
        lemma_lsb_concat(a / 2, (m - 1) as nat, b, n);
        assert(bits_lsb(a, m) + bits_lsb(b, n) =~= seq![a % 2 == 1] + (bits_lsb(
            a / 2,
            (m - 1) as nat,
        ) + bits_lsb(b, n)));
    }
}

/// Splitting a field, most significant bit first, into its high and low parts.
pub proof fn lemma_msb_split(x: nat, m: nat, n: nat)
    ensures
        bits_msb(x, m + n) == bits_msb(x / pow2(n), m) + bits_msb(x % pow2(n), n),
{
    lemma_pow2_pos(n);
    lemma_fundamental_div_mod(x as int, pow2(n) as int);
    lemma_mul_is_commutative(pow2(n) as int, (x / pow2(n)) as int);
    lemma_msb_concat(x / pow2(n), m, x % pow2(n), n);
}

/// Splitting a field, least significant bit first, into its low and high parts.
pub proof fn lemma_lsb_split(x: nat, m: nat, n: nat)
    ensures
        bits_lsb(x, m + n) == bits_lsb(x % pow2(m), m) + bits_lsb(x / pow2(m), n),
{
    lemma_pow2_pos(m);
    lemma_fundamental_div_mod(x as int, pow2(m) as int);
    lemma_mul_is_commutative(pow2(m) as int, (x / pow2(m)) as int);
    lemma_lsb_concat(x % pow2(m), m, x / pow2(m), n);
}

/// The bits `i .. i + n` of a `k`-bit field, most significant bit first.
pub proof fn lemma_msb_window(x: nat, k: nat, i: nat, n: nat)
    requires
        i + n <= k,
    ensures
        bits_msb(x, k).subrange(i as int, (i + n) as int) == bits_msb(
            (x / pow2((k - i - n) as nat)) % pow2(n),
            n,
        ),
{
    let r = (k - i - n) as nat;
    let hi = x / pow2(r);
    lemma_msb_split(x, i + n, r);
    lemma_msb_split(hi, i, n);
    lemma_field_len(hi / pow2(n), i, true);
    lemma_field_len(hi % pow2(n), n, true);
    lemma_field_len(x % pow2(r), r, true);
    assert(bits_msb(x, k) == bits_msb(hi / pow2(n), i) + bits_msb(hi % pow2(n), n) + bits_msb(
        x % pow2(r),
        r,
    ));
    assert(bits_msb(x, k).subrange(i as int, (i + n) as int) =~= bits_msb(hi % pow2(n), n));
}

/// The bits `i .. i + n` of a `k`-bit field, least significant bit first.
pub proof fn lemma_lsb_window(x: nat, k: nat, i: nat, n: nat)
    requires
        i + n <= k,
    ensures
        bits_lsb(x, k).subrange(i as int, (i + n) as int) == bits_lsb(
            (x / pow2(i)) % pow2(n),
            n,
        ),
{
    let r = (k - i - n) as nat;
    let lo = x / pow2(i);
    lemma_lsb_split(x, i, (n + r) as nat);
    lemma_lsb_split(lo, n, r);
    lemma_field_len(x % pow2(i), i, false);
    lemma_field_len(lo % pow2(n), n, false);
    lemma_field_len(lo / pow2(n), r, false);
    assert(bits_lsb(x, k) == bits_lsb(x % pow2(i), i) + bits_lsb(lo % pow2(n), n) + bits_lsb(
        lo / pow2(n),
        r,
    ));
    assert(bits_lsb(x, k).subrange(i as int, (i + n) as int) =~= bits_lsb(lo % pow2(n), n));
}

/// The field of zero holds only zeros.
pub proof fn lemma_field_zero(n: nat, m2l: bool)
    ensures
        field(0, n, m2l) == zeros(n),
        bits_msb(0, n) == zeros(n),
        bits_lsb(0, n) == zeros(n),
    decreases n,
{
    if n > 0 {
        lemma_field_zero((n - 1) as nat, m2l);
        assert(bits_msb(0, n) =~= zeros(n));
        assert(bits_lsb(0, n) =~= zeros(n));
    }
}

/// Index form of a field, most significant bit first.
pub proof fn lemma_msb_index(x: nat, n: nat, j: nat)
    requires
        j < n,
    ensures
        bits_msb(x, n)[j as int] == bit_of(x, (n - 1 - j) as nat),
    decreases n,
{
    lemma_field_len(x, n, true);
    lemma_field_len(x / 2, (n - 1) as nat, true);
    if j == n - 1 {
        lemma2_to64();
        assert(x / 1 == x);
    } else {
        lemma_msb_index(x / 2, (n - 1) as nat, j);
        lemma_bit_of_half(x, (n - 2 - j) as nat);
    }
}

/// Index form of a field, least significant bit first.
pub proof fn lemma_lsb_index(x: nat, n: nat, j: nat)
    requires
        j < n,
    ensures
        bits_lsb(x, n)[j as int] == bit_of(x, j),
    decreases n,
{
    lemma_field_len(x, n, false);
    lemma_field_len(x / 2, (n - 1) as nat, false);
    if j == 0 {
        lemma2_to64();
        assert(x / 1 == x);
    } else {
        lemma_lsb_index(x / 2, (n - 1) as nat, (j - 1) as nat);
        lemma_bit_of_half(x, (j - 1) as nat);
    }
}

proof fn lemma_bit_of_half(x: nat, i: nat)
    ensures
        bit_of(x / 2, i) == bit_of(x, i + 1),
{
    lemma_pow2_unfold(i + 1);
    lemma_pow2_pos(i);
    lemma_div_denominator(x as int, 2, pow2(i) as int);
}

/// Two values below `2^n` with the same field are equal.
pub proof fn lemma_field_injective(x: nat, y: nat, n: nat, m2l: bool)
    requires
        x < pow2(n),
        y < pow2(n),
        field(x, n, m2l) == field(y, n, m2l),
    ensures
        x == y,
    decreases n,
{
    if n == 0 {
        lemma2_to64();
    } else {
        lemma_pow2_unfold(n);
        lemma_field_len(x / 2, (n - 1) as nat, m2l);
        lemma_field_len(y / 2, (n - 1) as nat, m2l);
        if m2l {
            assert(bits_msb(x, n).last() == (x % 2 == 1));
            assert(bits_msb(x / 2, (n - 1) as nat) == bits_msb(x, n).drop_last());
            assert(bits_msb(y / 2, (n - 1) as nat) == bits_msb(y, n).drop_last());
        } else {
            assert(bits_lsb(x, n)[0] == (x % 2 == 1));
            assert(bits_lsb(y, n)[0] == (y % 2 == 1));
            assert(bits_lsb(x / 2, (n - 1) as nat) == bits_lsb(x, n).subrange(1, n as int));
            assert(bits_lsb(y / 2, (n - 1) as nat) == bits_lsb(y, n).subrange(1, n as int));
        }
        lemma_field_injective(x / 2, y / 2, (n - 1) as nat, m2l);
    }
}

} // verus!
