//! Precomputed tables for unary codes: the decoding of every 5-bit window,
//! and the encoding of the smallest values, in both bit orders.
use crate::bits::{bits_lsb, bits_msb, field, zeros};
use crate::traits::{BitOrder, BitRead, BitStreamError, BitWrite, unary_at, unary_code, L2M, M2L};
use crate::writer::lemma_one_field;
use vstd::arithmetic::power2::{lemma2_to64, lemma2_to64_rest, pow2};
use vstd::prelude::*;

verus! {

/// How many bits the read tables look at.
pub const READ_BITS: usize = 5;

/// The length given to a window that holds no whole code.
pub const MISSING_VALUE_LEN: u8 = 255;

/// The largest value that the write tables encode.
pub const WRITE_MAX: u64 = 63;

/// Whether a window of bits starts with a whole unary code: a one among its
/// first five bits.
pub open spec fn starts_code(f: Seq<bool>) -> bool {
    f[0] || f[1] || f[2] || f[3] || f[4]
}

/// Whether a unary code of at most `READ_BITS` bits starts at `p` in `s`.
pub open spec fn code_in_window(s: Seq<bool>, p: int, m2l: bool) -> bool {
    exists|n: nat| n < 5 && #[trigger] unary_at(s, p, n)
}

proof fn lemma_code_in_window(s: Seq<bool>, p: int, m2l: bool)
    requires
        code_in_window(s, p, m2l),
        0 <= p,
        p + 5 <= s.len(),
    ensures
        starts_code(s.subrange(p, p + 5)),
{
    let n = choose|n: nat| n < 5 && #[trigger] unary_at(s, p, n);
    assert(s.subrange(p, p + n + 1)[n as int] == s[p + n]);
    assert(s.subrange(p, p + 5)[n as int] == s[p + n]);
}

/// Decoded value for each window, M2L.
pub const READ_M2L: [u8; 32] = [
    0, 4, 3, 3, 2, 2, 2, 2, 1, 1, 1, 1, 1, 1, 1, 1, 0, 0, 0, 0, 0, 0, 0, 0, 0, 0, 0, 0, 0, 0, 0, 0,
];

/// Code length for each window, M2L.
pub const READ_LEN_M2L: [u8; 32] = [
    255, 5, 4, 4, 3, 3, 3, 3, 2, 2, 2, 2, 2, 2, 2, 2, 1, 1, 1, 1, 1, 1, 1, 1, 1, 1, 1, 1, 1, 1, 1,
    1,
];

/// Decoded value for each window, L2M.
pub const READ_L2M: [u8; 32] = [
    0, 0, 1, 0, 2, 0, 1, 0, 3, 0, 1, 0, 2, 0, 1, 0, 4, 0, 1, 0, 2, 0, 1, 0, 3, 0, 1, 0, 2, 0, 1, 0,
];

/// Code length for each window, L2M.
pub const READ_LEN_L2M: [u8; 32] = [
    255, 1, 2, 1, 3, 1, 2, 1, 4, 1, 2, 1, 3, 1, 2, 1, 5, 1, 2, 1, 3, 1, 2, 1, 4, 1, 2, 1, 3, 1, 2,
    1,
];

/// Code of each small value, right-justified, M2L.
pub const WRITE_M2L: [u64; 64] = [
    1, 1, 1, 1, 1, 1, 1, 1, 1, 1, 1, 1, 1, 1, 1, 1, 1, 1, 1, 1, 1, 1, 1, 1, 1, 1, 1, 1, 1, 1, 1, 1,
    1, 1, 1, 1, 1, 1, 1, 1, 1, 1, 1, 1, 1, 1, 1, 1, 1, 1, 1, 1, 1, 1, 1, 1, 1, 1, 1, 1, 1, 1, 1, 1,
];

/// Code length of each small value, M2L.
pub const WRITE_LEN_M2L: [u64; 64] = [
    1, 2, 3, 4, 5, 6, 7, 8, 9, 10, 11, 12, 13, 14, 15, 16, 17, 18, 19, 20, 21, 22, 23, 24, 25, 26,
    27, 28, 29, 30, 31, 32, 33, 34, 35, 36, 37, 38, 39, 40, 41, 42, 43, 44, 45, 46, 47, 48, 49, 50,
    51, 52, 53, 54, 55, 56, 57, 58, 59, 60, 61, 62, 63, 64,
];

/// Code of each small value, right-justified, L2M.
pub const WRITE_L2M: [u64; 64] = [
    1, 2, 4, 8, 16, 32, 64, 128, 256, 512, 1024, 2048, 4096, 8192, 16384, 32768, 65536, 131072,
    262144, 524288, 1048576, 2097152, 4194304, 8388608, 16777216, 33554432, 67108864, 134217728,
    268435456, 536870912, 1073741824, 2147483648, 4294967296, 8589934592, 17179869184, 34359738368,
    68719476736, 137438953472, 274877906944, 549755813888, 1099511627776, 2199023255552,
    4398046511104, 8796093022208, 17592186044416, 35184372088832, 70368744177664, 140737488355328,
    281474976710656, 562949953421312, 1125899906842624, 2251799813685248, 4503599627370496,
    9007199254740992, 18014398509481984, 36028797018963968, 72057594037927936, 144115188075855872,
    288230376151711744, 576460752303423488, 1152921504606846976, 2305843009213693952,
    4611686018427387904, 9223372036854775808,
];

/// Code length of each small value, L2M.
pub const WRITE_LEN_L2M: [u64; 64] = [
    1, 2, 3, 4, 5, 6, 7, 8, 9, 10, 11, 12, 13, 14, 15, 16, 17, 18, 19, 20, 21, 22, 23, 24, 25, 26,
    27, 28, 29, 30, 31, 32, 33, 34, 35, 36, 37, 38, 39, 40, 41, 42, 43, 44, 45, 46, 47, 48, 49, 50,
    51, 52, 53, 54, 55, 56, 57, 58, 59, 60, 61, 62, 63, 64,
];

/// Code length of each small value.
pub const LEN: [u8; 64] = [
    1, 2, 3, 4, 5, 6, 7, 8, 9, 10, 11, 12, 13, 14, 15, 16, 17, 18, 19, 20, 21, 22, 23, 24, 25, 26,
    27, 28, 29, 30, 31, 32, 33, 34, 35, 36, 37, 38, 39, 40, 41, 42, 43, 44, 45, 46, 47, 48, 49, 50,
    51, 52, 53, 54, 55, 56, 57, 58, 59, 60, 61, 62, 63, 64,
];

/// Every entry of the M2L read table that is not missing is the code of
/// its value at the start of its window.
pub proof fn lemma_read_table_m2l(idx: int)
    requires
        0 <= idx < 32,
    ensures
        READ_LEN_M2L[idx] != MISSING_VALUE_LEN ==> READ_LEN_M2L[idx] <= 5 && unary_code(READ_M2L[idx] as nat).len()
            == READ_LEN_M2L[idx] && field(idx as nat, 5, true).subrange(0, READ_LEN_M2L[idx] as int)
            == unary_code(READ_M2L[idx] as nat),
        READ_LEN_M2L[idx] == MISSING_VALUE_LEN <==> !starts_code(field(idx as nat, 5, true)),
{
    reveal_with_fuel(bits_msb, 6);
    if idx == 0 {
        assert(!starts_code(bits_msb(0, 5)));
    } else if idx == 1 {
        assert(bits_msb(1, 5).subrange(0, 5) =~= unary_code(4));
        assert(starts_code(bits_msb(1, 5)));
    } else if idx == 2 {
        assert(bits_msb(2, 5).subrange(0, 4) =~= unary_code(3));
        assert(starts_code(bits_msb(2, 5)));
    } else if idx == 3 {
        assert(bits_msb(3, 5).subrange(0, 4) =~= unary_code(3));
        assert(starts_code(bits_msb(3, 5)));
    } else if idx == 4 {
        assert(bits_msb(4, 5).subrange(0, 3) =~= unary_code(2));
        assert(starts_code(bits_msb(4, 5)));
    } else if idx == 5 {
        assert(bits_msb(5, 5).subrange(0, 3) =~= unary_code(2));
        assert(starts_code(bits_msb(5, 5)));
    } else if idx == 6 {
        assert(bits_msb(6, 5).subrange(0, 3) =~= unary_code(2));
        assert(starts_code(bits_msb(6, 5)));
    } else if idx == 7 {
        assert(bits_msb(7, 5).subrange(0, 3) =~= unary_code(2));
        assert(starts_code(bits_msb(7, 5)));
    } else if idx == 8 {
        assert(bits_msb(8, 5).subrange(0, 2) =~= unary_code(1));
        assert(starts_code(bits_msb(8, 5)));
    } else if idx == 9 {
        assert(bits_msb(9, 5).subrange(0, 2) =~= unary_code(1));
        assert(starts_code(bits_msb(9, 5)));
    } else if idx == 10 {
        assert(bits_msb(10, 5).subrange(0, 2) =~= unary_code(1));
        assert(starts_code(bits_msb(10, 5)));
    } else if idx == 11 {
        assert(bits_msb(11, 5).subrange(0, 2) =~= unary_code(1));
        assert(starts_code(bits_msb(11, 5)));
    } else if idx == 12 {
        assert(bits_msb(12, 5).subrange(0, 2) =~= unary_code(1));
        assert(starts_code(bits_msb(12, 5)));
    } else if idx == 13 {
        assert(bits_msb(13, 5).subrange(0, 2) =~= unary_code(1));
        assert(starts_code(bits_msb(13, 5)));
    } else if idx == 14 {
        assert(bits_msb(14, 5).subrange(0, 2) =~= unary_code(1));
        assert(starts_code(bits_msb(14, 5)));
    } else if idx == 15 {
        assert(bits_msb(15, 5).subrange(0, 2) =~= unary_code(1));
        assert(starts_code(bits_msb(15, 5)));
    } else if idx == 16 {
        assert(bits_msb(16, 5).subrange(0, 1) =~= unary_code(0));
        assert(starts_code(bits_msb(16, 5)));
    } else if idx == 17 {
        assert(bits_msb(17, 5).subrange(0, 1) =~= unary_code(0));
        assert(starts_code(bits_msb(17, 5)));
    } else if idx == 18 {
        assert(bits_msb(18, 5).subrange(0, 1) =~= unary_code(0));
        assert(starts_code(bits_msb(18, 5)));
    } else if idx == 19 {
        assert(bits_msb(19, 5).subrange(0, 1) =~= unary_code(0));
        assert(starts_code(bits_msb(19, 5)));
    } else if idx == 20 {
        assert(bits_msb(20, 5).subrange(0, 1) =~= unary_code(0));
        assert(starts_code(bits_msb(20, 5)));
    } else if idx == 21 {
        assert(bits_msb(21, 5).subrange(0, 1) =~= unary_code(0));
        assert(starts_code(bits_msb(21, 5)));
    } else if idx == 22 {
        assert(bits_msb(22, 5).subrange(0, 1) =~= unary_code(0));
        assert(starts_code(bits_msb(22, 5)));
    } else if idx == 23 {
        assert(bits_msb(23, 5).subrange(0, 1) =~= unary_code(0));
        assert(starts_code(bits_msb(23, 5)));
    } else if idx == 24 {
        assert(bits_msb(24, 5).subrange(0, 1) =~= unary_code(0));
        assert(starts_code(bits_msb(24, 5)));
    } else if idx == 25 {
        assert(bits_msb(25, 5).subrange(0, 1) =~= unary_code(0));
        assert(starts_code(bits_msb(25, 5)));
    } else if idx == 26 {
        assert(bits_msb(26, 5).subrange(0, 1) =~= unary_code(0));
        assert(starts_code(bits_msb(26, 5)));
    } else if idx == 27 {
        assert(bits_msb(27, 5).subrange(0, 1) =~= unary_code(0));
        assert(starts_code(bits_msb(27, 5)));
    } else if idx == 28 {
        assert(bits_msb(28, 5).subrange(0, 1) =~= unary_code(0));
        assert(starts_code(bits_msb(28, 5)));
    } else if idx == 29 {
        assert(bits_msb(29, 5).subrange(0, 1) =~= unary_code(0));
        assert(starts_code(bits_msb(29, 5)));
    } else if idx == 30 {
        assert(bits_msb(30, 5).subrange(0, 1) =~= unary_code(0));
        assert(starts_code(bits_msb(30, 5)));
    } else if idx == 31 {
        assert(bits_msb(31, 5).subrange(0, 1) =~= unary_code(0));
        assert(starts_code(bits_msb(31, 5)));
    }
}

/// Every entry of the L2M read table that is not missing is the code of
/// its value at the start of its window.
pub proof fn lemma_read_table_l2m(idx: int)
    requires
        0 <= idx < 32,
    ensures
        READ_LEN_L2M[idx] != MISSING_VALUE_LEN ==> READ_LEN_L2M[idx] <= 5 && unary_code(READ_L2M[idx] as nat).len()
            == READ_LEN_L2M[idx] && field(idx as nat, 5, false).subrange(0, READ_LEN_L2M[idx] as int)
            == unary_code(READ_L2M[idx] as nat),
        READ_LEN_L2M[idx] == MISSING_VALUE_LEN <==> !starts_code(field(idx as nat, 5, false)),
{
    reveal_with_fuel(bits_lsb, 6);
    if idx == 0 {
        assert(!starts_code(bits_lsb(0, 5)));
    } else if idx == 1 {
        assert(bits_lsb(1, 5).subrange(0, 1) =~= unary_code(0));
        assert(starts_code(bits_lsb(1, 5)));
    } else if idx == 2 {
        assert(bits_lsb(2, 5).subrange(0, 2) =~= unary_code(1));
        assert(starts_code(bits_lsb(2, 5)));
    } else if idx == 3 {
        assert(bits_lsb(3, 5).subrange(0, 1) =~= unary_code(0));
        assert(starts_code(bits_lsb(3, 5)));
    } else if idx == 4 {
        assert(bits_lsb(4, 5).subrange(0, 3) =~= unary_code(2));
        assert(starts_code(bits_lsb(4, 5)));
    } else if idx == 5 {
        assert(bits_lsb(5, 5).subrange(0, 1) =~= unary_code(0));
        assert(starts_code(bits_lsb(5, 5)));
    } else if idx == 6 {
        assert(bits_lsb(6, 5).subrange(0, 2) =~= unary_code(1));
        assert(starts_code(bits_lsb(6, 5)));
    } else if idx == 7 {
        assert(bits_lsb(7, 5).subrange(0, 1) =~= unary_code(0));
        assert(starts_code(bits_lsb(7, 5)));
    } else if idx == 8 {
        assert(bits_lsb(8, 5).subrange(0, 4) =~= unary_code(3));
        assert(starts_code(bits_lsb(8, 5)));
    } else if idx == 9 {
        assert(bits_lsb(9, 5).subrange(0, 1) =~= unary_code(0));
        assert(starts_code(bits_lsb(9, 5)));
    } else if idx == 10 {
        assert(bits_lsb(10, 5).subrange(0, 2) =~= unary_code(1));
        assert(starts_code(bits_lsb(10, 5)));
    } else if idx == 11 {
        assert(bits_lsb(11, 5).subrange(0, 1) =~= unary_code(0));
        assert(starts_code(bits_lsb(11, 5)));
    } else if idx == 12 {
        assert(bits_lsb(12, 5).subrange(0, 3) =~= unary_code(2));
        assert(starts_code(bits_lsb(12, 5)));
    } else if idx == 13 {
        assert(bits_lsb(13, 5).subrange(0, 1) =~= unary_code(0));
        assert(starts_code(bits_lsb(13, 5)));
    } else if idx == 14 {
        assert(bits_lsb(14, 5).subrange(0, 2) =~= unary_code(1));
        assert(starts_code(bits_lsb(14, 5)));
    } else if idx == 15 {
        assert(bits_lsb(15, 5).subrange(0, 1) =~= unary_code(0));
        assert(starts_code(bits_lsb(15, 5)));
    } else if idx == 16 {
        assert(bits_lsb(16, 5).subrange(0, 5) =~= unary_code(4));
        assert(starts_code(bits_lsb(16, 5)));
    } else if idx == 17 {
        assert(bits_lsb(17, 5).subrange(0, 1) =~= unary_code(0));
        assert(starts_code(bits_lsb(17, 5)));
    } else if idx == 18 {
        assert(bits_lsb(18, 5).subrange(0, 2) =~= unary_code(1));
        assert(starts_code(bits_lsb(18, 5)));
    } else if idx == 19 {
        assert(bits_lsb(19, 5).subrange(0, 1) =~= unary_code(0));
        assert(starts_code(bits_lsb(19, 5)));
    } else if idx == 20 {
        assert(bits_lsb(20, 5).subrange(0, 3) =~= unary_code(2));
        assert(starts_code(bits_lsb(20, 5)));
    } else if idx == 21 {
        assert(bits_lsb(21, 5).subrange(0, 1) =~= unary_code(0));
        assert(starts_code(bits_lsb(21, 5)));
    } else if idx == 22 {
        assert(bits_lsb(22, 5).subrange(0, 2) =~= unary_code(1));
        assert(starts_code(bits_lsb(22, 5)));
    } else if idx == 23 {
        assert(bits_lsb(23, 5).subrange(0, 1) =~= unary_code(0));
        assert(starts_code(bits_lsb(23, 5)));
    } else if idx == 24 {
        assert(bits_lsb(24, 5).subrange(0, 4) =~= unary_code(3));
        assert(starts_code(bits_lsb(24, 5)));
    } else if idx == 25 {
        assert(bits_lsb(25, 5).subrange(0, 1) =~= unary_code(0));
        assert(starts_code(bits_lsb(25, 5)));
    } else if idx == 26 {
        assert(bits_lsb(26, 5).subrange(0, 2) =~= unary_code(1));
        assert(starts_code(bits_lsb(26, 5)));
    } else if idx == 27 {
        assert(bits_lsb(27, 5).subrange(0, 1) =~= unary_code(0));
        assert(starts_code(bits_lsb(27, 5)));
    } else if idx == 28 {
        assert(bits_lsb(28, 5).subrange(0, 3) =~= unary_code(2));
        assert(starts_code(bits_lsb(28, 5)));
    } else if idx == 29 {
        assert(bits_lsb(29, 5).subrange(0, 1) =~= unary_code(0));
        assert(starts_code(bits_lsb(29, 5)));
    } else if idx == 30 {
        assert(bits_lsb(30, 5).subrange(0, 2) =~= unary_code(1));
        assert(starts_code(bits_lsb(30, 5)));
    } else if idx == 31 {
        assert(bits_lsb(31, 5).subrange(0, 1) =~= unary_code(0));
        assert(starts_code(bits_lsb(31, 5)));
    }
}

/// Every entry of the M2L write table is the code of its index.
pub proof fn lemma_write_table_m2l(v: int)
    requires
        0 <= v <= WRITE_MAX,
    ensures
        WRITE_LEN_M2L[v] <= 64,
        WRITE_M2L[v] < pow2(WRITE_LEN_M2L[v] as nat),
        field(WRITE_M2L[v] as nat, WRITE_LEN_M2L[v] as nat, true) == unary_code(v as nat),
        WRITE_LEN_M2L[v] == v + 1,
{
    lemma2_to64();
    lemma2_to64_rest();
    if v == 0 {
        assert(WRITE_M2L[v] == 1 && WRITE_LEN_M2L[v] == v + 1);
    } else if v == 1 {
        assert(WRITE_M2L[v] == 1 && WRITE_LEN_M2L[v] == v + 1);
    } else if v == 2 {
        assert(WRITE_M2L[v] == 1 && WRITE_LEN_M2L[v] == v + 1);
    } else if v == 3 {
        assert(WRITE_M2L[v] == 1 && WRITE_LEN_M2L[v] == v + 1);
    } else if v == 4 {
        assert(WRITE_M2L[v] == 1 && WRITE_LEN_M2L[v] == v + 1);
    } else if v == 5 {
        assert(WRITE_M2L[v] == 1 && WRITE_LEN_M2L[v] == v + 1);
    } else if v == 6 {
        assert(WRITE_M2L[v] == 1 && WRITE_LEN_M2L[v] == v + 1);
    } else if v == 7 {
        assert(WRITE_M2L[v] == 1 && WRITE_LEN_M2L[v] == v + 1);
    } else if v == 8 {
        assert(WRITE_M2L[v] == 1 && WRITE_LEN_M2L[v] == v + 1);
    } else if v == 9 {
        assert(WRITE_M2L[v] == 1 && WRITE_LEN_M2L[v] == v + 1);
    } else if v == 10 {
        assert(WRITE_M2L[v] == 1 && WRITE_LEN_M2L[v] == v + 1);
    } else if v == 11 {
        assert(WRITE_M2L[v] == 1 && WRITE_LEN_M2L[v] == v + 1);
    } else if v == 12 {
        assert(WRITE_M2L[v] == 1 && WRITE_LEN_M2L[v] == v + 1);
    } else if v == 13 {
        assert(WRITE_M2L[v] == 1 && WRITE_LEN_M2L[v] == v + 1);
    } else if v == 14 {
        assert(WRITE_M2L[v] == 1 && WRITE_LEN_M2L[v] == v + 1);
    } else if v == 15 {
        assert(WRITE_M2L[v] == 1 && WRITE_LEN_M2L[v] == v + 1);
    } else if v == 16 {
        assert(WRITE_M2L[v] == 1 && WRITE_LEN_M2L[v] == v + 1);
    } else if v == 17 {
        assert(WRITE_M2L[v] == 1 && WRITE_LEN_M2L[v] == v + 1);
    } else if v == 18 {
        assert(WRITE_M2L[v] == 1 && WRITE_LEN_M2L[v] == v + 1);
    } else if v == 19 {
        assert(WRITE_M2L[v] == 1 && WRITE_LEN_M2L[v] == v + 1);
    } else if v == 20 {
        assert(WRITE_M2L[v] == 1 && WRITE_LEN_M2L[v] == v + 1);
    } else if v == 21 {
        assert(WRITE_M2L[v] == 1 && WRITE_LEN_M2L[v] == v + 1);
    } else if v == 22 {
        assert(WRITE_M2L[v] == 1 && WRITE_LEN_M2L[v] == v + 1);
    } else if v == 23 {
        assert(WRITE_M2L[v] == 1 && WRITE_LEN_M2L[v] == v + 1);
    } else if v == 24 {
        assert(WRITE_M2L[v] == 1 && WRITE_LEN_M2L[v] == v + 1);
    } else if v == 25 {
        assert(WRITE_M2L[v] == 1 && WRITE_LEN_M2L[v] == v + 1);
    } else if v == 26 {
        assert(WRITE_M2L[v] == 1 && WRITE_LEN_M2L[v] == v + 1);
    } else if v == 27 {
        assert(WRITE_M2L[v] == 1 && WRITE_LEN_M2L[v] == v + 1);
    } else if v == 28 {
        assert(WRITE_M2L[v] == 1 && WRITE_LEN_M2L[v] == v + 1);
    } else if v == 29 {
        assert(WRITE_M2L[v] == 1 && WRITE_LEN_M2L[v] == v + 1);
    } else if v == 30 {
        assert(WRITE_M2L[v] == 1 && WRITE_LEN_M2L[v] == v + 1);
    } else if v == 31 {
        assert(WRITE_M2L[v] == 1 && WRITE_LEN_M2L[v] == v + 1);
    } else if v == 32 {
        assert(WRITE_M2L[v] == 1 && WRITE_LEN_M2L[v] == v + 1);
    } else if v == 33 {
        assert(WRITE_M2L[v] == 1 && WRITE_LEN_M2L[v] == v + 1);
    } else if v == 34 {
        assert(WRITE_M2L[v] == 1 && WRITE_LEN_M2L[v] == v + 1);
    } else if v == 35 {
        assert(WRITE_M2L[v] == 1 && WRITE_LEN_M2L[v] == v + 1);
    } else if v == 36 {
        assert(WRITE_M2L[v] == 1 && WRITE_LEN_M2L[v] == v + 1);
    } else if v == 37 {
        assert(WRITE_M2L[v] == 1 && WRITE_LEN_M2L[v] == v + 1);
    } else if v == 38 {
        assert(WRITE_M2L[v] == 1 && WRITE_LEN_M2L[v] == v + 1);
    } else if v == 39 {
        assert(WRITE_M2L[v] == 1 && WRITE_LEN_M2L[v] == v + 1);
    } else if v == 40 {
        assert(WRITE_M2L[v] == 1 && WRITE_LEN_M2L[v] == v + 1);
    } else if v == 41 {
        assert(WRITE_M2L[v] == 1 && WRITE_LEN_M2L[v] == v + 1);
    } else if v == 42 {
        assert(WRITE_M2L[v] == 1 && WRITE_LEN_M2L[v] == v + 1);
    } else if v == 43 {
        assert(WRITE_M2L[v] == 1 && WRITE_LEN_M2L[v] == v + 1);
    } else if v == 44 {
        assert(WRITE_M2L[v] == 1 && WRITE_LEN_M2L[v] == v + 1);
    } else if v == 45 {
        assert(WRITE_M2L[v] == 1 && WRITE_LEN_M2L[v] == v + 1);
    } else if v == 46 {
        assert(WRITE_M2L[v] == 1 && WRITE_LEN_M2L[v] == v + 1);
    } else if v == 47 {
        assert(WRITE_M2L[v] == 1 && WRITE_LEN_M2L[v] == v + 1);
    } else if v == 48 {
        assert(WRITE_M2L[v] == 1 && WRITE_LEN_M2L[v] == v + 1);
    } else if v == 49 {
        assert(WRITE_M2L[v] == 1 && WRITE_LEN_M2L[v] == v + 1);
    } else if v == 50 {
        assert(WRITE_M2L[v] == 1 && WRITE_LEN_M2L[v] == v + 1);
    } else if v == 51 {
        assert(WRITE_M2L[v] == 1 && WRITE_LEN_M2L[v] == v + 1);
    } else if v == 52 {
        assert(WRITE_M2L[v] == 1 && WRITE_LEN_M2L[v] == v + 1);
    } else if v == 53 {
        assert(WRITE_M2L[v] == 1 && WRITE_LEN_M2L[v] == v + 1);
    } else if v == 54 {
        assert(WRITE_M2L[v] == 1 && WRITE_LEN_M2L[v] == v + 1);
    } else if v == 55 {
        assert(WRITE_M2L[v] == 1 && WRITE_LEN_M2L[v] == v + 1);
    } else if v == 56 {
        assert(WRITE_M2L[v] == 1 && WRITE_LEN_M2L[v] == v + 1);
    } else if v == 57 {
        assert(WRITE_M2L[v] == 1 && WRITE_LEN_M2L[v] == v + 1);
    } else if v == 58 {
        assert(WRITE_M2L[v] == 1 && WRITE_LEN_M2L[v] == v + 1);
    } else if v == 59 {
        assert(WRITE_M2L[v] == 1 && WRITE_LEN_M2L[v] == v + 1);
    } else if v == 60 {
        assert(WRITE_M2L[v] == 1 && WRITE_LEN_M2L[v] == v + 1);
    } else if v == 61 {
        assert(WRITE_M2L[v] == 1 && WRITE_LEN_M2L[v] == v + 1);
    } else if v == 62 {
        assert(WRITE_M2L[v] == 1 && WRITE_LEN_M2L[v] == v + 1);
    } else if v == 63 {
        assert(WRITE_M2L[v] == 1 && WRITE_LEN_M2L[v] == v + 1);
    }
    lemma_one_field((v + 1) as nat);
    vstd::arithmetic::power2::lemma_pow2_strictly_increases(v as nat, (v + 1) as nat);
    vstd::arithmetic::power2::lemma_pow2_pos((v + 1) as nat);
    assert(unary_code(v as nat) =~= zeros(v as nat).push(true));
}

/// Every entry of the L2M write table is the code of its index.
pub proof fn lemma_write_table_l2m(v: int)
    requires
        0 <= v <= WRITE_MAX,
    ensures
        WRITE_LEN_L2M[v] <= 64,
        WRITE_L2M[v] < pow2(WRITE_LEN_L2M[v] as nat),
        field(WRITE_L2M[v] as nat, WRITE_LEN_L2M[v] as nat, false) == unary_code(v as nat),
        WRITE_LEN_L2M[v] == v + 1,
{
    lemma2_to64();
    lemma2_to64_rest();
    if v == 0 {
        assert(WRITE_L2M[v] == pow2(v as nat) && WRITE_LEN_L2M[v] == v + 1);
    } else if v == 1 {
        assert(WRITE_L2M[v] == pow2(v as nat) && WRITE_LEN_L2M[v] == v + 1);
    } else if v == 2 {
        assert(WRITE_L2M[v] == pow2(v as nat) && WRITE_LEN_L2M[v] == v + 1);
    } else if v == 3 {
        assert(WRITE_L2M[v] == pow2(v as nat) && WRITE_LEN_L2M[v] == v + 1);
    } else if v == 4 {
        assert(WRITE_L2M[v] == pow2(v as nat) && WRITE_LEN_L2M[v] == v + 1);
    } else if v == 5 {
        assert(WRITE_L2M[v] == pow2(v as nat) && WRITE_LEN_L2M[v] == v + 1);
    } else if v == 6 {
        assert(WRITE_L2M[v] == pow2(v as nat) && WRITE_LEN_L2M[v] == v + 1);
    } else if v == 7 {
        assert(WRITE_L2M[v] == pow2(v as nat) && WRITE_LEN_L2M[v] == v + 1);
    } else if v == 8 {
        assert(WRITE_L2M[v] == pow2(v as nat) && WRITE_LEN_L2M[v] == v + 1);
    } else if v == 9 {
        assert(WRITE_L2M[v] == pow2(v as nat) && WRITE_LEN_L2M[v] == v + 1);
    } else if v == 10 {
        assert(WRITE_L2M[v] == pow2(v as nat) && WRITE_LEN_L2M[v] == v + 1);
    } else if v == 11 {
        assert(WRITE_L2M[v] == pow2(v as nat) && WRITE_LEN_L2M[v] == v + 1);
    } else if v == 12 {
        assert(WRITE_L2M[v] == pow2(v as nat) && WRITE_LEN_L2M[v] == v + 1);
    } else if v == 13 {
        assert(WRITE_L2M[v] == pow2(v as nat) && WRITE_LEN_L2M[v] == v + 1);
    } else if v == 14 {
        assert(WRITE_L2M[v] == pow2(v as nat) && WRITE_LEN_L2M[v] == v + 1);
    } else if v == 15 {
        assert(WRITE_L2M[v] == pow2(v as nat) && WRITE_LEN_L2M[v] == v + 1);
    } else if v == 16 {
        assert(WRITE_L2M[v] == pow2(v as nat) && WRITE_LEN_L2M[v] == v + 1);
    } else if v == 17 {
        assert(WRITE_L2M[v] == pow2(v as nat) && WRITE_LEN_L2M[v] == v + 1);
    } else if v == 18 {
        assert(WRITE_L2M[v] == pow2(v as nat) && WRITE_LEN_L2M[v] == v + 1);
    } else if v == 19 {
        assert(WRITE_L2M[v] == pow2(v as nat) && WRITE_LEN_L2M[v] == v + 1);
    } else if v == 20 {
        assert(WRITE_L2M[v] == pow2(v as nat) && WRITE_LEN_L2M[v] == v + 1);
    } else if v == 21 {
        assert(WRITE_L2M[v] == pow2(v as nat) && WRITE_LEN_L2M[v] == v + 1);
    } else if v == 22 {
        assert(WRITE_L2M[v] == pow2(v as nat) && WRITE_LEN_L2M[v] == v + 1);
    } else if v == 23 {
        assert(WRITE_L2M[v] == pow2(v as nat) && WRITE_LEN_L2M[v] == v + 1);
    } else if v == 24 {
        assert(WRITE_L2M[v] == pow2(v as nat) && WRITE_LEN_L2M[v] == v + 1);
    } else if v == 25 {
        assert(WRITE_L2M[v] == pow2(v as nat) && WRITE_LEN_L2M[v] == v + 1);
    } else if v == 26 {
        assert(WRITE_L2M[v] == pow2(v as nat) && WRITE_LEN_L2M[v] == v + 1);
    } else if v == 27 {
        assert(WRITE_L2M[v] == pow2(v as nat) && WRITE_LEN_L2M[v] == v + 1);
    } else if v == 28 {
        assert(WRITE_L2M[v] == pow2(v as nat) && WRITE_LEN_L2M[v] == v + 1);
    } else if v == 29 {
        assert(WRITE_L2M[v] == pow2(v as nat) && WRITE_LEN_L2M[v] == v + 1);
    } else if v == 30 {
        assert(WRITE_L2M[v] == pow2(v as nat) && WRITE_LEN_L2M[v] == v + 1);
    } else if v == 31 {
        assert(WRITE_L2M[v] == pow2(v as nat) && WRITE_LEN_L2M[v] == v + 1);
    } else if v == 32 {
        assert(WRITE_L2M[v] == pow2(v as nat) && WRITE_LEN_L2M[v] == v + 1);
    } else if v == 33 {
        assert(WRITE_L2M[v] == pow2(v as nat) && WRITE_LEN_L2M[v] == v + 1);
    } else if v == 34 {
        assert(WRITE_L2M[v] == pow2(v as nat) && WRITE_LEN_L2M[v] == v + 1);
    } else if v == 35 {
        assert(WRITE_L2M[v] == pow2(v as nat) && WRITE_LEN_L2M[v] == v + 1);
    } else if v == 36 {
        assert(WRITE_L2M[v] == pow2(v as nat) && WRITE_LEN_L2M[v] == v + 1);
    } else if v == 37 {
        assert(WRITE_L2M[v] == pow2(v as nat) && WRITE_LEN_L2M[v] == v + 1);
    } else if v == 38 {
        assert(WRITE_L2M[v] == pow2(v as nat) && WRITE_LEN_L2M[v] == v + 1);
    } else if v == 39 {
        assert(WRITE_L2M[v] == pow2(v as nat) && WRITE_LEN_L2M[v] == v + 1);
    } else if v == 40 {
        assert(WRITE_L2M[v] == pow2(v as nat) && WRITE_LEN_L2M[v] == v + 1);
    } else if v == 41 {
        assert(WRITE_L2M[v] == pow2(v as nat) && WRITE_LEN_L2M[v] == v + 1);
    } else if v == 42 {
        assert(WRITE_L2M[v] == pow2(v as nat) && WRITE_LEN_L2M[v] == v + 1);
    } else if v == 43 {
        assert(WRITE_L2M[v] == pow2(v as nat) && WRITE_LEN_L2M[v] == v + 1);
    } else if v == 44 {
        assert(WRITE_L2M[v] == pow2(v as nat) && WRITE_LEN_L2M[v] == v + 1);
    } else if v == 45 {
        assert(WRITE_L2M[v] == pow2(v as nat) && WRITE_LEN_L2M[v] == v + 1);
    } else if v == 46 {
        assert(WRITE_L2M[v] == pow2(v as nat) && WRITE_LEN_L2M[v] == v + 1);
    } else if v == 47 {
        assert(WRITE_L2M[v] == pow2(v as nat) && WRITE_LEN_L2M[v] == v + 1);
    } else if v == 48 {
        assert(WRITE_L2M[v] == pow2(v as nat) && WRITE_LEN_L2M[v] == v + 1);
    } else if v == 49 {
        assert(WRITE_L2M[v] == pow2(v as nat) && WRITE_LEN_L2M[v] == v + 1);
    } else if v == 50 {
        assert(WRITE_L2M[v] == pow2(v as nat) && WRITE_LEN_L2M[v] == v + 1);
    } else if v == 51 {
        assert(WRITE_L2M[v] == pow2(v as nat) && WRITE_LEN_L2M[v] == v + 1);
    } else if v == 52 {
        assert(WRITE_L2M[v] == pow2(v as nat) && WRITE_LEN_L2M[v] == v + 1);
    } else if v == 53 {
        assert(WRITE_L2M[v] == pow2(v as nat) && WRITE_LEN_L2M[v] == v + 1);
    } else if v == 54 {
        assert(WRITE_L2M[v] == pow2(v as nat) && WRITE_LEN_L2M[v] == v + 1);
    } else if v == 55 {
        assert(WRITE_L2M[v] == pow2(v as nat) && WRITE_LEN_L2M[v] == v + 1);
    } else if v == 56 {
        assert(WRITE_L2M[v] == pow2(v as nat) && WRITE_LEN_L2M[v] == v + 1);
    } else if v == 57 {
        assert(WRITE_L2M[v] == pow2(v as nat) && WRITE_LEN_L2M[v] == v + 1);
    } else if v == 58 {
        assert(WRITE_L2M[v] == pow2(v as nat) && WRITE_LEN_L2M[v] == v + 1);
    } else if v == 59 {
        assert(WRITE_L2M[v] == pow2(v as nat) && WRITE_LEN_L2M[v] == v + 1);
    } else if v == 60 {
        assert(WRITE_L2M[v] == pow2(v as nat) && WRITE_LEN_L2M[v] == v + 1);
    } else if v == 61 {
        assert(WRITE_L2M[v] == pow2(v as nat) && WRITE_LEN_L2M[v] == v + 1);
    } else if v == 62 {
        assert(WRITE_L2M[v] == pow2(v as nat) && WRITE_LEN_L2M[v] == v + 1);
    } else if v == 63 {
        assert(WRITE_L2M[v] == pow2(v as nat) && WRITE_LEN_L2M[v] == v + 1);
    }
    lemma_one_field((v + 1) as nat);
    vstd::arithmetic::power2::lemma_pow2_strictly_increases(v as nat, (v + 1) as nat);
    vstd::arithmetic::power2::lemma_pow2_pos((v + 1) as nat);
    assert(unary_code(v as nat) =~= zeros(v as nat).push(true));
}

/// Every entry of the length table is the length of the code of its index.
pub proof fn lemma_len_table(v: int)
    requires
        0 <= v <= WRITE_MAX,
    ensures
        LEN[v] == unary_code(v as nat).len(),
{
}

/// The table entry for a window of `READ_BITS` bits: the value of the unary
/// code that starts it and that code's length, or `None` where the window
/// holds no whole code.
pub fn read_entry(window: u32, m2l: bool) -> (r: Option<(u64, usize)>)
    requires
        window < 32,
    ensures
        r is Some ==> r->Some_0.1 <= 5 && r->Some_0.1 == r->Some_0.0 + 1 && field(window as nat, 5, m2l).subrange(
            0,
            r->Some_0.1 as int,
        ) == unary_code(r->Some_0.0 as nat),
        r is None <==> !starts_code(field(window as nat, 5, m2l)),
{
    let i = window as usize;
    let (value, len) = if m2l {
        (READ_M2L[i], READ_LEN_M2L[i])
    } else {
        (READ_L2M[i], READ_LEN_L2M[i])
    };
    proof {
        if m2l {
            lemma_read_table_m2l(i as int);
        } else {
            lemma_read_table_l2m(i as int);
        }
    }
    if len == MISSING_VALUE_LEN {
        None
    } else {
        proof {
            if m2l {
                lemma_read_table_m2l(i as int);
            } else {
                lemma_read_table_l2m(i as int);
            }
        }
        Some((value as u64, len as usize))
    }
}

/// The table entry for `value`: its unary code, right-justified, and the
/// code's length, or `None` where `value` is beyond the table.
pub fn write_entry(value: u64, m2l: bool) -> (r: Option<(u64, usize)>)
    ensures
        r is None <==> value > WRITE_MAX,
        r is Some ==> r->Some_0.1 == value + 1 && r->Some_0.1 <= 64 && r->Some_0.0 < pow2(
            r->Some_0.1 as nat,
        ) && field(r->Some_0.0 as nat, r->Some_0.1 as nat, m2l) == unary_code(value as nat),
{
    if value <= WRITE_MAX {
        let i = value as usize;
        let (bits, len) = if m2l {
            (WRITE_M2L[i], WRITE_LEN_M2L[i])
        } else {
            (WRITE_L2M[i], WRITE_LEN_L2M[i])
        };
        proof {
            if m2l {
                lemma_write_table_m2l(i as int);
            } else {
                lemma_write_table_l2m(i as int);
            }
        }
        Some((bits as u64, len as usize))
    } else {
        None
    }
}
/// Decodes a unary code through the read table where the next window holds
/// a whole one; otherwise returns `None` and leaves the position alone.
pub fn read_table<BO: BitOrder, B: BitRead<BO>>(backend: &mut B) -> (r: Result<Option<u64>, BitStreamError>)
    requires
        old(backend).ready(),
    ensures
        final(backend).ready(),
        final(backend).stream() == old(backend).stream(),
        r is Ok,
        r == Ok::<Option<u64>, BitStreamError>(None) ==> final(backend).position() == old(backend).position(),
        r is Ok && r->Ok_0 is Some ==> unary_at(
            old(backend).stream(),
            old(backend).position() as int,
            r->Ok_0->Some_0 as nat,
        ) && final(backend).position() == old(backend).position() + r->Ok_0->Some_0 + 1,
        old(backend).position() + READ_BITS <= old(backend).stream().len() && code_in_window(
            old(backend).stream(),
            old(backend).position() as int,
            BO::spec_m2l(),
        ) ==> r->Ok_0 is Some,
        r->Ok_0 is Some <==> old(backend).position() + READ_BITS <= old(backend).stream().len()
            && starts_code(
            old(backend).stream().subrange(
                old(backend).position() as int,
                old(backend).position() + READ_BITS,
            ),
        ),
        r->Ok_0 is Some ==> r->Ok_0->Some_0 < READ_BITS,
{
    let ghost s = backend.stream();
    let ghost p = backend.position() as int;
    if let Ok(idx) = backend.peek_bits(READ_BITS) {
        proof {
            lemma2_to64();
            if code_in_window(s, p, BO::spec_m2l()) {
                lemma_code_in_window(s, p, BO::spec_m2l());
            }
        }
        if let Some((value, len)) = read_entry(idx, BO::is_m2l()) {
            proof {
                backend.lemma_ready();
                assert(s.subrange(p, p + len) =~= s.subrange(p, p + 5).subrange(0, len as int));
            }
            let _ = backend.skip_bits_after_table_lookup(len);
            return Ok(Some(value));
        }
    }
    Ok(None)
}

/// Writes the unary code of `value` through the write table and returns
/// `true`, where `value` is in the table; otherwise returns `false` and
/// writes nothing.
pub fn write_table<BO: BitOrder, B: BitWrite<BO>>(backend: &mut B, value: u64) -> (r: Result<bool, BitStreamError>)
    requires
        old(backend).ready(),
    ensures
        final(backend).ready(),
        r == Ok::<bool, BitStreamError>(true) ==> final(backend).written_bits() == old(backend).written_bits()
            + unary_code(value as nat),
        r == Ok::<bool, BitStreamError>(false) <==> value > WRITE_MAX,
        final(backend).infallible() == old(backend).infallible(),
        old(backend).infallible() && value <= WRITE_MAX ==> r == Ok::<bool, BitStreamError>(true),
        r == Ok::<bool, BitStreamError>(false) ==> *final(backend) == *old(backend),
        r is Err ==> r == Err::<bool, BitStreamError>(BitStreamError::BackendIo),
        value <= WRITE_MAX && old(backend).pending_bits() + value + 1 < 128 ==> r is Ok,
{
    match write_entry(value, BO::is_m2l()) {
        Some((bits, len)) => match backend.write_bits(bits, len) {
            Ok(()) => Ok(true),
            Err(e) => Err(e),
        },
        None => Ok(false),
    }
}

/// The table read of `read_table`, for L2M streams.
pub fn read_table_l2m<B: BitRead<L2M>>(backend: &mut B) -> (r: Result<Option<u64>, BitStreamError>)
    requires
        old(backend).ready(),
    ensures
        final(backend).ready(),
        final(backend).stream() == old(backend).stream(),
        r is Ok,
        r == Ok::<Option<u64>, BitStreamError>(None) ==> final(backend).position() == old(backend).position(),
        r is Ok && r->Ok_0 is Some ==> unary_at(
            old(backend).stream(),
            old(backend).position() as int,
            r->Ok_0->Some_0 as nat,
        ) && final(backend).position() == old(backend).position() + r->Ok_0->Some_0 + 1,
        old(backend).position() + READ_BITS <= old(backend).stream().len() && code_in_window(
            old(backend).stream(),
            old(backend).position() as int,
            false,
        ) ==> r->Ok_0 is Some,
        r->Ok_0 is Some <==> old(backend).position() + READ_BITS <= old(backend).stream().len()
            && starts_code(
            old(backend).stream().subrange(
                old(backend).position() as int,
                old(backend).position() + READ_BITS,
            ),
        ),
        r->Ok_0 is Some ==> r->Ok_0->Some_0 < READ_BITS,
{
    read_table::<L2M, B>(backend)
}

/// The table write of `write_table`, for L2M streams.
pub fn write_table_l2m<B: BitWrite<L2M>>(backend: &mut B, value: u64) -> (r: Result<bool, BitStreamError>)
    requires
        old(backend).ready(),
    ensures
        final(backend).ready(),
        r == Ok::<bool, BitStreamError>(true) ==> final(backend).written_bits() == old(backend).written_bits()
            + unary_code(value as nat),
        r == Ok::<bool, BitStreamError>(false) <==> value > WRITE_MAX,
        final(backend).infallible() == old(backend).infallible(),
        old(backend).infallible() && value <= WRITE_MAX ==> r == Ok::<bool, BitStreamError>(true),
        r == Ok::<bool, BitStreamError>(false) ==> *final(backend) == *old(backend),
        r is Err ==> r == Err::<bool, BitStreamError>(BitStreamError::BackendIo),
        value <= WRITE_MAX && old(backend).pending_bits() + value + 1 < 128 ==> r is Ok,
{
    write_table::<L2M, B>(backend, value)
}

/// The table read of `read_table`, for M2L streams.
pub fn read_table_m2l<B: BitRead<M2L>>(backend: &mut B) -> (r: Result<Option<u64>, BitStreamError>)
    requires
        old(backend).ready(),
    ensures
        final(backend).ready(),
        final(backend).stream() == old(backend).stream(),
        r is Ok,
        r == Ok::<Option<u64>, BitStreamError>(None) ==> final(backend).position() == old(backend).position(),
        r is Ok && r->Ok_0 is Some ==> unary_at(
            old(backend).stream(),
            old(backend).position() as int,
            r->Ok_0->Some_0 as nat,
        ) && final(backend).position() == old(backend).position() + r->Ok_0->Some_0 + 1,
        old(backend).position() + READ_BITS <= old(backend).stream().len() && code_in_window(
            old(backend).stream(),
            old(backend).position() as int,
            true,
        ) ==> r->Ok_0 is Some,
        r->Ok_0 is Some <==> old(backend).position() + READ_BITS <= old(backend).stream().len()
            && starts_code(
            old(backend).stream().subrange(
                old(backend).position() as int,
                old(backend).position() + READ_BITS,
            ),
        ),
        r->Ok_0 is Some ==> r->Ok_0->Some_0 < READ_BITS,
{
    read_table::<M2L, B>(backend)
}

/// The table write of `write_table`, for M2L streams.
pub fn write_table_m2l<B: BitWrite<M2L>>(backend: &mut B, value: u64) -> (r: Result<bool, BitStreamError>)
    requires
        old(backend).ready(),
    ensures
        final(backend).ready(),
        r == Ok::<bool, BitStreamError>(true) ==> final(backend).written_bits() == old(backend).written_bits()
            + unary_code(value as nat),
        r == Ok::<bool, BitStreamError>(false) <==> value > WRITE_MAX,
        final(backend).infallible() == old(backend).infallible(),
        old(backend).infallible() && value <= WRITE_MAX ==> r == Ok::<bool, BitStreamError>(true),
        r == Ok::<bool, BitStreamError>(false) ==> *final(backend) == *old(backend),
        r is Err ==> r == Err::<bool, BitStreamError>(BitStreamError::BackendIo),
        value <= WRITE_MAX && old(backend).pending_bits() + value + 1 < 128 ==> r is Ok,
{
    write_table::<M2L, B>(backend, value)
}

} // verus!
