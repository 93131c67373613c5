//! Precomputed tables for γ codes: the decoding of every 5-bit window, and
//! the encoding of the smallest values, in both bit orders.
use crate::bits::{bits_lsb, bits_msb, field};
use crate::codes::{code_at, gamma_code, gamma_l2m_value, gamma_m2l_value, lemma_gamma_closed_form, lemma_gamma_len, lemma_gamma_values_at, lemma_log2_unique, log2};
use crate::traits::{BitOrder, BitRead, BitStreamError, BitWrite, L2M, M2L};
use vstd::arithmetic::power2::{lemma2_to64, lemma2_to64_rest, pow2};
use vstd::prelude::*;

verus! {

/// How many bits the read tables look at.
pub const READ_BITS: usize = 5;

/// The length given to a window that holds no whole code.
pub const MISSING_VALUE_LEN: u8 = 255;

/// The largest value that the write tables encode.
pub const WRITE_MAX: u64 = 255;

/// Whether a window of bits starts with a whole γ code: a one among its
/// first three bits, so that the code takes at most five.
pub open spec fn starts_code(f: Seq<bool>) -> bool {
    f[0] || f[1] || f[2]
}

/// Whether a γ code of at most `READ_BITS` bits starts at `p` in `s`.
pub open spec fn code_in_window(s: Seq<bool>, p: int, m2l: bool) -> bool {
    exists|v: nat| #[trigger] gamma_code(v, m2l).len() <= 5 && code_at(s, p, gamma_code(v, m2l))
}

proof fn lemma_code_in_window(s: Seq<bool>, p: int, m2l: bool)
    requires
        code_in_window(s, p, m2l),
        0 <= p,
        p + 5 <= s.len(),
    ensures
        starts_code(s.subrange(p, p + 5)),
{
    let v = choose|v: nat| #[trigger] gamma_code(v, m2l).len() <= 5 && code_at(s, p, gamma_code(v, m2l));
    crate::codes::lemma_gamma_parts(s, p, v, m2l);
    lemma_gamma_len(v, m2l);
    let m = log2(v + 1);
    assert(s.subrange(p, p + m + 1)[m as int] == s[p + m]);
    assert(s.subrange(p, p + 5)[m as int] == s[p + m]);
}

/// Decoded value for each window, M2L.
pub const READ_M2L: [u8; 32] = [
    0, 0, 0, 0, 3, 4, 5, 6, 1, 1, 1, 1, 2, 2, 2, 2, 0, 0, 0, 0, 0, 0, 0, 0, 0, 0, 0, 0, 0, 0, 0, 0,
];

/// Code length for each window, M2L.
pub const READ_LEN_M2L: [u8; 32] = [
    255, 255, 255, 255, 5, 5, 5, 5, 3, 3, 3, 3, 3, 3, 3, 3, 1, 1, 1, 1, 1, 1, 1, 1, 1, 1, 1, 1, 1,
    1, 1, 1,
];

/// Decoded value for each window, L2M.
pub const READ_L2M: [u8; 32] = [
    0, 0, 1, 0, 3, 0, 2, 0, 0, 0, 1, 0, 4, 0, 2, 0, 0, 0, 1, 0, 5, 0, 2, 0, 0, 0, 1, 0, 6, 0, 2, 0,
];

/// Code length for each window, L2M.
pub const READ_LEN_L2M: [u8; 32] = [
    255, 1, 3, 1, 5, 1, 3, 1, 255, 1, 3, 1, 5, 1, 3, 1, 255, 1, 3, 1, 5, 1, 3, 1, 255, 1, 3, 1, 5,
    1, 3, 1,
];

/// Code of each small value, right-justified, M2L.
pub const WRITE_M2L: [u32; 256] = [
    1, 2, 3, 4, 5, 6, 7, 8, 9, 10, 11, 12, 13, 14, 15, 16, 17, 18, 19, 20, 21, 22, 23, 24, 25, 26,
    27, 28, 29, 30, 31, 32, 33, 34, 35, 36, 37, 38, 39, 40, 41, 42, 43, 44, 45, 46, 47, 48, 49, 50,
    51, 52, 53, 54, 55, 56, 57, 58, 59, 60, 61, 62, 63, 64, 65, 66, 67, 68, 69, 70, 71, 72, 73, 74,
    75, 76, 77, 78, 79, 80, 81, 82, 83, 84, 85, 86, 87, 88, 89, 90, 91, 92, 93, 94, 95, 96, 97, 98,
    99, 100, 101, 102, 103, 104, 105, 106, 107, 108, 109, 110, 111, 112, 113, 114, 115, 116, 117,
    118, 119, 120, 121, 122, 123, 124, 125, 126, 127, 128, 129, 130, 131, 132, 133, 134, 135, 136,
    137, 138, 139, 140, 141, 142, 143, 144, 145, 146, 147, 148, 149, 150, 151, 152, 153, 154, 155,
    156, 157, 158, 159, 160, 161, 162, 163, 164, 165, 166, 167, 168, 169, 170, 171, 172, 173, 174,
    175, 176, 177, 178, 179, 180, 181, 182, 183, 184, 185, 186, 187, 188, 189, 190, 191, 192, 193,
    194, 195, 196, 197, 198, 199, 200, 201, 202, 203, 204, 205, 206, 207, 208, 209, 210, 211, 212,
    213, 214, 215, 216, 217, 218, 219, 220, 221, 222, 223, 224, 225, 226, 227, 228, 229, 230, 231,
    232, 233, 234, 235, 236, 237, 238, 239, 240, 241, 242, 243, 244, 245, 246, 247, 248, 249, 250,
    251, 252, 253, 254, 255, 256,
];

/// Code length of each small value, M2L.
pub const WRITE_LEN_M2L: [u32; 256] = [
    1, 3, 3, 5, 5, 5, 5, 7, 7, 7, 7, 7, 7, 7, 7, 9, 9, 9, 9, 9, 9, 9, 9, 9, 9, 9, 9, 9, 9, 9, 9,
    11, 11, 11, 11, 11, 11, 11, 11, 11, 11, 11, 11, 11, 11, 11, 11, 11, 11, 11, 11, 11, 11, 11, 11,
    11, 11, 11, 11, 11, 11, 11, 11, 13, 13, 13, 13, 13, 13, 13, 13, 13, 13, 13, 13, 13, 13, 13, 13,
    13, 13, 13, 13, 13, 13, 13, 13, 13, 13, 13, 13, 13, 13, 13, 13, 13, 13, 13, 13, 13, 13, 13, 13,
    13, 13, 13, 13, 13, 13, 13, 13, 13, 13, 13, 13, 13, 13, 13, 13, 13, 13, 13, 13, 13, 13, 13, 13,
    15, 15, 15, 15, 15, 15, 15, 15, 15, 15, 15, 15, 15, 15, 15, 15, 15, 15, 15, 15, 15, 15, 15, 15,
    15, 15, 15, 15, 15, 15, 15, 15, 15, 15, 15, 15, 15, 15, 15, 15, 15, 15, 15, 15, 15, 15, 15, 15,
    15, 15, 15, 15, 15, 15, 15, 15, 15, 15, 15, 15, 15, 15, 15, 15, 15, 15, 15, 15, 15, 15, 15, 15,
    15, 15, 15, 15, 15, 15, 15, 15, 15, 15, 15, 15, 15, 15, 15, 15, 15, 15, 15, 15, 15, 15, 15, 15,
    15, 15, 15, 15, 15, 15, 15, 15, 15, 15, 15, 15, 15, 15, 15, 15, 15, 15, 15, 15, 15, 15, 15, 15,
    15, 15, 15, 15, 15, 15, 15, 15, 17,
];

/// Code of each small value, right-justified, L2M.
pub const WRITE_L2M: [u32; 256] = [
    1, 2, 6, 4, 12, 20, 28, 8, 24, 40, 56, 72, 88, 104, 120, 16, 48, 80, 112, 144, 176, 208, 240,
    272, 304, 336, 368, 400, 432, 464, 496, 32, 96, 160, 224, 288, 352, 416, 480, 544, 608, 672,
    736, 800, 864, 928, 992, 1056, 1120, 1184, 1248, 1312, 1376, 1440, 1504, 1568, 1632, 1696,
    1760, 1824, 1888, 1952, 2016, 64, 192, 320, 448, 576, 704, 832, 960, 1088, 1216, 1344, 1472,
    1600, 1728, 1856, 1984, 2112, 2240, 2368, 2496, 2624, 2752, 2880, 3008, 3136, 3264, 3392, 3520,
    3648, 3776, 3904, 4032, 4160, 4288, 4416, 4544, 4672, 4800, 4928, 5056, 5184, 5312, 5440, 5568,
    5696, 5824, 5952, 6080, 6208, 6336, 6464, 6592, 6720, 6848, 6976, 7104, 7232, 7360, 7488, 7616,
    7744, 7872, 8000, 8128, 128, 384, 640, 896, 1152, 1408, 1664, 1920, 2176, 2432, 2688, 2944,
    3200, 3456, 3712, 3968, 4224, 4480, 4736, 4992, 5248, 5504, 5760, 6016, 6272, 6528, 6784, 7040,
    7296, 7552, 7808, 8064, 8320, 8576, 8832, 9088, 9344, 9600, 9856, 10112, 10368, 10624, 10880,
    11136, 11392, 11648, 11904, 12160, 12416, 12672, 12928, 13184, 13440, 13696, 13952, 14208,
    14464, 14720, 14976, 15232, 15488, 15744, 16000, 16256, 16512, 16768, 17024, 17280, 17536,
    17792, 18048, 18304, 18560, 18816, 19072, 19328, 19584, 19840, 20096, 20352, 20608, 20864,
    21120, 21376, 21632, 21888, 22144, 22400, 22656, 22912, 23168, 23424, 23680, 23936, 24192,
    24448, 24704, 24960, 25216, 25472, 25728, 25984, 26240, 26496, 26752, 27008, 27264, 27520,
    27776, 28032, 28288, 28544, 28800, 29056, 29312, 29568, 29824, 30080, 30336, 30592, 30848,
    31104, 31360, 31616, 31872, 32128, 32384, 32640, 256,
];

/// Code length of each small value, L2M.
pub const WRITE_LEN_L2M: [u32; 256] = [
    1, 3, 3, 5, 5, 5, 5, 7, 7, 7, 7, 7, 7, 7, 7, 9, 9, 9, 9, 9, 9, 9, 9, 9, 9, 9, 9, 9, 9, 9, 9,
    11, 11, 11, 11, 11, 11, 11, 11, 11, 11, 11, 11, 11, 11, 11, 11, 11, 11, 11, 11, 11, 11, 11, 11,
    11, 11, 11, 11, 11, 11, 11, 11, 13, 13, 13, 13, 13, 13, 13, 13, 13, 13, 13, 13, 13, 13, 13, 13,
    13, 13, 13, 13, 13, 13, 13, 13, 13, 13, 13, 13, 13, 13, 13, 13, 13, 13, 13, 13, 13, 13, 13, 13,
    13, 13, 13, 13, 13, 13, 13, 13, 13, 13, 13, 13, 13, 13, 13, 13, 13, 13, 13, 13, 13, 13, 13, 13,
    15, 15, 15, 15, 15, 15, 15, 15, 15, 15, 15, 15, 15, 15, 15, 15, 15, 15, 15, 15, 15, 15, 15, 15,
    15, 15, 15, 15, 15, 15, 15, 15, 15, 15, 15, 15, 15, 15, 15, 15, 15, 15, 15, 15, 15, 15, 15, 15,
    15, 15, 15, 15, 15, 15, 15, 15, 15, 15, 15, 15, 15, 15, 15, 15, 15, 15, 15, 15, 15, 15, 15, 15,
    15, 15, 15, 15, 15, 15, 15, 15, 15, 15, 15, 15, 15, 15, 15, 15, 15, 15, 15, 15, 15, 15, 15, 15,
    15, 15, 15, 15, 15, 15, 15, 15, 15, 15, 15, 15, 15, 15, 15, 15, 15, 15, 15, 15, 15, 15, 15, 15,
    15, 15, 15, 15, 15, 15, 15, 15, 17,
];

/// Code length of each small value.
pub const LEN: [u8; 256] = [
    1, 3, 3, 5, 5, 5, 5, 7, 7, 7, 7, 7, 7, 7, 7, 9, 9, 9, 9, 9, 9, 9, 9, 9, 9, 9, 9, 9, 9, 9, 9,
    11, 11, 11, 11, 11, 11, 11, 11, 11, 11, 11, 11, 11, 11, 11, 11, 11, 11, 11, 11, 11, 11, 11, 11,
    11, 11, 11, 11, 11, 11, 11, 11, 13, 13, 13, 13, 13, 13, 13, 13, 13, 13, 13, 13, 13, 13, 13, 13,
    13, 13, 13, 13, 13, 13, 13, 13, 13, 13, 13, 13, 13, 13, 13, 13, 13, 13, 13, 13, 13, 13, 13, 13,
    13, 13, 13, 13, 13, 13, 13, 13, 13, 13, 13, 13, 13, 13, 13, 13, 13, 13, 13, 13, 13, 13, 13, 13,
    15, 15, 15, 15, 15, 15, 15, 15, 15, 15, 15, 15, 15, 15, 15, 15, 15, 15, 15, 15, 15, 15, 15, 15,
    15, 15, 15, 15, 15, 15, 15, 15, 15, 15, 15, 15, 15, 15, 15, 15, 15, 15, 15, 15, 15, 15, 15, 15,
    15, 15, 15, 15, 15, 15, 15, 15, 15, 15, 15, 15, 15, 15, 15, 15, 15, 15, 15, 15, 15, 15, 15, 15,
    15, 15, 15, 15, 15, 15, 15, 15, 15, 15, 15, 15, 15, 15, 15, 15, 15, 15, 15, 15, 15, 15, 15, 15,
    15, 15, 15, 15, 15, 15, 15, 15, 15, 15, 15, 15, 15, 15, 15, 15, 15, 15, 15, 15, 15, 15, 15, 15,
    15, 15, 15, 15, 15, 15, 15, 15, 17,
];

/// Every entry of the M2L read table that is not missing is the code of
/// its value at the start of its window.
pub proof fn lemma_read_table_m2l(idx: int)
    requires
        0 <= idx < 32,
    ensures
        READ_LEN_M2L[idx] != MISSING_VALUE_LEN ==> READ_LEN_M2L[idx] <= 5 && gamma_code(READ_M2L[idx] as nat, true).len()
            == READ_LEN_M2L[idx] && field(idx as nat, 5, true).subrange(0, READ_LEN_M2L[idx] as int)
            == gamma_code(READ_M2L[idx] as nat, true),
        READ_LEN_M2L[idx] == MISSING_VALUE_LEN <==> !starts_code(field(idx as nat, 5, true)),
{
    reveal_with_fuel(bits_msb, 6);
    reveal_with_fuel(log2, 4);
    lemma2_to64();
    if idx == 0 {
        assert(!starts_code(bits_msb(0, 5)));
    } else if idx == 1 {
        assert(!starts_code(bits_msb(1, 5)));
    } else if idx == 2 {
        assert(!starts_code(bits_msb(2, 5)));
    } else if idx == 3 {
        assert(!starts_code(bits_msb(3, 5)));
    } else if idx == 4 {
        assert(bits_msb(4, 5).subrange(0, 5) =~= gamma_code(3, true));
        assert(starts_code(bits_msb(4, 5)));
    } else if idx == 5 {
        assert(bits_msb(5, 5).subrange(0, 5) =~= gamma_code(4, true));
        assert(starts_code(bits_msb(5, 5)));
    } else if idx == 6 {
        assert(bits_msb(6, 5).subrange(0, 5) =~= gamma_code(5, true));
        assert(starts_code(bits_msb(6, 5)));
    } else if idx == 7 {
        assert(bits_msb(7, 5).subrange(0, 5) =~= gamma_code(6, true));
        assert(starts_code(bits_msb(7, 5)));
    } else if idx == 8 {
        assert(bits_msb(8, 5).subrange(0, 3) =~= gamma_code(1, true));
        assert(starts_code(bits_msb(8, 5)));
    } else if idx == 9 {
        assert(bits_msb(9, 5).subrange(0, 3) =~= gamma_code(1, true));
        assert(starts_code(bits_msb(9, 5)));
    } else if idx == 10 {
        assert(bits_msb(10, 5).subrange(0, 3) =~= gamma_code(1, true));
        assert(starts_code(bits_msb(10, 5)));
    } else if idx == 11 {
        assert(bits_msb(11, 5).subrange(0, 3) =~= gamma_code(1, true));
        assert(starts_code(bits_msb(11, 5)));
    } else if idx == 12 {
        assert(bits_msb(12, 5).subrange(0, 3) =~= gamma_code(2, true));
        assert(starts_code(bits_msb(12, 5)));
    } else if idx == 13 {
        assert(bits_msb(13, 5).subrange(0, 3) =~= gamma_code(2, true));
        assert(starts_code(bits_msb(13, 5)));
    } else if idx == 14 {
        assert(bits_msb(14, 5).subrange(0, 3) =~= gamma_code(2, true));
        assert(starts_code(bits_msb(14, 5)));
    } else if idx == 15 {
        assert(bits_msb(15, 5).subrange(0, 3) =~= gamma_code(2, true));
        assert(starts_code(bits_msb(15, 5)));
    } else if idx == 16 {
        assert(bits_msb(16, 5).subrange(0, 1) =~= gamma_code(0, true));
        assert(starts_code(bits_msb(16, 5)));
    } else if idx == 17 {
        assert(bits_msb(17, 5).subrange(0, 1) =~= gamma_code(0, true));
        assert(starts_code(bits_msb(17, 5)));
    } else if idx == 18 {
        assert(bits_msb(18, 5).subrange(0, 1) =~= gamma_code(0, true));
        assert(starts_code(bits_msb(18, 5)));
    } else if idx == 19 {
        assert(bits_msb(19, 5).subrange(0, 1) =~= gamma_code(0, true));
        assert(starts_code(bits_msb(19, 5)));
    } else if idx == 20 {
        assert(bits_msb(20, 5).subrange(0, 1) =~= gamma_code(0, true));
        assert(starts_code(bits_msb(20, 5)));
    } else if idx == 21 {
        assert(bits_msb(21, 5).subrange(0, 1) =~= gamma_code(0, true));
        assert(starts_code(bits_msb(21, 5)));
    } else if idx == 22 {
        assert(bits_msb(22, 5).subrange(0, 1) =~= gamma_code(0, true));
        assert(starts_code(bits_msb(22, 5)));
    } else if idx == 23 {
        assert(bits_msb(23, 5).subrange(0, 1) =~= gamma_code(0, true));
        assert(starts_code(bits_msb(23, 5)));
    } else if idx == 24 {
        assert(bits_msb(24, 5).subrange(0, 1) =~= gamma_code(0, true));
        assert(starts_code(bits_msb(24, 5)));
    } else if idx == 25 {
        assert(bits_msb(25, 5).subrange(0, 1) =~= gamma_code(0, true));
        assert(starts_code(bits_msb(25, 5)));
    } else if idx == 26 {
        assert(bits_msb(26, 5).subrange(0, 1) =~= gamma_code(0, true));
        assert(starts_code(bits_msb(26, 5)));
    } else if idx == 27 {
        assert(bits_msb(27, 5).subrange(0, 1) =~= gamma_code(0, true));
        assert(starts_code(bits_msb(27, 5)));
    } else if idx == 28 {
        assert(bits_msb(28, 5).subrange(0, 1) =~= gamma_code(0, true));
        assert(starts_code(bits_msb(28, 5)));
    } else if idx == 29 {
        assert(bits_msb(29, 5).subrange(0, 1) =~= gamma_code(0, true));
        assert(starts_code(bits_msb(29, 5)));
    } else if idx == 30 {
        assert(bits_msb(30, 5).subrange(0, 1) =~= gamma_code(0, true));
        assert(starts_code(bits_msb(30, 5)));
    } else if idx == 31 {
        assert(bits_msb(31, 5).subrange(0, 1) =~= gamma_code(0, true));
        assert(starts_code(bits_msb(31, 5)));
    }
}

/// Every entry of the L2M read table that is not missing is the code of
/// its value at the start of its window.
pub proof fn lemma_read_table_l2m(idx: int)
    requires
        0 <= idx < 32,
    ensures
        READ_LEN_L2M[idx] != MISSING_VALUE_LEN ==> READ_LEN_L2M[idx] <= 5 && gamma_code(READ_L2M[idx] as nat, false).len()
            == READ_LEN_L2M[idx] && field(idx as nat, 5, false).subrange(0, READ_LEN_L2M[idx] as int)
            == gamma_code(READ_L2M[idx] as nat, false),
        READ_LEN_L2M[idx] == MISSING_VALUE_LEN <==> !starts_code(field(idx as nat, 5, false)),
{
    reveal_with_fuel(bits_lsb, 6);
    reveal_with_fuel(log2, 4);
    lemma2_to64();
    if idx == 0 {
        assert(!starts_code(bits_lsb(0, 5)));
    } else if idx == 1 {
        assert(bits_lsb(1, 5).subrange(0, 1) =~= gamma_code(0, false));
        assert(starts_code(bits_lsb(1, 5)));
    } else if idx == 2 {
        assert(bits_lsb(2, 5).subrange(0, 3) =~= gamma_code(1, false));
        assert(starts_code(bits_lsb(2, 5)));
    } else if idx == 3 {
        assert(bits_lsb(3, 5).subrange(0, 1) =~= gamma_code(0, false));
        assert(starts_code(bits_lsb(3, 5)));
    } else if idx == 4 {
        assert(bits_lsb(4, 5).subrange(0, 5) =~= gamma_code(3, false));
        assert(starts_code(bits_lsb(4, 5)));
    } else if idx == 5 {
        assert(bits_lsb(5, 5).subrange(0, 1) =~= gamma_code(0, false));
        assert(starts_code(bits_lsb(5, 5)));
    } else if idx == 6 {
        assert(bits_lsb(6, 5).subrange(0, 3) =~= gamma_code(2, false));
        assert(starts_code(bits_lsb(6, 5)));
    } else if idx == 7 {
        assert(bits_lsb(7, 5).subrange(0, 1) =~= gamma_code(0, false));
        assert(starts_code(bits_lsb(7, 5)));
    } else if idx == 8 {
        assert(!starts_code(bits_lsb(8, 5)));
    } else if idx == 9 {
        assert(bits_lsb(9, 5).subrange(0, 1) =~= gamma_code(0, false));
        assert(starts_code(bits_lsb(9, 5)));
    } else if idx == 10 {
        assert(bits_lsb(10, 5).subrange(0, 3) =~= gamma_code(1, false));
        assert(starts_code(bits_lsb(10, 5)));
    } else if idx == 11 {
        assert(bits_lsb(11, 5).subrange(0, 1) =~= gamma_code(0, false));
        assert(starts_code(bits_lsb(11, 5)));
    } else if idx == 12 {
        assert(bits_lsb(12, 5).subrange(0, 5) =~= gamma_code(4, false));
        assert(starts_code(bits_lsb(12, 5)));
    } else if idx == 13 {
        assert(bits_lsb(13, 5).subrange(0, 1) =~= gamma_code(0, false));
        assert(starts_code(bits_lsb(13, 5)));
    } else if idx == 14 {
        assert(bits_lsb(14, 5).subrange(0, 3) =~= gamma_code(2, false));
        assert(starts_code(bits_lsb(14, 5)));
    } else if idx == 15 {
        assert(bits_lsb(15, 5).subrange(0, 1) =~= gamma_code(0, false));
        assert(starts_code(bits_lsb(15, 5)));
    } else if idx == 16 {
        assert(!starts_code(bits_lsb(16, 5)));
    } else if idx == 17 {
        assert(bits_lsb(17, 5).subrange(0, 1) =~= gamma_code(0, false));
        assert(starts_code(bits_lsb(17, 5)));
    } else if idx == 18 {
        assert(bits_lsb(18, 5).subrange(0, 3) =~= gamma_code(1, false));
        assert(starts_code(bits_lsb(18, 5)));
    } else if idx == 19 {
        assert(bits_lsb(19, 5).subrange(0, 1) =~= gamma_code(0, false));
        assert(starts_code(bits_lsb(19, 5)));
    } else if idx == 20 {
        assert(bits_lsb(20, 5).subrange(0, 5) =~= gamma_code(5, false));
        assert(starts_code(bits_lsb(20, 5)));
    } else if idx == 21 {
        assert(bits_lsb(21, 5).subrange(0, 1) =~= gamma_code(0, false));
        assert(starts_code(bits_lsb(21, 5)));
    } else if idx == 22 {
        assert(bits_lsb(22, 5).subrange(0, 3) =~= gamma_code(2, false));
        assert(starts_code(bits_lsb(22, 5)));
    } else if idx == 23 {
        assert(bits_lsb(23, 5).subrange(0, 1) =~= gamma_code(0, false));
        assert(starts_code(bits_lsb(23, 5)));
    } else if idx == 24 {
        assert(!starts_code(bits_lsb(24, 5)));
    } else if idx == 25 {
        assert(bits_lsb(25, 5).subrange(0, 1) =~= gamma_code(0, false));
        assert(starts_code(bits_lsb(25, 5)));
    } else if idx == 26 {
        assert(bits_lsb(26, 5).subrange(0, 3) =~= gamma_code(1, false));
        assert(starts_code(bits_lsb(26, 5)));
    } else if idx == 27 {
        assert(bits_lsb(27, 5).subrange(0, 1) =~= gamma_code(0, false));
        assert(starts_code(bits_lsb(27, 5)));
    } else if idx == 28 {
        assert(bits_lsb(28, 5).subrange(0, 5) =~= gamma_code(6, false));
        assert(starts_code(bits_lsb(28, 5)));
    } else if idx == 29 {
        assert(bits_lsb(29, 5).subrange(0, 1) =~= gamma_code(0, false));
        assert(starts_code(bits_lsb(29, 5)));
    } else if idx == 30 {
        assert(bits_lsb(30, 5).subrange(0, 3) =~= gamma_code(2, false));
        assert(starts_code(bits_lsb(30, 5)));
    } else if idx == 31 {
        assert(bits_lsb(31, 5).subrange(0, 1) =~= gamma_code(0, false));
        assert(starts_code(bits_lsb(31, 5)));
    }
}

/// Every entry of the M2L write table is the code of its index.
pub proof fn lemma_write_table_m2l(v: int)
    requires
        0 <= v <= WRITE_MAX,
    ensures
        WRITE_LEN_M2L[v] <= 64,
        WRITE_M2L[v] < pow2(WRITE_LEN_M2L[v] as nat),
        field(WRITE_M2L[v] as nat, WRITE_LEN_M2L[v] as nat, true) == gamma_code(v as nat, true),
{
    lemma2_to64();
    lemma2_to64_rest();
    lemma_gamma_closed_form(v as nat);
    lemma_gamma_len(v as nat, true);
    if 0 <= v < 1 {
        lemma_log2_unique((v + 1) as nat, 0);
        lemma_write_group_m2l_0(v);
        lemma_gamma_values_at(v as nat, 0, 1, 2);
        assert(gamma_m2l_value(v as nat) == v + 1);
        assert(WRITE_M2L[v] as nat == gamma_m2l_value(v as nat));
        assert(WRITE_LEN_M2L[v] as nat == gamma_code(v as nat, true).len());
    }
    if 1 <= v < 3 {
        lemma_log2_unique((v + 1) as nat, 1);
        lemma_write_group_m2l_1(v);
        lemma_gamma_values_at(v as nat, 1, 2, 4);
        assert(gamma_m2l_value(v as nat) == v + 1);
        assert(WRITE_M2L[v] as nat == gamma_m2l_value(v as nat));
        assert(WRITE_LEN_M2L[v] as nat == gamma_code(v as nat, true).len());
    }
    if 3 <= v < 7 {
        lemma_log2_unique((v + 1) as nat, 2);
        lemma_write_group_m2l_2(v);
        lemma_gamma_values_at(v as nat, 2, 4, 8);
        assert(gamma_m2l_value(v as nat) == v + 1);
        assert(WRITE_M2L[v] as nat == gamma_m2l_value(v as nat));
        assert(WRITE_LEN_M2L[v] as nat == gamma_code(v as nat, true).len());
    }
    if 7 <= v < 15 {
        lemma_log2_unique((v + 1) as nat, 3);
        lemma_write_group_m2l_3(v);
        lemma_gamma_values_at(v as nat, 3, 8, 16);
        assert(gamma_m2l_value(v as nat) == v + 1);
        assert(WRITE_M2L[v] as nat == gamma_m2l_value(v as nat));
        assert(WRITE_LEN_M2L[v] as nat == gamma_code(v as nat, true).len());
    }
    if 15 <= v < 31 {
        lemma_log2_unique((v + 1) as nat, 4);
        lemma_write_group_m2l_4(v);
        lemma_gamma_values_at(v as nat, 4, 16, 32);
        assert(gamma_m2l_value(v as nat) == v + 1);
        assert(WRITE_M2L[v] as nat == gamma_m2l_value(v as nat));
        assert(WRITE_LEN_M2L[v] as nat == gamma_code(v as nat, true).len());
    }
    if 31 <= v < 63 {
        lemma_log2_unique((v + 1) as nat, 5);
        lemma_write_group_m2l_5(v);
        lemma_gamma_values_at(v as nat, 5, 32, 64);
        assert(gamma_m2l_value(v as nat) == v + 1);
        assert(WRITE_M2L[v] as nat == gamma_m2l_value(v as nat));
        assert(WRITE_LEN_M2L[v] as nat == gamma_code(v as nat, true).len());
    }
    if 63 <= v < 127 {
        lemma_log2_unique((v + 1) as nat, 6);
        lemma_write_group_m2l_6(v);
        lemma_gamma_values_at(v as nat, 6, 64, 128);
        assert(gamma_m2l_value(v as nat) == v + 1);
        assert(WRITE_M2L[v] as nat == gamma_m2l_value(v as nat));
        assert(WRITE_LEN_M2L[v] as nat == gamma_code(v as nat, true).len());
    }
    if 127 <= v < 255 {
        lemma_log2_unique((v + 1) as nat, 7);
        lemma_write_group_m2l_7(v);
        lemma_gamma_values_at(v as nat, 7, 128, 256);
        assert(gamma_m2l_value(v as nat) == v + 1);
        assert(WRITE_M2L[v] as nat == gamma_m2l_value(v as nat));
        assert(WRITE_LEN_M2L[v] as nat == gamma_code(v as nat, true).len());
    }
    if 255 <= v < 256 {
        lemma_log2_unique((v + 1) as nat, 8);
        lemma_write_group_m2l_8(v);
        lemma_gamma_values_at(v as nat, 8, 256, 512);
        assert(gamma_m2l_value(v as nat) == v + 1);
        assert(WRITE_M2L[v] as nat == gamma_m2l_value(v as nat));
        assert(WRITE_LEN_M2L[v] as nat == gamma_code(v as nat, true).len());
    }
}

proof fn lemma_write_group_m2l_0(v: int)
    requires
        0 <= v < 1,
    ensures
        WRITE_M2L[v] == v + 1,
        WRITE_LEN_M2L[v] == 1,
{
    if v == 0 {
        assert(WRITE_M2L[v] == v + 1 && WRITE_LEN_M2L[v] == 1);
    }
}

proof fn lemma_write_group_m2l_1(v: int)
    requires
        1 <= v < 3,
    ensures
        WRITE_M2L[v] == v + 1,
        WRITE_LEN_M2L[v] == 3,
{
    if v == 1 {
        assert(WRITE_M2L[v] == v + 1 && WRITE_LEN_M2L[v] == 3);
    } else if v == 2 {
        assert(WRITE_M2L[v] == v + 1 && WRITE_LEN_M2L[v] == 3);
    }
}

proof fn lemma_write_group_m2l_2(v: int)
    requires
        3 <= v < 7,
    ensures
        WRITE_M2L[v] == v + 1,
        WRITE_LEN_M2L[v] == 5,
{
    if v == 3 {
        assert(WRITE_M2L[v] == v + 1 && WRITE_LEN_M2L[v] == 5);
    } else if v == 4 {
        assert(WRITE_M2L[v] == v + 1 && WRITE_LEN_M2L[v] == 5);
    } else if v == 5 {
        assert(WRITE_M2L[v] == v + 1 && WRITE_LEN_M2L[v] == 5);
    } else if v == 6 {
        assert(WRITE_M2L[v] == v + 1 && WRITE_LEN_M2L[v] == 5);
    }
}

proof fn lemma_write_group_m2l_3(v: int)
    requires
        7 <= v < 15,
    ensures
        WRITE_M2L[v] == v + 1,
        WRITE_LEN_M2L[v] == 7,
{
    if v == 7 {
        assert(WRITE_M2L[v] == v + 1 && WRITE_LEN_M2L[v] == 7);
    } else if v == 8 {
        assert(WRITE_M2L[v] == v + 1 && WRITE_LEN_M2L[v] == 7);
    } else if v == 9 {
        assert(WRITE_M2L[v] == v + 1 && WRITE_LEN_M2L[v] == 7);
    } else if v == 10 {
        assert(WRITE_M2L[v] == v + 1 && WRITE_LEN_M2L[v] == 7);
    } else if v == 11 {
        assert(WRITE_M2L[v] == v + 1 && WRITE_LEN_M2L[v] == 7);
    } else if v == 12 {
        assert(WRITE_M2L[v] == v + 1 && WRITE_LEN_M2L[v] == 7);
    } else if v == 13 {
        assert(WRITE_M2L[v] == v + 1 && WRITE_LEN_M2L[v] == 7);
    } else if v == 14 {
        assert(WRITE_M2L[v] == v + 1 && WRITE_LEN_M2L[v] == 7);
    }
}

proof fn lemma_write_group_m2l_4(v: int)
    requires
        15 <= v < 31,
    ensures
        WRITE_M2L[v] == v + 1,
        WRITE_LEN_M2L[v] == 9,
{
    if v == 15 {
        assert(WRITE_M2L[v] == v + 1 && WRITE_LEN_M2L[v] == 9);
    } else if v == 16 {
        assert(WRITE_M2L[v] == v + 1 && WRITE_LEN_M2L[v] == 9);
    } else if v == 17 {
        assert(WRITE_M2L[v] == v + 1 && WRITE_LEN_M2L[v] == 9);
    } else if v == 18 {
        assert(WRITE_M2L[v] == v + 1 && WRITE_LEN_M2L[v] == 9);
    } else if v == 19 {
        assert(WRITE_M2L[v] == v + 1 && WRITE_LEN_M2L[v] == 9);
    } else if v == 20 {
        assert(WRITE_M2L[v] == v + 1 && WRITE_LEN_M2L[v] == 9);
    } else if v == 21 {
        assert(WRITE_M2L[v] == v + 1 && WRITE_LEN_M2L[v] == 9);
    } else if v == 22 {
        assert(WRITE_M2L[v] == v + 1 && WRITE_LEN_M2L[v] == 9);
    } else if v == 23 {
        assert(WRITE_M2L[v] == v + 1 && WRITE_LEN_M2L[v] == 9);
    } else if v == 24 {
        assert(WRITE_M2L[v] == v + 1 && WRITE_LEN_M2L[v] == 9);
    } else if v == 25 {
        assert(WRITE_M2L[v] == v + 1 && WRITE_LEN_M2L[v] == 9);
    } else if v == 26 {
        assert(WRITE_M2L[v] == v + 1 && WRITE_LEN_M2L[v] == 9);
    } else if v == 27 {
        assert(WRITE_M2L[v] == v + 1 && WRITE_LEN_M2L[v] == 9);
    } else if v == 28 {
        assert(WRITE_M2L[v] == v + 1 && WRITE_LEN_M2L[v] == 9);
    } else if v == 29 {
        assert(WRITE_M2L[v] == v + 1 && WRITE_LEN_M2L[v] == 9);
    } else if v == 30 {
        assert(WRITE_M2L[v] == v + 1 && WRITE_LEN_M2L[v] == 9);
    }
}

proof fn lemma_write_group_m2l_5(v: int)
    requires
        31 <= v < 63,
    ensures
        WRITE_M2L[v] == v + 1,
        WRITE_LEN_M2L[v] == 11,
{
    if v == 31 {
        assert(WRITE_M2L[v] == v + 1 && WRITE_LEN_M2L[v] == 11);
    } else if v == 32 {
        assert(WRITE_M2L[v] == v + 1 && WRITE_LEN_M2L[v] == 11);
    } else if v == 33 {
        assert(WRITE_M2L[v] == v + 1 && WRITE_LEN_M2L[v] == 11);
    } else if v == 34 {
        assert(WRITE_M2L[v] == v + 1 && WRITE_LEN_M2L[v] == 11);
    } else if v == 35 {
        assert(WRITE_M2L[v] == v + 1 && WRITE_LEN_M2L[v] == 11);
    } else if v == 36 {
        assert(WRITE_M2L[v] == v + 1 && WRITE_LEN_M2L[v] == 11);
    } else if v == 37 {
        assert(WRITE_M2L[v] == v + 1 && WRITE_LEN_M2L[v] == 11);
    } else if v == 38 {
        assert(WRITE_M2L[v] == v + 1 && WRITE_LEN_M2L[v] == 11);
    } else if v == 39 {
        assert(WRITE_M2L[v] == v + 1 && WRITE_LEN_M2L[v] == 11);
    } else if v == 40 {
        assert(WRITE_M2L[v] == v + 1 && WRITE_LEN_M2L[v] == 11);
    } else if v == 41 {
        assert(WRITE_M2L[v] == v + 1 && WRITE_LEN_M2L[v] == 11);
    } else if v == 42 {
        assert(WRITE_M2L[v] == v + 1 && WRITE_LEN_M2L[v] == 11);
    } else if v == 43 {
        assert(WRITE_M2L[v] == v + 1 && WRITE_LEN_M2L[v] == 11);
    } else if v == 44 {
        assert(WRITE_M2L[v] == v + 1 && WRITE_LEN_M2L[v] == 11);
    } else if v == 45 {
        assert(WRITE_M2L[v] == v + 1 && WRITE_LEN_M2L[v] == 11);
    } else if v == 46 {
        assert(WRITE_M2L[v] == v + 1 && WRITE_LEN_M2L[v] == 11);
    } else if v == 47 {
        assert(WRITE_M2L[v] == v + 1 && WRITE_LEN_M2L[v] == 11);
    } else if v == 48 {
        assert(WRITE_M2L[v] == v + 1 && WRITE_LEN_M2L[v] == 11);
    } else if v == 49 {
        assert(WRITE_M2L[v] == v + 1 && WRITE_LEN_M2L[v] == 11);
    } else if v == 50 {
        assert(WRITE_M2L[v] == v + 1 && WRITE_LEN_M2L[v] == 11);
    } else if v == 51 {
        assert(WRITE_M2L[v] == v + 1 && WRITE_LEN_M2L[v] == 11);
    } else if v == 52 {
        assert(WRITE_M2L[v] == v + 1 && WRITE_LEN_M2L[v] == 11);
    } else if v == 53 {
        assert(WRITE_M2L[v] == v + 1 && WRITE_LEN_M2L[v] == 11);
    } else if v == 54 {
        assert(WRITE_M2L[v] == v + 1 && WRITE_LEN_M2L[v] == 11);
    } else if v == 55 {
        assert(WRITE_M2L[v] == v + 1 && WRITE_LEN_M2L[v] == 11);
    } else if v == 56 {
        assert(WRITE_M2L[v] == v + 1 && WRITE_LEN_M2L[v] == 11);
    } else if v == 57 {
        assert(WRITE_M2L[v] == v + 1 && WRITE_LEN_M2L[v] == 11);
    } else if v == 58 {
        assert(WRITE_M2L[v] == v + 1 && WRITE_LEN_M2L[v] == 11);
    } else if v == 59 {
        assert(WRITE_M2L[v] == v + 1 && WRITE_LEN_M2L[v] == 11);
    } else if v == 60 {
        assert(WRITE_M2L[v] == v + 1 && WRITE_LEN_M2L[v] == 11);
    } else if v == 61 {
        assert(WRITE_M2L[v] == v + 1 && WRITE_LEN_M2L[v] == 11);
    } else if v == 62 {
        assert(WRITE_M2L[v] == v + 1 && WRITE_LEN_M2L[v] == 11);
    }
}

proof fn lemma_write_group_m2l_6(v: int)
    requires
        63 <= v < 127,
    ensures
        WRITE_M2L[v] == v + 1,
        WRITE_LEN_M2L[v] == 13,
{
    if v == 63 {
        assert(WRITE_M2L[v] == v + 1 && WRITE_LEN_M2L[v] == 13);
    } else if v == 64 {
        assert(WRITE_M2L[v] == v + 1 && WRITE_LEN_M2L[v] == 13);
    } else if v == 65 {
        assert(WRITE_M2L[v] == v + 1 && WRITE_LEN_M2L[v] == 13);
    } else if v == 66 {
        assert(WRITE_M2L[v] == v + 1 && WRITE_LEN_M2L[v] == 13);
    } else if v == 67 {
        assert(WRITE_M2L[v] == v + 1 && WRITE_LEN_M2L[v] == 13);
    } else if v == 68 {
        assert(WRITE_M2L[v] == v + 1 && WRITE_LEN_M2L[v] == 13);
    } else if v == 69 {
        assert(WRITE_M2L[v] == v + 1 && WRITE_LEN_M2L[v] == 13);
    } else if v == 70 {
        assert(WRITE_M2L[v] == v + 1 && WRITE_LEN_M2L[v] == 13);
    } else if v == 71 {
        assert(WRITE_M2L[v] == v + 1 && WRITE_LEN_M2L[v] == 13);
    } else if v == 72 {
        assert(WRITE_M2L[v] == v + 1 && WRITE_LEN_M2L[v] == 13);
    } else if v == 73 {
        assert(WRITE_M2L[v] == v + 1 && WRITE_LEN_M2L[v] == 13);
    } else if v == 74 {
        assert(WRITE_M2L[v] == v + 1 && WRITE_LEN_M2L[v] == 13);
    } else if v == 75 {
        assert(WRITE_M2L[v] == v + 1 && WRITE_LEN_M2L[v] == 13);
    } else if v == 76 {
        assert(WRITE_M2L[v] == v + 1 && WRITE_LEN_M2L[v] == 13);
    } else if v == 77 {
        assert(WRITE_M2L[v] == v + 1 && WRITE_LEN_M2L[v] == 13);
    } else if v == 78 {
        assert(WRITE_M2L[v] == v + 1 && WRITE_LEN_M2L[v] == 13);
    } else if v == 79 {
        assert(WRITE_M2L[v] == v + 1 && WRITE_LEN_M2L[v] == 13);
    } else if v == 80 {
        assert(WRITE_M2L[v] == v + 1 && WRITE_LEN_M2L[v] == 13);
    } else if v == 81 {
        assert(WRITE_M2L[v] == v + 1 && WRITE_LEN_M2L[v] == 13);
    } else if v == 82 {
        assert(WRITE_M2L[v] == v + 1 && WRITE_LEN_M2L[v] == 13);
    } else if v == 83 {
        assert(WRITE_M2L[v] == v + 1 && WRITE_LEN_M2L[v] == 13);
    } else if v == 84 {
        assert(WRITE_M2L[v] == v + 1 && WRITE_LEN_M2L[v] == 13);
    } else if v == 85 {
        assert(WRITE_M2L[v] == v + 1 && WRITE_LEN_M2L[v] == 13);
    } else if v == 86 {
        assert(WRITE_M2L[v] == v + 1 && WRITE_LEN_M2L[v] == 13);
    } else if v == 87 {
        assert(WRITE_M2L[v] == v + 1 && WRITE_LEN_M2L[v] == 13);
    } else if v == 88 {
        assert(WRITE_M2L[v] == v + 1 && WRITE_LEN_M2L[v] == 13);
    } else if v == 89 {
        assert(WRITE_M2L[v] == v + 1 && WRITE_LEN_M2L[v] == 13);
    } else if v == 90 {
        assert(WRITE_M2L[v] == v + 1 && WRITE_LEN_M2L[v] == 13);
    } else if v == 91 {
        assert(WRITE_M2L[v] == v + 1 && WRITE_LEN_M2L[v] == 13);
    } else if v == 92 {
        assert(WRITE_M2L[v] == v + 1 && WRITE_LEN_M2L[v] == 13);
    } else if v == 93 {
        assert(WRITE_M2L[v] == v + 1 && WRITE_LEN_M2L[v] == 13);
    } else if v == 94 {
        assert(WRITE_M2L[v] == v + 1 && WRITE_LEN_M2L[v] == 13);
    } else if v == 95 {
        assert(WRITE_M2L[v] == v + 1 && WRITE_LEN_M2L[v] == 13);
    } else if v == 96 {
        assert(WRITE_M2L[v] == v + 1 && WRITE_LEN_M2L[v] == 13);
    } else if v == 97 {
        assert(WRITE_M2L[v] == v + 1 && WRITE_LEN_M2L[v] == 13);
    } else if v == 98 {
        assert(WRITE_M2L[v] == v + 1 && WRITE_LEN_M2L[v] == 13);
    } else if v == 99 {
        assert(WRITE_M2L[v] == v + 1 && WRITE_LEN_M2L[v] == 13);
    } else if v == 100 {
        assert(WRITE_M2L[v] == v + 1 && WRITE_LEN_M2L[v] == 13);
    } else if v == 101 {
        assert(WRITE_M2L[v] == v + 1 && WRITE_LEN_M2L[v] == 13);
    } else if v == 102 {
        assert(WRITE_M2L[v] == v + 1 && WRITE_LEN_M2L[v] == 13);
    } else if v == 103 {
        assert(WRITE_M2L[v] == v + 1 && WRITE_LEN_M2L[v] == 13);
    } else if v == 104 {
        assert(WRITE_M2L[v] == v + 1 && WRITE_LEN_M2L[v] == 13);
    } else if v == 105 {
        assert(WRITE_M2L[v] == v + 1 && WRITE_LEN_M2L[v] == 13);
    } else if v == 106 {
        assert(WRITE_M2L[v] == v + 1 && WRITE_LEN_M2L[v] == 13);
    } else if v == 107 {
        assert(WRITE_M2L[v] == v + 1 && WRITE_LEN_M2L[v] == 13);
    } else if v == 108 {
        assert(WRITE_M2L[v] == v + 1 && WRITE_LEN_M2L[v] == 13);
    } else if v == 109 {
        assert(WRITE_M2L[v] == v + 1 && WRITE_LEN_M2L[v] == 13);
    } else if v == 110 {
        assert(WRITE_M2L[v] == v + 1 && WRITE_LEN_M2L[v] == 13);
    } else if v == 111 {
        assert(WRITE_M2L[v] == v + 1 && WRITE_LEN_M2L[v] == 13);
    } else if v == 112 {
        assert(WRITE_M2L[v] == v + 1 && WRITE_LEN_M2L[v] == 13);
    } else if v == 113 {
        assert(WRITE_M2L[v] == v + 1 && WRITE_LEN_M2L[v] == 13);
    } else if v == 114 {
        assert(WRITE_M2L[v] == v + 1 && WRITE_LEN_M2L[v] == 13);
    } else if v == 115 {
        assert(WRITE_M2L[v] == v + 1 && WRITE_LEN_M2L[v] == 13);
    } else if v == 116 {
        assert(WRITE_M2L[v] == v + 1 && WRITE_LEN_M2L[v] == 13);
    } else if v == 117 {
        assert(WRITE_M2L[v] == v + 1 && WRITE_LEN_M2L[v] == 13);
    } else if v == 118 {
        assert(WRITE_M2L[v] == v + 1 && WRITE_LEN_M2L[v] == 13);
    } else if v == 119 {
        assert(WRITE_M2L[v] == v + 1 && WRITE_LEN_M2L[v] == 13);
    } else if v == 120 {
        assert(WRITE_M2L[v] == v + 1 && WRITE_LEN_M2L[v] == 13);
    } else if v == 121 {
        assert(WRITE_M2L[v] == v + 1 && WRITE_LEN_M2L[v] == 13);
    } else if v == 122 {
        assert(WRITE_M2L[v] == v + 1 && WRITE_LEN_M2L[v] == 13);
    } else if v == 123 {
        assert(WRITE_M2L[v] == v + 1 && WRITE_LEN_M2L[v] == 13);
    } else if v == 124 {
        assert(WRITE_M2L[v] == v + 1 && WRITE_LEN_M2L[v] == 13);
    } else if v == 125 {
        assert(WRITE_M2L[v] == v + 1 && WRITE_LEN_M2L[v] == 13);
    } else if v == 126 {
        assert(WRITE_M2L[v] == v + 1 && WRITE_LEN_M2L[v] == 13);
    }
}

proof fn lemma_write_group_m2l_7(v: int)
    requires
        127 <= v < 255,
    ensures
        WRITE_M2L[v] == v + 1,
        WRITE_LEN_M2L[v] == 15,
{
    if v == 127 {
        assert(WRITE_M2L[v] == v + 1 && WRITE_LEN_M2L[v] == 15);
    } else if v == 128 {
        assert(WRITE_M2L[v] == v + 1 && WRITE_LEN_M2L[v] == 15);
    } else if v == 129 {
        assert(WRITE_M2L[v] == v + 1 && WRITE_LEN_M2L[v] == 15);
    } else if v == 130 {
        assert(WRITE_M2L[v] == v + 1 && WRITE_LEN_M2L[v] == 15);
    } else if v == 131 {
        assert(WRITE_M2L[v] == v + 1 && WRITE_LEN_M2L[v] == 15);
    } else if v == 132 {
        assert(WRITE_M2L[v] == v + 1 && WRITE_LEN_M2L[v] == 15);
    } else if v == 133 {
        assert(WRITE_M2L[v] == v + 1 && WRITE_LEN_M2L[v] == 15);
    } else if v == 134 {
        assert(WRITE_M2L[v] == v + 1 && WRITE_LEN_M2L[v] == 15);
    } else if v == 135 {
        assert(WRITE_M2L[v] == v + 1 && WRITE_LEN_M2L[v] == 15);
    } else if v == 136 {
        assert(WRITE_M2L[v] == v + 1 && WRITE_LEN_M2L[v] == 15);
    } else if v == 137 {
        assert(WRITE_M2L[v] == v + 1 && WRITE_LEN_M2L[v] == 15);
    } else if v == 138 {
        assert(WRITE_M2L[v] == v + 1 && WRITE_LEN_M2L[v] == 15);
    } else if v == 139 {
        assert(WRITE_M2L[v] == v + 1 && WRITE_LEN_M2L[v] == 15);
    } else if v == 140 {
        assert(WRITE_M2L[v] == v + 1 && WRITE_LEN_M2L[v] == 15);
    } else if v == 141 {
        assert(WRITE_M2L[v] == v + 1 && WRITE_LEN_M2L[v] == 15);
    } else if v == 142 {
        assert(WRITE_M2L[v] == v + 1 && WRITE_LEN_M2L[v] == 15);
    } else if v == 143 {
        assert(WRITE_M2L[v] == v + 1 && WRITE_LEN_M2L[v] == 15);
    } else if v == 144 {
        assert(WRITE_M2L[v] == v + 1 && WRITE_LEN_M2L[v] == 15);
    } else if v == 145 {
        assert(WRITE_M2L[v] == v + 1 && WRITE_LEN_M2L[v] == 15);
    } else if v == 146 {
        assert(WRITE_M2L[v] == v + 1 && WRITE_LEN_M2L[v] == 15);
    } else if v == 147 {
        assert(WRITE_M2L[v] == v + 1 && WRITE_LEN_M2L[v] == 15);
    } else if v == 148 {
        assert(WRITE_M2L[v] == v + 1 && WRITE_LEN_M2L[v] == 15);
    } else if v == 149 {
        assert(WRITE_M2L[v] == v + 1 && WRITE_LEN_M2L[v] == 15);
    } else if v == 150 {
        assert(WRITE_M2L[v] == v + 1 && WRITE_LEN_M2L[v] == 15);
    } else if v == 151 {
        assert(WRITE_M2L[v] == v + 1 && WRITE_LEN_M2L[v] == 15);
    } else if v == 152 {
        assert(WRITE_M2L[v] == v + 1 && WRITE_LEN_M2L[v] == 15);
    } else if v == 153 {
        assert(WRITE_M2L[v] == v + 1 && WRITE_LEN_M2L[v] == 15);
    } else if v == 154 {
        assert(WRITE_M2L[v] == v + 1 && WRITE_LEN_M2L[v] == 15);
    } else if v == 155 {
        assert(WRITE_M2L[v] == v + 1 && WRITE_LEN_M2L[v] == 15);
    } else if v == 156 {
        assert(WRITE_M2L[v] == v + 1 && WRITE_LEN_M2L[v] == 15);
    } else if v == 157 {
        assert(WRITE_M2L[v] == v + 1 && WRITE_LEN_M2L[v] == 15);
    } else if v == 158 {
        assert(WRITE_M2L[v] == v + 1 && WRITE_LEN_M2L[v] == 15);
    } else if v == 159 {
        assert(WRITE_M2L[v] == v + 1 && WRITE_LEN_M2L[v] == 15);
    } else if v == 160 {
        assert(WRITE_M2L[v] == v + 1 && WRITE_LEN_M2L[v] == 15);
    } else if v == 161 {
        assert(WRITE_M2L[v] == v + 1 && WRITE_LEN_M2L[v] == 15);
    } else if v == 162 {
        assert(WRITE_M2L[v] == v + 1 && WRITE_LEN_M2L[v] == 15);
    } else if v == 163 {
        assert(WRITE_M2L[v] == v + 1 && WRITE_LEN_M2L[v] == 15);
    } else if v == 164 {
        assert(WRITE_M2L[v] == v + 1 && WRITE_LEN_M2L[v] == 15);
    } else if v == 165 {
        assert(WRITE_M2L[v] == v + 1 && WRITE_LEN_M2L[v] == 15);
    } else if v == 166 {
        assert(WRITE_M2L[v] == v + 1 && WRITE_LEN_M2L[v] == 15);
    } else if v == 167 {
        assert(WRITE_M2L[v] == v + 1 && WRITE_LEN_M2L[v] == 15);
    } else if v == 168 {
        assert(WRITE_M2L[v] == v + 1 && WRITE_LEN_M2L[v] == 15);
    } else if v == 169 {
        assert(WRITE_M2L[v] == v + 1 && WRITE_LEN_M2L[v] == 15);
    } else if v == 170 {
        assert(WRITE_M2L[v] == v + 1 && WRITE_LEN_M2L[v] == 15);
    } else if v == 171 {
        assert(WRITE_M2L[v] == v + 1 && WRITE_LEN_M2L[v] == 15);
    } else if v == 172 {
        assert(WRITE_M2L[v] == v + 1 && WRITE_LEN_M2L[v] == 15);
    } else if v == 173 {
        assert(WRITE_M2L[v] == v + 1 && WRITE_LEN_M2L[v] == 15);
    } else if v == 174 {
        assert(WRITE_M2L[v] == v + 1 && WRITE_LEN_M2L[v] == 15);
    } else if v == 175 {
        assert(WRITE_M2L[v] == v + 1 && WRITE_LEN_M2L[v] == 15);
    } else if v == 176 {
        assert(WRITE_M2L[v] == v + 1 && WRITE_LEN_M2L[v] == 15);
    } else if v == 177 {
        assert(WRITE_M2L[v] == v + 1 && WRITE_LEN_M2L[v] == 15);
    } else if v == 178 {
        assert(WRITE_M2L[v] == v + 1 && WRITE_LEN_M2L[v] == 15);
    } else if v == 179 {
        assert(WRITE_M2L[v] == v + 1 && WRITE_LEN_M2L[v] == 15);
    } else if v == 180 {
        assert(WRITE_M2L[v] == v + 1 && WRITE_LEN_M2L[v] == 15);
    } else if v == 181 {
        assert(WRITE_M2L[v] == v + 1 && WRITE_LEN_M2L[v] == 15);
    } else if v == 182 {
        assert(WRITE_M2L[v] == v + 1 && WRITE_LEN_M2L[v] == 15);
    } else if v == 183 {
        assert(WRITE_M2L[v] == v + 1 && WRITE_LEN_M2L[v] == 15);
    } else if v == 184 {
        assert(WRITE_M2L[v] == v + 1 && WRITE_LEN_M2L[v] == 15);
    } else if v == 185 {
        assert(WRITE_M2L[v] == v + 1 && WRITE_LEN_M2L[v] == 15);
    } else if v == 186 {
        assert(WRITE_M2L[v] == v + 1 && WRITE_LEN_M2L[v] == 15);
    } else if v == 187 {
        assert(WRITE_M2L[v] == v + 1 && WRITE_LEN_M2L[v] == 15);
    } else if v == 188 {
        assert(WRITE_M2L[v] == v + 1 && WRITE_LEN_M2L[v] == 15);
    } else if v == 189 {
        assert(WRITE_M2L[v] == v + 1 && WRITE_LEN_M2L[v] == 15);
    } else if v == 190 {
        assert(WRITE_M2L[v] == v + 1 && WRITE_LEN_M2L[v] == 15);
    } else if v == 191 {
        assert(WRITE_M2L[v] == v + 1 && WRITE_LEN_M2L[v] == 15);
    } else if v == 192 {
        assert(WRITE_M2L[v] == v + 1 && WRITE_LEN_M2L[v] == 15);
    } else if v == 193 {
        assert(WRITE_M2L[v] == v + 1 && WRITE_LEN_M2L[v] == 15);
    } else if v == 194 {
        assert(WRITE_M2L[v] == v + 1 && WRITE_LEN_M2L[v] == 15);
    } else if v == 195 {
        assert(WRITE_M2L[v] == v + 1 && WRITE_LEN_M2L[v] == 15);
    } else if v == 196 {
        assert(WRITE_M2L[v] == v + 1 && WRITE_LEN_M2L[v] == 15);
    } else if v == 197 {
        assert(WRITE_M2L[v] == v + 1 && WRITE_LEN_M2L[v] == 15);
    } else if v == 198 {
        assert(WRITE_M2L[v] == v + 1 && WRITE_LEN_M2L[v] == 15);
    } else if v == 199 {
        assert(WRITE_M2L[v] == v + 1 && WRITE_LEN_M2L[v] == 15);
    } else if v == 200 {
        assert(WRITE_M2L[v] == v + 1 && WRITE_LEN_M2L[v] == 15);
    } else if v == 201 {
        assert(WRITE_M2L[v] == v + 1 && WRITE_LEN_M2L[v] == 15);
    } else if v == 202 {
        assert(WRITE_M2L[v] == v + 1 && WRITE_LEN_M2L[v] == 15);
    } else if v == 203 {
        assert(WRITE_M2L[v] == v + 1 && WRITE_LEN_M2L[v] == 15);
    } else if v == 204 {
        assert(WRITE_M2L[v] == v + 1 && WRITE_LEN_M2L[v] == 15);
    } else if v == 205 {
        assert(WRITE_M2L[v] == v + 1 && WRITE_LEN_M2L[v] == 15);
    } else if v == 206 {
        assert(WRITE_M2L[v] == v + 1 && WRITE_LEN_M2L[v] == 15);
    } else if v == 207 {
        assert(WRITE_M2L[v] == v + 1 && WRITE_LEN_M2L[v] == 15);
    } else if v == 208 {
        assert(WRITE_M2L[v] == v + 1 && WRITE_LEN_M2L[v] == 15);
    } else if v == 209 {
        assert(WRITE_M2L[v] == v + 1 && WRITE_LEN_M2L[v] == 15);
    } else if v == 210 {
        assert(WRITE_M2L[v] == v + 1 && WRITE_LEN_M2L[v] == 15);
    } else if v == 211 {
        assert(WRITE_M2L[v] == v + 1 && WRITE_LEN_M2L[v] == 15);
    } else if v == 212 {
        assert(WRITE_M2L[v] == v + 1 && WRITE_LEN_M2L[v] == 15);
    } else if v == 213 {
        assert(WRITE_M2L[v] == v + 1 && WRITE_LEN_M2L[v] == 15);
    } else if v == 214 {
        assert(WRITE_M2L[v] == v + 1 && WRITE_LEN_M2L[v] == 15);
    } else if v == 215 {
        assert(WRITE_M2L[v] == v + 1 && WRITE_LEN_M2L[v] == 15);
    } else if v == 216 {
        assert(WRITE_M2L[v] == v + 1 && WRITE_LEN_M2L[v] == 15);
    } else if v == 217 {
        assert(WRITE_M2L[v] == v + 1 && WRITE_LEN_M2L[v] == 15);
    } else if v == 218 {
        assert(WRITE_M2L[v] == v + 1 && WRITE_LEN_M2L[v] == 15);
    } else if v == 219 {
        assert(WRITE_M2L[v] == v + 1 && WRITE_LEN_M2L[v] == 15);
    } else if v == 220 {
        assert(WRITE_M2L[v] == v + 1 && WRITE_LEN_M2L[v] == 15);
    } else if v == 221 {
        assert(WRITE_M2L[v] == v + 1 && WRITE_LEN_M2L[v] == 15);
    } else if v == 222 {
        assert(WRITE_M2L[v] == v + 1 && WRITE_LEN_M2L[v] == 15);
    } else if v == 223 {
        assert(WRITE_M2L[v] == v + 1 && WRITE_LEN_M2L[v] == 15);
    } else if v == 224 {
        assert(WRITE_M2L[v] == v + 1 && WRITE_LEN_M2L[v] == 15);
    } else if v == 225 {
        assert(WRITE_M2L[v] == v + 1 && WRITE_LEN_M2L[v] == 15);
    } else if v == 226 {
        assert(WRITE_M2L[v] == v + 1 && WRITE_LEN_M2L[v] == 15);
    } else if v == 227 {
        assert(WRITE_M2L[v] == v + 1 && WRITE_LEN_M2L[v] == 15);
    } else if v == 228 {
        assert(WRITE_M2L[v] == v + 1 && WRITE_LEN_M2L[v] == 15);
    } else if v == 229 {
        assert(WRITE_M2L[v] == v + 1 && WRITE_LEN_M2L[v] == 15);
    } else if v == 230 {
        assert(WRITE_M2L[v] == v + 1 && WRITE_LEN_M2L[v] == 15);
    } else if v == 231 {
        assert(WRITE_M2L[v] == v + 1 && WRITE_LEN_M2L[v] == 15);
    } else if v == 232 {
        assert(WRITE_M2L[v] == v + 1 && WRITE_LEN_M2L[v] == 15);
    } else if v == 233 {
        assert(WRITE_M2L[v] == v + 1 && WRITE_LEN_M2L[v] == 15);
    } else if v == 234 {
        assert(WRITE_M2L[v] == v + 1 && WRITE_LEN_M2L[v] == 15);
    } else if v == 235 {
        assert(WRITE_M2L[v] == v + 1 && WRITE_LEN_M2L[v] == 15);
    } else if v == 236 {
        assert(WRITE_M2L[v] == v + 1 && WRITE_LEN_M2L[v] == 15);
    } else if v == 237 {
        assert(WRITE_M2L[v] == v + 1 && WRITE_LEN_M2L[v] == 15);
    } else if v == 238 {
        assert(WRITE_M2L[v] == v + 1 && WRITE_LEN_M2L[v] == 15);
    } else if v == 239 {
        assert(WRITE_M2L[v] == v + 1 && WRITE_LEN_M2L[v] == 15);
    } else if v == 240 {
        assert(WRITE_M2L[v] == v + 1 && WRITE_LEN_M2L[v] == 15);
    } else if v == 241 {
        assert(WRITE_M2L[v] == v + 1 && WRITE_LEN_M2L[v] == 15);
    } else if v == 242 {
        assert(WRITE_M2L[v] == v + 1 && WRITE_LEN_M2L[v] == 15);
    } else if v == 243 {
        assert(WRITE_M2L[v] == v + 1 && WRITE_LEN_M2L[v] == 15);
    } else if v == 244 {
        assert(WRITE_M2L[v] == v + 1 && WRITE_LEN_M2L[v] == 15);
    } else if v == 245 {
        assert(WRITE_M2L[v] == v + 1 && WRITE_LEN_M2L[v] == 15);
    } else if v == 246 {
        assert(WRITE_M2L[v] == v + 1 && WRITE_LEN_M2L[v] == 15);
    } else if v == 247 {
        assert(WRITE_M2L[v] == v + 1 && WRITE_LEN_M2L[v] == 15);
    } else if v == 248 {
        assert(WRITE_M2L[v] == v + 1 && WRITE_LEN_M2L[v] == 15);
    } else if v == 249 {
        assert(WRITE_M2L[v] == v + 1 && WRITE_LEN_M2L[v] == 15);
    } else if v == 250 {
        assert(WRITE_M2L[v] == v + 1 && WRITE_LEN_M2L[v] == 15);
    } else if v == 251 {
        assert(WRITE_M2L[v] == v + 1 && WRITE_LEN_M2L[v] == 15);
    } else if v == 252 {
        assert(WRITE_M2L[v] == v + 1 && WRITE_LEN_M2L[v] == 15);
    } else if v == 253 {
        assert(WRITE_M2L[v] == v + 1 && WRITE_LEN_M2L[v] == 15);
    } else if v == 254 {
        assert(WRITE_M2L[v] == v + 1 && WRITE_LEN_M2L[v] == 15);
    }
}

proof fn lemma_write_group_m2l_8(v: int)
    requires
        255 <= v < 256,
    ensures
        WRITE_M2L[v] == v + 1,
        WRITE_LEN_M2L[v] == 17,
{
    if v == 255 {
        assert(WRITE_M2L[v] == v + 1 && WRITE_LEN_M2L[v] == 17);
    }
}

/// Every entry of the L2M write table is the code of its index.
pub proof fn lemma_write_table_l2m(v: int)
    requires
        0 <= v <= WRITE_MAX,
    ensures
        WRITE_LEN_L2M[v] <= 64,
        WRITE_L2M[v] < pow2(WRITE_LEN_L2M[v] as nat),
        field(WRITE_L2M[v] as nat, WRITE_LEN_L2M[v] as nat, false) == gamma_code(v as nat, false),
{
    lemma2_to64();
    lemma2_to64_rest();
    lemma_gamma_closed_form(v as nat);
    lemma_gamma_len(v as nat, false);
    if 0 <= v < 1 {
        lemma_log2_unique((v + 1) as nat, 0);
        lemma_write_group_l2m_0(v);
        lemma_gamma_values_at(v as nat, 0, 1, 2);
        assert(gamma_l2m_value(v as nat) == 1 + (v + 1 - 1) * 2);
        assert(WRITE_L2M[v] as nat == gamma_l2m_value(v as nat));
        assert(WRITE_LEN_L2M[v] as nat == gamma_code(v as nat, false).len());
    }
    if 1 <= v < 3 {
        lemma_log2_unique((v + 1) as nat, 1);
        lemma_write_group_l2m_1(v);
        lemma_gamma_values_at(v as nat, 1, 2, 4);
        assert(gamma_l2m_value(v as nat) == 2 + (v + 1 - 2) * 4);
        assert(WRITE_L2M[v] as nat == gamma_l2m_value(v as nat));
        assert(WRITE_LEN_L2M[v] as nat == gamma_code(v as nat, false).len());
    }
    if 3 <= v < 7 {
        lemma_log2_unique((v + 1) as nat, 2);
        lemma_write_group_l2m_2(v);
        lemma_gamma_values_at(v as nat, 2, 4, 8);
        assert(gamma_l2m_value(v as nat) == 4 + (v + 1 - 4) * 8);
        assert(WRITE_L2M[v] as nat == gamma_l2m_value(v as nat));
        assert(WRITE_LEN_L2M[v] as nat == gamma_code(v as nat, false).len());
    }
    if 7 <= v < 15 {
        lemma_log2_unique((v + 1) as nat, 3);
        lemma_write_group_l2m_3(v);
        lemma_gamma_values_at(v as nat, 3, 8, 16);
        assert(gamma_l2m_value(v as nat) == 8 + (v + 1 - 8) * 16);
        assert(WRITE_L2M[v] as nat == gamma_l2m_value(v as nat));
        assert(WRITE_LEN_L2M[v] as nat == gamma_code(v as nat, false).len());
    }
    if 15 <= v < 31 {
        lemma_log2_unique((v + 1) as nat, 4);
        lemma_write_group_l2m_4(v);
        lemma_gamma_values_at(v as nat, 4, 16, 32);
        assert(gamma_l2m_value(v as nat) == 16 + (v + 1 - 16) * 32);
        assert(WRITE_L2M[v] as nat == gamma_l2m_value(v as nat));
        assert(WRITE_LEN_L2M[v] as nat == gamma_code(v as nat, false).len());
    }
    if 31 <= v < 63 {
        lemma_log2_unique((v + 1) as nat, 5);
        lemma_write_group_l2m_5(v);
        lemma_gamma_values_at(v as nat, 5, 32, 64);
        assert(gamma_l2m_value(v as nat) == 32 + (v + 1 - 32) * 64);
        assert(WRITE_L2M[v] as nat == gamma_l2m_value(v as nat));
        assert(WRITE_LEN_L2M[v] as nat == gamma_code(v as nat, false).len());
    }
    if 63 <= v < 127 {
        lemma_log2_unique((v + 1) as nat, 6);
        lemma_write_group_l2m_6(v);
        lemma_gamma_values_at(v as nat, 6, 64, 128);
        assert(gamma_l2m_value(v as nat) == 64 + (v + 1 - 64) * 128);
        assert(WRITE_L2M[v] as nat == gamma_l2m_value(v as nat));
        assert(WRITE_LEN_L2M[v] as nat == gamma_code(v as nat, false).len());
    }
    if 127 <= v < 255 {
        lemma_log2_unique((v + 1) as nat, 7);
        lemma_write_group_l2m_7(v);
        lemma_gamma_values_at(v as nat, 7, 128, 256);
        assert(gamma_l2m_value(v as nat) == 128 + (v + 1 - 128) * 256);
        assert(WRITE_L2M[v] as nat == gamma_l2m_value(v as nat));
        assert(WRITE_LEN_L2M[v] as nat == gamma_code(v as nat, false).len());
    }
    if 255 <= v < 256 {
        lemma_log2_unique((v + 1) as nat, 8);
        lemma_write_group_l2m_8(v);
        lemma_gamma_values_at(v as nat, 8, 256, 512);
        assert(gamma_l2m_value(v as nat) == 256 + (v + 1 - 256) * 512);
        assert(WRITE_L2M[v] as nat == gamma_l2m_value(v as nat));
        assert(WRITE_LEN_L2M[v] as nat == gamma_code(v as nat, false).len());
    }
}

proof fn lemma_write_group_l2m_0(v: int)
    requires
        0 <= v < 1,
    ensures
        WRITE_L2M[v] == 1 + (v + 1 - 1) * 2,
        WRITE_LEN_L2M[v] == 1,
{
    if v == 0 {
        assert(WRITE_L2M[v] == 1 + (v + 1 - 1) * 2 && WRITE_LEN_L2M[v] == 1);
    }
}

proof fn lemma_write_group_l2m_1(v: int)
    requires
        1 <= v < 3,
    ensures
        WRITE_L2M[v] == 2 + (v + 1 - 2) * 4,
        WRITE_LEN_L2M[v] == 3,
{
    if v == 1 {
        assert(WRITE_L2M[v] == 2 + (v + 1 - 2) * 4 && WRITE_LEN_L2M[v] == 3);
    } else if v == 2 {
        assert(WRITE_L2M[v] == 2 + (v + 1 - 2) * 4 && WRITE_LEN_L2M[v] == 3);
    }
}

proof fn lemma_write_group_l2m_2(v: int)
    requires
        3 <= v < 7,
    ensures
        WRITE_L2M[v] == 4 + (v + 1 - 4) * 8,
        WRITE_LEN_L2M[v] == 5,
{
    if v == 3 {
        assert(WRITE_L2M[v] == 4 + (v + 1 - 4) * 8 && WRITE_LEN_L2M[v] == 5);
    } else if v == 4 {
        assert(WRITE_L2M[v] == 4 + (v + 1 - 4) * 8 && WRITE_LEN_L2M[v] == 5);
    } else if v == 5 {
        assert(WRITE_L2M[v] == 4 + (v + 1 - 4) * 8 && WRITE_LEN_L2M[v] == 5);
    } else if v == 6 {
        assert(WRITE_L2M[v] == 4 + (v + 1 - 4) * 8 && WRITE_LEN_L2M[v] == 5);
    }
}

proof fn lemma_write_group_l2m_3(v: int)
    requires
        7 <= v < 15,
    ensures
        WRITE_L2M[v] == 8 + (v + 1 - 8) * 16,
        WRITE_LEN_L2M[v] == 7,
{
    if v == 7 {
        assert(WRITE_L2M[v] == 8 + (v + 1 - 8) * 16 && WRITE_LEN_L2M[v] == 7);
    } else if v == 8 {
        assert(WRITE_L2M[v] == 8 + (v + 1 - 8) * 16 && WRITE_LEN_L2M[v] == 7);
    } else if v == 9 {
        assert(WRITE_L2M[v] == 8 + (v + 1 - 8) * 16 && WRITE_LEN_L2M[v] == 7);
    } else if v == 10 {
        assert(WRITE_L2M[v] == 8 + (v + 1 - 8) * 16 && WRITE_LEN_L2M[v] == 7);
    } else if v == 11 {
        assert(WRITE_L2M[v] == 8 + (v + 1 - 8) * 16 && WRITE_LEN_L2M[v] == 7);
    } else if v == 12 {
        assert(WRITE_L2M[v] == 8 + (v + 1 - 8) * 16 && WRITE_LEN_L2M[v] == 7);
    } else if v == 13 {
        assert(WRITE_L2M[v] == 8 + (v + 1 - 8) * 16 && WRITE_LEN_L2M[v] == 7);
    } else if v == 14 {
        assert(WRITE_L2M[v] == 8 + (v + 1 - 8) * 16 && WRITE_LEN_L2M[v] == 7);
    }
}

proof fn lemma_write_group_l2m_4(v: int)
    requires
        15 <= v < 31,
    ensures
        WRITE_L2M[v] == 16 + (v + 1 - 16) * 32,
        WRITE_LEN_L2M[v] == 9,
{
    if v == 15 {
        assert(WRITE_L2M[v] == 16 + (v + 1 - 16) * 32 && WRITE_LEN_L2M[v] == 9);
    } else if v == 16 {
        assert(WRITE_L2M[v] == 16 + (v + 1 - 16) * 32 && WRITE_LEN_L2M[v] == 9);
    } else if v == 17 {
        assert(WRITE_L2M[v] == 16 + (v + 1 - 16) * 32 && WRITE_LEN_L2M[v] == 9);
    } else if v == 18 {
        assert(WRITE_L2M[v] == 16 + (v + 1 - 16) * 32 && WRITE_LEN_L2M[v] == 9);
    } else if v == 19 {
        assert(WRITE_L2M[v] == 16 + (v + 1 - 16) * 32 && WRITE_LEN_L2M[v] == 9);
    } else if v == 20 {
        assert(WRITE_L2M[v] == 16 + (v + 1 - 16) * 32 && WRITE_LEN_L2M[v] == 9);
    } else if v == 21 {
        assert(WRITE_L2M[v] == 16 + (v + 1 - 16) * 32 && WRITE_LEN_L2M[v] == 9);
    } else if v == 22 {
        assert(WRITE_L2M[v] == 16 + (v + 1 - 16) * 32 && WRITE_LEN_L2M[v] == 9);
    } else if v == 23 {
        assert(WRITE_L2M[v] == 16 + (v + 1 - 16) * 32 && WRITE_LEN_L2M[v] == 9);
    } else if v == 24 {
        assert(WRITE_L2M[v] == 16 + (v + 1 - 16) * 32 && WRITE_LEN_L2M[v] == 9);
    } else if v == 25 {
        assert(WRITE_L2M[v] == 16 + (v + 1 - 16) * 32 && WRITE_LEN_L2M[v] == 9);
    } else if v == 26 {
        assert(WRITE_L2M[v] == 16 + (v + 1 - 16) * 32 && WRITE_LEN_L2M[v] == 9);
    } else if v == 27 {
        assert(WRITE_L2M[v] == 16 + (v + 1 - 16) * 32 && WRITE_LEN_L2M[v] == 9);
    } else if v == 28 {
        assert(WRITE_L2M[v] == 16 + (v + 1 - 16) * 32 && WRITE_LEN_L2M[v] == 9);
    } else if v == 29 {
        assert(WRITE_L2M[v] == 16 + (v + 1 - 16) * 32 && WRITE_LEN_L2M[v] == 9);
    } else if v == 30 {
        assert(WRITE_L2M[v] == 16 + (v + 1 - 16) * 32 && WRITE_LEN_L2M[v] == 9);
    }
}

proof fn lemma_write_group_l2m_5(v: int)
    requires
        31 <= v < 63,
    ensures
        WRITE_L2M[v] == 32 + (v + 1 - 32) * 64,
        WRITE_LEN_L2M[v] == 11,
{
    if v == 31 {
        assert(WRITE_L2M[v] == 32 + (v + 1 - 32) * 64 && WRITE_LEN_L2M[v] == 11);
    } else if v == 32 {
        assert(WRITE_L2M[v] == 32 + (v + 1 - 32) * 64 && WRITE_LEN_L2M[v] == 11);
    } else if v == 33 {
        assert(WRITE_L2M[v] == 32 + (v + 1 - 32) * 64 && WRITE_LEN_L2M[v] == 11);
    } else if v == 34 {
        assert(WRITE_L2M[v] == 32 + (v + 1 - 32) * 64 && WRITE_LEN_L2M[v] == 11);
    } else if v == 35 {
        assert(WRITE_L2M[v] == 32 + (v + 1 - 32) * 64 && WRITE_LEN_L2M[v] == 11);
    } else if v == 36 {
        assert(WRITE_L2M[v] == 32 + (v + 1 - 32) * 64 && WRITE_LEN_L2M[v] == 11);
    } else if v == 37 {
        assert(WRITE_L2M[v] == 32 + (v + 1 - 32) * 64 && WRITE_LEN_L2M[v] == 11);
    } else if v == 38 {
        assert(WRITE_L2M[v] == 32 + (v + 1 - 32) * 64 && WRITE_LEN_L2M[v] == 11);
    } else if v == 39 {
        assert(WRITE_L2M[v] == 32 + (v + 1 - 32) * 64 && WRITE_LEN_L2M[v] == 11);
    } else if v == 40 {
        assert(WRITE_L2M[v] == 32 + (v + 1 - 32) * 64 && WRITE_LEN_L2M[v] == 11);
    } else if v == 41 {
        assert(WRITE_L2M[v] == 32 + (v + 1 - 32) * 64 && WRITE_LEN_L2M[v] == 11);
    } else if v == 42 {
        assert(WRITE_L2M[v] == 32 + (v + 1 - 32) * 64 && WRITE_LEN_L2M[v] == 11);
    } else if v == 43 {
        assert(WRITE_L2M[v] == 32 + (v + 1 - 32) * 64 && WRITE_LEN_L2M[v] == 11);
    } else if v == 44 {
        assert(WRITE_L2M[v] == 32 + (v + 1 - 32) * 64 && WRITE_LEN_L2M[v] == 11);
    } else if v == 45 {
        assert(WRITE_L2M[v] == 32 + (v + 1 - 32) * 64 && WRITE_LEN_L2M[v] == 11);
    } else if v == 46 {
        assert(WRITE_L2M[v] == 32 + (v + 1 - 32) * 64 && WRITE_LEN_L2M[v] == 11);
    } else if v == 47 {
        assert(WRITE_L2M[v] == 32 + (v + 1 - 32) * 64 && WRITE_LEN_L2M[v] == 11);
    } else if v == 48 {
        assert(WRITE_L2M[v] == 32 + (v + 1 - 32) * 64 && WRITE_LEN_L2M[v] == 11);
    } else if v == 49 {
        assert(WRITE_L2M[v] == 32 + (v + 1 - 32) * 64 && WRITE_LEN_L2M[v] == 11);
    } else if v == 50 {
        assert(WRITE_L2M[v] == 32 + (v + 1 - 32) * 64 && WRITE_LEN_L2M[v] == 11);
    } else if v == 51 {
        assert(WRITE_L2M[v] == 32 + (v + 1 - 32) * 64 && WRITE_LEN_L2M[v] == 11);
    } else if v == 52 {
        assert(WRITE_L2M[v] == 32 + (v + 1 - 32) * 64 && WRITE_LEN_L2M[v] == 11);
    } else if v == 53 {
        assert(WRITE_L2M[v] == 32 + (v + 1 - 32) * 64 && WRITE_LEN_L2M[v] == 11);
    } else if v == 54 {
        assert(WRITE_L2M[v] == 32 + (v + 1 - 32) * 64 && WRITE_LEN_L2M[v] == 11);
    } else if v == 55 {
        assert(WRITE_L2M[v] == 32 + (v + 1 - 32) * 64 && WRITE_LEN_L2M[v] == 11);
    } else if v == 56 {
        assert(WRITE_L2M[v] == 32 + (v + 1 - 32) * 64 && WRITE_LEN_L2M[v] == 11);
    } else if v == 57 {
        assert(WRITE_L2M[v] == 32 + (v + 1 - 32) * 64 && WRITE_LEN_L2M[v] == 11);
    } else if v == 58 {
        assert(WRITE_L2M[v] == 32 + (v + 1 - 32) * 64 && WRITE_LEN_L2M[v] == 11);
    } else if v == 59 {
        assert(WRITE_L2M[v] == 32 + (v + 1 - 32) * 64 && WRITE_LEN_L2M[v] == 11);
    } else if v == 60 {
        assert(WRITE_L2M[v] == 32 + (v + 1 - 32) * 64 && WRITE_LEN_L2M[v] == 11);
    } else if v == 61 {
        assert(WRITE_L2M[v] == 32 + (v + 1 - 32) * 64 && WRITE_LEN_L2M[v] == 11);
    } else if v == 62 {
        assert(WRITE_L2M[v] == 32 + (v + 1 - 32) * 64 && WRITE_LEN_L2M[v] == 11);
    }
}

proof fn lemma_write_group_l2m_6(v: int)
    requires
        63 <= v < 127,
    ensures
        WRITE_L2M[v] == 64 + (v + 1 - 64) * 128,
        WRITE_LEN_L2M[v] == 13,
{
    if v == 63 {
        assert(WRITE_L2M[v] == 64 + (v + 1 - 64) * 128 && WRITE_LEN_L2M[v] == 13);
    } else if v == 64 {
        assert(WRITE_L2M[v] == 64 + (v + 1 - 64) * 128 && WRITE_LEN_L2M[v] == 13);
    } else if v == 65 {
        assert(WRITE_L2M[v] == 64 + (v + 1 - 64) * 128 && WRITE_LEN_L2M[v] == 13);
    } else if v == 66 {
        assert(WRITE_L2M[v] == 64 + (v + 1 - 64) * 128 && WRITE_LEN_L2M[v] == 13);
    } else if v == 67 {
        assert(WRITE_L2M[v] == 64 + (v + 1 - 64) * 128 && WRITE_LEN_L2M[v] == 13);
    } else if v == 68 {
        assert(WRITE_L2M[v] == 64 + (v + 1 - 64) * 128 && WRITE_LEN_L2M[v] == 13);
    } else if v == 69 {
        assert(WRITE_L2M[v] == 64 + (v + 1 - 64) * 128 && WRITE_LEN_L2M[v] == 13);
    } else if v == 70 {
        assert(WRITE_L2M[v] == 64 + (v + 1 - 64) * 128 && WRITE_LEN_L2M[v] == 13);
    } else if v == 71 {
        assert(WRITE_L2M[v] == 64 + (v + 1 - 64) * 128 && WRITE_LEN_L2M[v] == 13);
    } else if v == 72 {
        assert(WRITE_L2M[v] == 64 + (v + 1 - 64) * 128 && WRITE_LEN_L2M[v] == 13);
    } else if v == 73 {
        assert(WRITE_L2M[v] == 64 + (v + 1 - 64) * 128 && WRITE_LEN_L2M[v] == 13);
    } else if v == 74 {
        assert(WRITE_L2M[v] == 64 + (v + 1 - 64) * 128 && WRITE_LEN_L2M[v] == 13);
    } else if v == 75 {
        assert(WRITE_L2M[v] == 64 + (v + 1 - 64) * 128 && WRITE_LEN_L2M[v] == 13);
    } else if v == 76 {
        assert(WRITE_L2M[v] == 64 + (v + 1 - 64) * 128 && WRITE_LEN_L2M[v] == 13);
    } else if v == 77 {
        assert(WRITE_L2M[v] == 64 + (v + 1 - 64) * 128 && WRITE_LEN_L2M[v] == 13);
    } else if v == 78 {
        assert(WRITE_L2M[v] == 64 + (v + 1 - 64) * 128 && WRITE_LEN_L2M[v] == 13);
    } else if v == 79 {
        assert(WRITE_L2M[v] == 64 + (v + 1 - 64) * 128 && WRITE_LEN_L2M[v] == 13);
    } else if v == 80 {
        assert(WRITE_L2M[v] == 64 + (v + 1 - 64) * 128 && WRITE_LEN_L2M[v] == 13);
    } else if v == 81 {
        assert(WRITE_L2M[v] == 64 + (v + 1 - 64) * 128 && WRITE_LEN_L2M[v] == 13);
    } else if v == 82 {
        assert(WRITE_L2M[v] == 64 + (v + 1 - 64) * 128 && WRITE_LEN_L2M[v] == 13);
    } else if v == 83 {
        assert(WRITE_L2M[v] == 64 + (v + 1 - 64) * 128 && WRITE_LEN_L2M[v] == 13);
    } else if v == 84 {
        assert(WRITE_L2M[v] == 64 + (v + 1 - 64) * 128 && WRITE_LEN_L2M[v] == 13);
    } else if v == 85 {
        assert(WRITE_L2M[v] == 64 + (v + 1 - 64) * 128 && WRITE_LEN_L2M[v] == 13);
    } else if v == 86 {
        assert(WRITE_L2M[v] == 64 + (v + 1 - 64) * 128 && WRITE_LEN_L2M[v] == 13);
    } else if v == 87 {
        assert(WRITE_L2M[v] == 64 + (v + 1 - 64) * 128 && WRITE_LEN_L2M[v] == 13);
    } else if v == 88 {
        assert(WRITE_L2M[v] == 64 + (v + 1 - 64) * 128 && WRITE_LEN_L2M[v] == 13);
    } else if v == 89 {
        assert(WRITE_L2M[v] == 64 + (v + 1 - 64) * 128 && WRITE_LEN_L2M[v] == 13);
    } else if v == 90 {
        assert(WRITE_L2M[v] == 64 + (v + 1 - 64) * 128 && WRITE_LEN_L2M[v] == 13);
    } else if v == 91 {
        assert(WRITE_L2M[v] == 64 + (v + 1 - 64) * 128 && WRITE_LEN_L2M[v] == 13);
    } else if v == 92 {
        assert(WRITE_L2M[v] == 64 + (v + 1 - 64) * 128 && WRITE_LEN_L2M[v] == 13);
    } else if v == 93 {
        assert(WRITE_L2M[v] == 64 + (v + 1 - 64) * 128 && WRITE_LEN_L2M[v] == 13);
    } else if v == 94 {
        assert(WRITE_L2M[v] == 64 + (v + 1 - 64) * 128 && WRITE_LEN_L2M[v] == 13);
    } else if v == 95 {
        assert(WRITE_L2M[v] == 64 + (v + 1 - 64) * 128 && WRITE_LEN_L2M[v] == 13);
    } else if v == 96 {
        assert(WRITE_L2M[v] == 64 + (v + 1 - 64) * 128 && WRITE_LEN_L2M[v] == 13);
    } else if v == 97 {
        assert(WRITE_L2M[v] == 64 + (v + 1 - 64) * 128 && WRITE_LEN_L2M[v] == 13);
    } else if v == 98 {
        assert(WRITE_L2M[v] == 64 + (v + 1 - 64) * 128 && WRITE_LEN_L2M[v] == 13);
    } else if v == 99 {
        assert(WRITE_L2M[v] == 64 + (v + 1 - 64) * 128 && WRITE_LEN_L2M[v] == 13);
    } else if v == 100 {
        assert(WRITE_L2M[v] == 64 + (v + 1 - 64) * 128 && WRITE_LEN_L2M[v] == 13);
    } else if v == 101 {
        assert(WRITE_L2M[v] == 64 + (v + 1 - 64) * 128 && WRITE_LEN_L2M[v] == 13);
    } else if v == 102 {
        assert(WRITE_L2M[v] == 64 + (v + 1 - 64) * 128 && WRITE_LEN_L2M[v] == 13);
    } else if v == 103 {
        assert(WRITE_L2M[v] == 64 + (v + 1 - 64) * 128 && WRITE_LEN_L2M[v] == 13);
    } else if v == 104 {
        assert(WRITE_L2M[v] == 64 + (v + 1 - 64) * 128 && WRITE_LEN_L2M[v] == 13);
    } else if v == 105 {
        assert(WRITE_L2M[v] == 64 + (v + 1 - 64) * 128 && WRITE_LEN_L2M[v] == 13);
    } else if v == 106 {
        assert(WRITE_L2M[v] == 64 + (v + 1 - 64) * 128 && WRITE_LEN_L2M[v] == 13);
    } else if v == 107 {
        assert(WRITE_L2M[v] == 64 + (v + 1 - 64) * 128 && WRITE_LEN_L2M[v] == 13);
    } else if v == 108 {
        assert(WRITE_L2M[v] == 64 + (v + 1 - 64) * 128 && WRITE_LEN_L2M[v] == 13);
    } else if v == 109 {
        assert(WRITE_L2M[v] == 64 + (v + 1 - 64) * 128 && WRITE_LEN_L2M[v] == 13);
    } else if v == 110 {
        assert(WRITE_L2M[v] == 64 + (v + 1 - 64) * 128 && WRITE_LEN_L2M[v] == 13);
    } else if v == 111 {
        assert(WRITE_L2M[v] == 64 + (v + 1 - 64) * 128 && WRITE_LEN_L2M[v] == 13);
    } else if v == 112 {
        assert(WRITE_L2M[v] == 64 + (v + 1 - 64) * 128 && WRITE_LEN_L2M[v] == 13);
    } else if v == 113 {
        assert(WRITE_L2M[v] == 64 + (v + 1 - 64) * 128 && WRITE_LEN_L2M[v] == 13);
    } else if v == 114 {
        assert(WRITE_L2M[v] == 64 + (v + 1 - 64) * 128 && WRITE_LEN_L2M[v] == 13);
    } else if v == 115 {
        assert(WRITE_L2M[v] == 64 + (v + 1 - 64) * 128 && WRITE_LEN_L2M[v] == 13);
    } else if v == 116 {
        assert(WRITE_L2M[v] == 64 + (v + 1 - 64) * 128 && WRITE_LEN_L2M[v] == 13);
    } else if v == 117 {
        assert(WRITE_L2M[v] == 64 + (v + 1 - 64) * 128 && WRITE_LEN_L2M[v] == 13);
    } else if v == 118 {
        assert(WRITE_L2M[v] == 64 + (v + 1 - 64) * 128 && WRITE_LEN_L2M[v] == 13);
    } else if v == 119 {
        assert(WRITE_L2M[v] == 64 + (v + 1 - 64) * 128 && WRITE_LEN_L2M[v] == 13);
    } else if v == 120 {
        assert(WRITE_L2M[v] == 64 + (v + 1 - 64) * 128 && WRITE_LEN_L2M[v] == 13);
    } else if v == 121 {
        assert(WRITE_L2M[v] == 64 + (v + 1 - 64) * 128 && WRITE_LEN_L2M[v] == 13);
    } else if v == 122 {
        assert(WRITE_L2M[v] == 64 + (v + 1 - 64) * 128 && WRITE_LEN_L2M[v] == 13);
    } else if v == 123 {
        assert(WRITE_L2M[v] == 64 + (v + 1 - 64) * 128 && WRITE_LEN_L2M[v] == 13);
    } else if v == 124 {
        assert(WRITE_L2M[v] == 64 + (v + 1 - 64) * 128 && WRITE_LEN_L2M[v] == 13);
    } else if v == 125 {
        assert(WRITE_L2M[v] == 64 + (v + 1 - 64) * 128 && WRITE_LEN_L2M[v] == 13);
    } else if v == 126 {
        assert(WRITE_L2M[v] == 64 + (v + 1 - 64) * 128 && WRITE_LEN_L2M[v] == 13);
    }
}

proof fn lemma_write_group_l2m_7(v: int)
    requires
        127 <= v < 255,
    ensures
        WRITE_L2M[v] == 128 + (v + 1 - 128) * 256,
        WRITE_LEN_L2M[v] == 15,
{
    if v == 127 {
        assert(WRITE_L2M[v] == 128 + (v + 1 - 128) * 256 && WRITE_LEN_L2M[v] == 15);
    } else if v == 128 {
        assert(WRITE_L2M[v] == 128 + (v + 1 - 128) * 256 && WRITE_LEN_L2M[v] == 15);
    } else if v == 129 {
        assert(WRITE_L2M[v] == 128 + (v + 1 - 128) * 256 && WRITE_LEN_L2M[v] == 15);
    } else if v == 130 {
        assert(WRITE_L2M[v] == 128 + (v + 1 - 128) * 256 && WRITE_LEN_L2M[v] == 15);
    } else if v == 131 {
        assert(WRITE_L2M[v] == 128 + (v + 1 - 128) * 256 && WRITE_LEN_L2M[v] == 15);
    } else if v == 132 {
        assert(WRITE_L2M[v] == 128 + (v + 1 - 128) * 256 && WRITE_LEN_L2M[v] == 15);
    } else if v == 133 {
        assert(WRITE_L2M[v] == 128 + (v + 1 - 128) * 256 && WRITE_LEN_L2M[v] == 15);
    } else if v == 134 {
        assert(WRITE_L2M[v] == 128 + (v + 1 - 128) * 256 && WRITE_LEN_L2M[v] == 15);
    } else if v == 135 {
        assert(WRITE_L2M[v] == 128 + (v + 1 - 128) * 256 && WRITE_LEN_L2M[v] == 15);
    } else if v == 136 {
        assert(WRITE_L2M[v] == 128 + (v + 1 - 128) * 256 && WRITE_LEN_L2M[v] == 15);
    } else if v == 137 {
        assert(WRITE_L2M[v] == 128 + (v + 1 - 128) * 256 && WRITE_LEN_L2M[v] == 15);
    } else if v == 138 {
        assert(WRITE_L2M[v] == 128 + (v + 1 - 128) * 256 && WRITE_LEN_L2M[v] == 15);
    } else if v == 139 {
        assert(WRITE_L2M[v] == 128 + (v + 1 - 128) * 256 && WRITE_LEN_L2M[v] == 15);
    } else if v == 140 {
        assert(WRITE_L2M[v] == 128 + (v + 1 - 128) * 256 && WRITE_LEN_L2M[v] == 15);
    } else if v == 141 {
        assert(WRITE_L2M[v] == 128 + (v + 1 - 128) * 256 && WRITE_LEN_L2M[v] == 15);
    } else if v == 142 {
        assert(WRITE_L2M[v] == 128 + (v + 1 - 128) * 256 && WRITE_LEN_L2M[v] == 15);
    } else if v == 143 {
        assert(WRITE_L2M[v] == 128 + (v + 1 - 128) * 256 && WRITE_LEN_L2M[v] == 15);
    } else if v == 144 {
        assert(WRITE_L2M[v] == 128 + (v + 1 - 128) * 256 && WRITE_LEN_L2M[v] == 15);
    } else if v == 145 {
        assert(WRITE_L2M[v] == 128 + (v + 1 - 128) * 256 && WRITE_LEN_L2M[v] == 15);
    } else if v == 146 {
        assert(WRITE_L2M[v] == 128 + (v + 1 - 128) * 256 && WRITE_LEN_L2M[v] == 15);
    } else if v == 147 {
        assert(WRITE_L2M[v] == 128 + (v + 1 - 128) * 256 && WRITE_LEN_L2M[v] == 15);
    } else if v == 148 {
        assert(WRITE_L2M[v] == 128 + (v + 1 - 128) * 256 && WRITE_LEN_L2M[v] == 15);
    } else if v == 149 {
        assert(WRITE_L2M[v] == 128 + (v + 1 - 128) * 256 && WRITE_LEN_L2M[v] == 15);
    } else if v == 150 {
        assert(WRITE_L2M[v] == 128 + (v + 1 - 128) * 256 && WRITE_LEN_L2M[v] == 15);
    } else if v == 151 {
        assert(WRITE_L2M[v] == 128 + (v + 1 - 128) * 256 && WRITE_LEN_L2M[v] == 15);
    } else if v == 152 {
        assert(WRITE_L2M[v] == 128 + (v + 1 - 128) * 256 && WRITE_LEN_L2M[v] == 15);
    } else if v == 153 {
        assert(WRITE_L2M[v] == 128 + (v + 1 - 128) * 256 && WRITE_LEN_L2M[v] == 15);
    } else if v == 154 {
        assert(WRITE_L2M[v] == 128 + (v + 1 - 128) * 256 && WRITE_LEN_L2M[v] == 15);
    } else if v == 155 {
        assert(WRITE_L2M[v] == 128 + (v + 1 - 128) * 256 && WRITE_LEN_L2M[v] == 15);
    } else if v == 156 {
        assert(WRITE_L2M[v] == 128 + (v + 1 - 128) * 256 && WRITE_LEN_L2M[v] == 15);
    } else if v == 157 {
        assert(WRITE_L2M[v] == 128 + (v + 1 - 128) * 256 && WRITE_LEN_L2M[v] == 15);
    } else if v == 158 {
        assert(WRITE_L2M[v] == 128 + (v + 1 - 128) * 256 && WRITE_LEN_L2M[v] == 15);
    } else if v == 159 {
        assert(WRITE_L2M[v] == 128 + (v + 1 - 128) * 256 && WRITE_LEN_L2M[v] == 15);
    } else if v == 160 {
        assert(WRITE_L2M[v] == 128 + (v + 1 - 128) * 256 && WRITE_LEN_L2M[v] == 15);
    } else if v == 161 {
        assert(WRITE_L2M[v] == 128 + (v + 1 - 128) * 256 && WRITE_LEN_L2M[v] == 15);
    } else if v == 162 {
        assert(WRITE_L2M[v] == 128 + (v + 1 - 128) * 256 && WRITE_LEN_L2M[v] == 15);
    } else if v == 163 {
        assert(WRITE_L2M[v] == 128 + (v + 1 - 128) * 256 && WRITE_LEN_L2M[v] == 15);
    } else if v == 164 {
        assert(WRITE_L2M[v] == 128 + (v + 1 - 128) * 256 && WRITE_LEN_L2M[v] == 15);
    } else if v == 165 {
        assert(WRITE_L2M[v] == 128 + (v + 1 - 128) * 256 && WRITE_LEN_L2M[v] == 15);
    } else if v == 166 {
        assert(WRITE_L2M[v] == 128 + (v + 1 - 128) * 256 && WRITE_LEN_L2M[v] == 15);
    } else if v == 167 {
        assert(WRITE_L2M[v] == 128 + (v + 1 - 128) * 256 && WRITE_LEN_L2M[v] == 15);
    } else if v == 168 {
        assert(WRITE_L2M[v] == 128 + (v + 1 - 128) * 256 && WRITE_LEN_L2M[v] == 15);
    } else if v == 169 {
        assert(WRITE_L2M[v] == 128 + (v + 1 - 128) * 256 && WRITE_LEN_L2M[v] == 15);
    } else if v == 170 {
        assert(WRITE_L2M[v] == 128 + (v + 1 - 128) * 256 && WRITE_LEN_L2M[v] == 15);
    } else if v == 171 {
        assert(WRITE_L2M[v] == 128 + (v + 1 - 128) * 256 && WRITE_LEN_L2M[v] == 15);
    } else if v == 172 {
        assert(WRITE_L2M[v] == 128 + (v + 1 - 128) * 256 && WRITE_LEN_L2M[v] == 15);
    } else if v == 173 {
        assert(WRITE_L2M[v] == 128 + (v + 1 - 128) * 256 && WRITE_LEN_L2M[v] == 15);
    } else if v == 174 {
        assert(WRITE_L2M[v] == 128 + (v + 1 - 128) * 256 && WRITE_LEN_L2M[v] == 15);
    } else if v == 175 {
        assert(WRITE_L2M[v] == 128 + (v + 1 - 128) * 256 && WRITE_LEN_L2M[v] == 15);
    } else if v == 176 {
        assert(WRITE_L2M[v] == 128 + (v + 1 - 128) * 256 && WRITE_LEN_L2M[v] == 15);
    } else if v == 177 {
        assert(WRITE_L2M[v] == 128 + (v + 1 - 128) * 256 && WRITE_LEN_L2M[v] == 15);
    } else if v == 178 {
        assert(WRITE_L2M[v] == 128 + (v + 1 - 128) * 256 && WRITE_LEN_L2M[v] == 15);
    } else if v == 179 {
        assert(WRITE_L2M[v] == 128 + (v + 1 - 128) * 256 && WRITE_LEN_L2M[v] == 15);
    } else if v == 180 {
        assert(WRITE_L2M[v] == 128 + (v + 1 - 128) * 256 && WRITE_LEN_L2M[v] == 15);
    } else if v == 181 {
        assert(WRITE_L2M[v] == 128 + (v + 1 - 128) * 256 && WRITE_LEN_L2M[v] == 15);
    } else if v == 182 {
        assert(WRITE_L2M[v] == 128 + (v + 1 - 128) * 256 && WRITE_LEN_L2M[v] == 15);
    } else if v == 183 {
        assert(WRITE_L2M[v] == 128 + (v + 1 - 128) * 256 && WRITE_LEN_L2M[v] == 15);
    } else if v == 184 {
        assert(WRITE_L2M[v] == 128 + (v + 1 - 128) * 256 && WRITE_LEN_L2M[v] == 15);
    } else if v == 185 {
        assert(WRITE_L2M[v] == 128 + (v + 1 - 128) * 256 && WRITE_LEN_L2M[v] == 15);
    } else if v == 186 {
        assert(WRITE_L2M[v] == 128 + (v + 1 - 128) * 256 && WRITE_LEN_L2M[v] == 15);
    } else if v == 187 {
        assert(WRITE_L2M[v] == 128 + (v + 1 - 128) * 256 && WRITE_LEN_L2M[v] == 15);
    } else if v == 188 {
        assert(WRITE_L2M[v] == 128 + (v + 1 - 128) * 256 && WRITE_LEN_L2M[v] == 15);
    } else if v == 189 {
        assert(WRITE_L2M[v] == 128 + (v + 1 - 128) * 256 && WRITE_LEN_L2M[v] == 15);
    } else if v == 190 {
        assert(WRITE_L2M[v] == 128 + (v + 1 - 128) * 256 && WRITE_LEN_L2M[v] == 15);
    } else if v == 191 {
        assert(WRITE_L2M[v] == 128 + (v + 1 - 128) * 256 && WRITE_LEN_L2M[v] == 15);
    } else if v == 192 {
        assert(WRITE_L2M[v] == 128 + (v + 1 - 128) * 256 && WRITE_LEN_L2M[v] == 15);
    } else if v == 193 {
        assert(WRITE_L2M[v] == 128 + (v + 1 - 128) * 256 && WRITE_LEN_L2M[v] == 15);
    } else if v == 194 {
        assert(WRITE_L2M[v] == 128 + (v + 1 - 128) * 256 && WRITE_LEN_L2M[v] == 15);
    } else if v == 195 {
        assert(WRITE_L2M[v] == 128 + (v + 1 - 128) * 256 && WRITE_LEN_L2M[v] == 15);
    } else if v == 196 {
        assert(WRITE_L2M[v] == 128 + (v + 1 - 128) * 256 && WRITE_LEN_L2M[v] == 15);
    } else if v == 197 {
        assert(WRITE_L2M[v] == 128 + (v + 1 - 128) * 256 && WRITE_LEN_L2M[v] == 15);
    } else if v == 198 {
        assert(WRITE_L2M[v] == 128 + (v + 1 - 128) * 256 && WRITE_LEN_L2M[v] == 15);
    } else if v == 199 {
        assert(WRITE_L2M[v] == 128 + (v + 1 - 128) * 256 && WRITE_LEN_L2M[v] == 15);
    } else if v == 200 {
        assert(WRITE_L2M[v] == 128 + (v + 1 - 128) * 256 && WRITE_LEN_L2M[v] == 15);
    } else if v == 201 {
        assert(WRITE_L2M[v] == 128 + (v + 1 - 128) * 256 && WRITE_LEN_L2M[v] == 15);
    } else if v == 202 {
        assert(WRITE_L2M[v] == 128 + (v + 1 - 128) * 256 && WRITE_LEN_L2M[v] == 15);
    } else if v == 203 {
        assert(WRITE_L2M[v] == 128 + (v + 1 - 128) * 256 && WRITE_LEN_L2M[v] == 15);
    } else if v == 204 {
        assert(WRITE_L2M[v] == 128 + (v + 1 - 128) * 256 && WRITE_LEN_L2M[v] == 15);
    } else if v == 205 {
        assert(WRITE_L2M[v] == 128 + (v + 1 - 128) * 256 && WRITE_LEN_L2M[v] == 15);
    } else if v == 206 {
        assert(WRITE_L2M[v] == 128 + (v + 1 - 128) * 256 && WRITE_LEN_L2M[v] == 15);
    } else if v == 207 {
        assert(WRITE_L2M[v] == 128 + (v + 1 - 128) * 256 && WRITE_LEN_L2M[v] == 15);
    } else if v == 208 {
        assert(WRITE_L2M[v] == 128 + (v + 1 - 128) * 256 && WRITE_LEN_L2M[v] == 15);
    } else if v == 209 {
        assert(WRITE_L2M[v] == 128 + (v + 1 - 128) * 256 && WRITE_LEN_L2M[v] == 15);
    } else if v == 210 {
        assert(WRITE_L2M[v] == 128 + (v + 1 - 128) * 256 && WRITE_LEN_L2M[v] == 15);
    } else if v == 211 {
        assert(WRITE_L2M[v] == 128 + (v + 1 - 128) * 256 && WRITE_LEN_L2M[v] == 15);
    } else if v == 212 {
        assert(WRITE_L2M[v] == 128 + (v + 1 - 128) * 256 && WRITE_LEN_L2M[v] == 15);
    } else if v == 213 {
        assert(WRITE_L2M[v] == 128 + (v + 1 - 128) * 256 && WRITE_LEN_L2M[v] == 15);
    } else if v == 214 {
        assert(WRITE_L2M[v] == 128 + (v + 1 - 128) * 256 && WRITE_LEN_L2M[v] == 15);
    } else if v == 215 {
        assert(WRITE_L2M[v] == 128 + (v + 1 - 128) * 256 && WRITE_LEN_L2M[v] == 15);
    } else if v == 216 {
        assert(WRITE_L2M[v] == 128 + (v + 1 - 128) * 256 && WRITE_LEN_L2M[v] == 15);
    } else if v == 217 {
        assert(WRITE_L2M[v] == 128 + (v + 1 - 128) * 256 && WRITE_LEN_L2M[v] == 15);
    } else if v == 218 {
        assert(WRITE_L2M[v] == 128 + (v + 1 - 128) * 256 && WRITE_LEN_L2M[v] == 15);
    } else if v == 219 {
        assert(WRITE_L2M[v] == 128 + (v + 1 - 128) * 256 && WRITE_LEN_L2M[v] == 15);
    } else if v == 220 {
        assert(WRITE_L2M[v] == 128 + (v + 1 - 128) * 256 && WRITE_LEN_L2M[v] == 15);
    } else if v == 221 {
        assert(WRITE_L2M[v] == 128 + (v + 1 - 128) * 256 && WRITE_LEN_L2M[v] == 15);
    } else if v == 222 {
        assert(WRITE_L2M[v] == 128 + (v + 1 - 128) * 256 && WRITE_LEN_L2M[v] == 15);
    } else if v == 223 {
        assert(WRITE_L2M[v] == 128 + (v + 1 - 128) * 256 && WRITE_LEN_L2M[v] == 15);
    } else if v == 224 {
        assert(WRITE_L2M[v] == 128 + (v + 1 - 128) * 256 && WRITE_LEN_L2M[v] == 15);
    } else if v == 225 {
        assert(WRITE_L2M[v] == 128 + (v + 1 - 128) * 256 && WRITE_LEN_L2M[v] == 15);
    } else if v == 226 {
        assert(WRITE_L2M[v] == 128 + (v + 1 - 128) * 256 && WRITE_LEN_L2M[v] == 15);
    } else if v == 227 {
        assert(WRITE_L2M[v] == 128 + (v + 1 - 128) * 256 && WRITE_LEN_L2M[v] == 15);
    } else if v == 228 {
        assert(WRITE_L2M[v] == 128 + (v + 1 - 128) * 256 && WRITE_LEN_L2M[v] == 15);
    } else if v == 229 {
        assert(WRITE_L2M[v] == 128 + (v + 1 - 128) * 256 && WRITE_LEN_L2M[v] == 15);
    } else if v == 230 {
        assert(WRITE_L2M[v] == 128 + (v + 1 - 128) * 256 && WRITE_LEN_L2M[v] == 15);
    } else if v == 231 {
        assert(WRITE_L2M[v] == 128 + (v + 1 - 128) * 256 && WRITE_LEN_L2M[v] == 15);
    } else if v == 232 {
        assert(WRITE_L2M[v] == 128 + (v + 1 - 128) * 256 && WRITE_LEN_L2M[v] == 15);
    } else if v == 233 {
        assert(WRITE_L2M[v] == 128 + (v + 1 - 128) * 256 && WRITE_LEN_L2M[v] == 15);
    } else if v == 234 {
        assert(WRITE_L2M[v] == 128 + (v + 1 - 128) * 256 && WRITE_LEN_L2M[v] == 15);
    } else if v == 235 {
        assert(WRITE_L2M[v] == 128 + (v + 1 - 128) * 256 && WRITE_LEN_L2M[v] == 15);
    } else if v == 236 {
        assert(WRITE_L2M[v] == 128 + (v + 1 - 128) * 256 && WRITE_LEN_L2M[v] == 15);
    } else if v == 237 {
        assert(WRITE_L2M[v] == 128 + (v + 1 - 128) * 256 && WRITE_LEN_L2M[v] == 15);
    } else if v == 238 {
        assert(WRITE_L2M[v] == 128 + (v + 1 - 128) * 256 && WRITE_LEN_L2M[v] == 15);
    } else if v == 239 {
        assert(WRITE_L2M[v] == 128 + (v + 1 - 128) * 256 && WRITE_LEN_L2M[v] == 15);
    } else if v == 240 {
        assert(WRITE_L2M[v] == 128 + (v + 1 - 128) * 256 && WRITE_LEN_L2M[v] == 15);
    } else if v == 241 {
        assert(WRITE_L2M[v] == 128 + (v + 1 - 128) * 256 && WRITE_LEN_L2M[v] == 15);
    } else if v == 242 {
        assert(WRITE_L2M[v] == 128 + (v + 1 - 128) * 256 && WRITE_LEN_L2M[v] == 15);
    } else if v == 243 {
        assert(WRITE_L2M[v] == 128 + (v + 1 - 128) * 256 && WRITE_LEN_L2M[v] == 15);
    } else if v == 244 {
        assert(WRITE_L2M[v] == 128 + (v + 1 - 128) * 256 && WRITE_LEN_L2M[v] == 15);
    } else if v == 245 {
        assert(WRITE_L2M[v] == 128 + (v + 1 - 128) * 256 && WRITE_LEN_L2M[v] == 15);
    } else if v == 246 {
        assert(WRITE_L2M[v] == 128 + (v + 1 - 128) * 256 && WRITE_LEN_L2M[v] == 15);
    } else if v == 247 {
        assert(WRITE_L2M[v] == 128 + (v + 1 - 128) * 256 && WRITE_LEN_L2M[v] == 15);
    } else if v == 248 {
        assert(WRITE_L2M[v] == 128 + (v + 1 - 128) * 256 && WRITE_LEN_L2M[v] == 15);
    } else if v == 249 {
        assert(WRITE_L2M[v] == 128 + (v + 1 - 128) * 256 && WRITE_LEN_L2M[v] == 15);
    } else if v == 250 {
        assert(WRITE_L2M[v] == 128 + (v + 1 - 128) * 256 && WRITE_LEN_L2M[v] == 15);
    } else if v == 251 {
        assert(WRITE_L2M[v] == 128 + (v + 1 - 128) * 256 && WRITE_LEN_L2M[v] == 15);
    } else if v == 252 {
        assert(WRITE_L2M[v] == 128 + (v + 1 - 128) * 256 && WRITE_LEN_L2M[v] == 15);
    } else if v == 253 {
        assert(WRITE_L2M[v] == 128 + (v + 1 - 128) * 256 && WRITE_LEN_L2M[v] == 15);
    } else if v == 254 {
        assert(WRITE_L2M[v] == 128 + (v + 1 - 128) * 256 && WRITE_LEN_L2M[v] == 15);
    }
}

proof fn lemma_write_group_l2m_8(v: int)
    requires
        255 <= v < 256,
    ensures
        WRITE_L2M[v] == 256 + (v + 1 - 256) * 512,
        WRITE_LEN_L2M[v] == 17,
{
    if v == 255 {
        assert(WRITE_L2M[v] == 256 + (v + 1 - 256) * 512 && WRITE_LEN_L2M[v] == 17);
    }
}

/// Every entry of the length table is the length of the code of its index.
pub proof fn lemma_len_table(v: int)
    requires
        0 <= v <= WRITE_MAX,
    ensures
        LEN[v] == gamma_code(v as nat, true).len(),
{
    lemma_gamma_len(v as nat, true);
    lemma2_to64();
    if 0 <= v < 1 {
        lemma_log2_unique((v + 1) as nat, 0);
        lemma_len_group_0(v);
    }
    if 1 <= v < 3 {
        lemma_log2_unique((v + 1) as nat, 1);
        lemma_len_group_1(v);
    }
    if 3 <= v < 7 {
        lemma_log2_unique((v + 1) as nat, 2);
        lemma_len_group_2(v);
    }
    if 7 <= v < 15 {
        lemma_log2_unique((v + 1) as nat, 3);
        lemma_len_group_3(v);
    }
    if 15 <= v < 31 {
        lemma_log2_unique((v + 1) as nat, 4);
        lemma_len_group_4(v);
    }
    if 31 <= v < 63 {
        lemma_log2_unique((v + 1) as nat, 5);
        lemma_len_group_5(v);
    }
    if 63 <= v < 127 {
        lemma_log2_unique((v + 1) as nat, 6);
        lemma_len_group_6(v);
    }
    if 127 <= v < 255 {
        lemma_log2_unique((v + 1) as nat, 7);
        lemma_len_group_7(v);
    }
    if 255 <= v < 256 {
        lemma_log2_unique((v + 1) as nat, 8);
        lemma_len_group_8(v);
    }
}

proof fn lemma_len_group_0(v: int)
    requires
        0 <= v < 1,
    ensures
        LEN[v] == 1,
{
    if v == 0 {
        assert(LEN[v] == 1);
    }
}

proof fn lemma_len_group_1(v: int)
    requires
        1 <= v < 3,
    ensures
        LEN[v] == 3,
{
    if v == 1 {
        assert(LEN[v] == 3);
    } else if v == 2 {
        assert(LEN[v] == 3);
    }
}

proof fn lemma_len_group_2(v: int)
    requires
        3 <= v < 7,
    ensures
        LEN[v] == 5,
{
    if v == 3 {
        assert(LEN[v] == 5);
    } else if v == 4 {
        assert(LEN[v] == 5);
    } else if v == 5 {
        assert(LEN[v] == 5);
    } else if v == 6 {
        assert(LEN[v] == 5);
    }
}

proof fn lemma_len_group_3(v: int)
    requires
        7 <= v < 15,
    ensures
        LEN[v] == 7,
{
    if v == 7 {
        assert(LEN[v] == 7);
    } else if v == 8 {
        assert(LEN[v] == 7);
    } else if v == 9 {
        assert(LEN[v] == 7);
    } else if v == 10 {
        assert(LEN[v] == 7);
    } else if v == 11 {
        assert(LEN[v] == 7);
    } else if v == 12 {
        assert(LEN[v] == 7);
    } else if v == 13 {
        assert(LEN[v] == 7);
    } else if v == 14 {
        assert(LEN[v] == 7);
    }
}

proof fn lemma_len_group_4(v: int)
    requires
        15 <= v < 31,
    ensures
        LEN[v] == 9,
{
    if v == 15 {
        assert(LEN[v] == 9);
    } else if v == 16 {
        assert(LEN[v] == 9);
    } else if v == 17 {
        assert(LEN[v] == 9);
    } else if v == 18 {
        assert(LEN[v] == 9);
    } else if v == 19 {
        assert(LEN[v] == 9);
    } else if v == 20 {
        assert(LEN[v] == 9);
    } else if v == 21 {
        assert(LEN[v] == 9);
    } else if v == 22 {
        assert(LEN[v] == 9);
    } else if v == 23 {
        assert(LEN[v] == 9);
    } else if v == 24 {
        assert(LEN[v] == 9);
    } else if v == 25 {
        assert(LEN[v] == 9);
    } else if v == 26 {
        assert(LEN[v] == 9);
    } else if v == 27 {
        assert(LEN[v] == 9);
    } else if v == 28 {
        assert(LEN[v] == 9);
    } else if v == 29 {
        assert(LEN[v] == 9);
    } else if v == 30 {
        assert(LEN[v] == 9);
    }
}

proof fn lemma_len_group_5(v: int)
    requires
        31 <= v < 63,
    ensures
        LEN[v] == 11,
{
    if v == 31 {
        assert(LEN[v] == 11);
    } else if v == 32 {
        assert(LEN[v] == 11);
    } else if v == 33 {
        assert(LEN[v] == 11);
    } else if v == 34 {
        assert(LEN[v] == 11);
    } else if v == 35 {
        assert(LEN[v] == 11);
    } else if v == 36 {
        assert(LEN[v] == 11);
    } else if v == 37 {
        assert(LEN[v] == 11);
    } else if v == 38 {
        assert(LEN[v] == 11);
    } else if v == 39 {
        assert(LEN[v] == 11);
    } else if v == 40 {
        assert(LEN[v] == 11);
    } else if v == 41 {
        assert(LEN[v] == 11);
    } else if v == 42 {
        assert(LEN[v] == 11);
    } else if v == 43 {
        assert(LEN[v] == 11);
    } else if v == 44 {
        assert(LEN[v] == 11);
    } else if v == 45 {
        assert(LEN[v] == 11);
    } else if v == 46 {
        assert(LEN[v] == 11);
    } else if v == 47 {
        assert(LEN[v] == 11);
    } else if v == 48 {
        assert(LEN[v] == 11);
    } else if v == 49 {
        assert(LEN[v] == 11);
    } else if v == 50 {
        assert(LEN[v] == 11);
    } else if v == 51 {
        assert(LEN[v] == 11);
    } else if v == 52 {
        assert(LEN[v] == 11);
    } else if v == 53 {
        assert(LEN[v] == 11);
    } else if v == 54 {
        assert(LEN[v] == 11);
    } else if v == 55 {
        assert(LEN[v] == 11);
    } else if v == 56 {
        assert(LEN[v] == 11);
    } else if v == 57 {
        assert(LEN[v] == 11);
    } else if v == 58 {
        assert(LEN[v] == 11);
    } else if v == 59 {
        assert(LEN[v] == 11);
    } else if v == 60 {
        assert(LEN[v] == 11);
    } else if v == 61 {
        assert(LEN[v] == 11);
    } else if v == 62 {
        assert(LEN[v] == 11);
    }
}

proof fn lemma_len_group_6(v: int)
    requires
        63 <= v < 127,
    ensures
        LEN[v] == 13,
{
    if v == 63 {
        assert(LEN[v] == 13);
    } else if v == 64 {
        assert(LEN[v] == 13);
    } else if v == 65 {
        assert(LEN[v] == 13);
    } else if v == 66 {
        assert(LEN[v] == 13);
    } else if v == 67 {
        assert(LEN[v] == 13);
    } else if v == 68 {
        assert(LEN[v] == 13);
    } else if v == 69 {
        assert(LEN[v] == 13);
    } else if v == 70 {
        assert(LEN[v] == 13);
    } else if v == 71 {
        assert(LEN[v] == 13);
    } else if v == 72 {
        assert(LEN[v] == 13);
    } else if v == 73 {
        assert(LEN[v] == 13);
    } else if v == 74 {
        assert(LEN[v] == 13);
    } else if v == 75 {
        assert(LEN[v] == 13);
    } else if v == 76 {
        assert(LEN[v] == 13);
    } else if v == 77 {
        assert(LEN[v] == 13);
    } else if v == 78 {
        assert(LEN[v] == 13);
    } else if v == 79 {
        assert(LEN[v] == 13);
    } else if v == 80 {
        assert(LEN[v] == 13);
    } else if v == 81 {
        assert(LEN[v] == 13);
    } else if v == 82 {
        assert(LEN[v] == 13);
    } else if v == 83 {
        assert(LEN[v] == 13);
    } else if v == 84 {
        assert(LEN[v] == 13);
    } else if v == 85 {
        assert(LEN[v] == 13);
    } else if v == 86 {
        assert(LEN[v] == 13);
    } else if v == 87 {
        assert(LEN[v] == 13);
    } else if v == 88 {
        assert(LEN[v] == 13);
    } else if v == 89 {
        assert(LEN[v] == 13);
    } else if v == 90 {
        assert(LEN[v] == 13);
    } else if v == 91 {
        assert(LEN[v] == 13);
    } else if v == 92 {
        assert(LEN[v] == 13);
    } else if v == 93 {
        assert(LEN[v] == 13);
    } else if v == 94 {
        assert(LEN[v] == 13);
    } else if v == 95 {
        assert(LEN[v] == 13);
    } else if v == 96 {
        assert(LEN[v] == 13);
    } else if v == 97 {
        assert(LEN[v] == 13);
    } else if v == 98 {
        assert(LEN[v] == 13);
    } else if v == 99 {
        assert(LEN[v] == 13);
    } else if v == 100 {
        assert(LEN[v] == 13);
    } else if v == 101 {
        assert(LEN[v] == 13);
    } else if v == 102 {
        assert(LEN[v] == 13);
    } else if v == 103 {
        assert(LEN[v] == 13);
    } else if v == 104 {
        assert(LEN[v] == 13);
    } else if v == 105 {
        assert(LEN[v] == 13);
    } else if v == 106 {
        assert(LEN[v] == 13);
    } else if v == 107 {
        assert(LEN[v] == 13);
    } else if v == 108 {
        assert(LEN[v] == 13);
    } else if v == 109 {
        assert(LEN[v] == 13);
    } else if v == 110 {
        assert(LEN[v] == 13);
    } else if v == 111 {
        assert(LEN[v] == 13);
    } else if v == 112 {
        assert(LEN[v] == 13);
    } else if v == 113 {
        assert(LEN[v] == 13);
    } else if v == 114 {
        assert(LEN[v] == 13);
    } else if v == 115 {
        assert(LEN[v] == 13);
    } else if v == 116 {
        assert(LEN[v] == 13);
    } else if v == 117 {
        assert(LEN[v] == 13);
    } else if v == 118 {
        assert(LEN[v] == 13);
    } else if v == 119 {
        assert(LEN[v] == 13);
    } else if v == 120 {
        assert(LEN[v] == 13);
    } else if v == 121 {
        assert(LEN[v] == 13);
    } else if v == 122 {
        assert(LEN[v] == 13);
    } else if v == 123 {
        assert(LEN[v] == 13);
    } else if v == 124 {
        assert(LEN[v] == 13);
    } else if v == 125 {
        assert(LEN[v] == 13);
    } else if v == 126 {
        assert(LEN[v] == 13);
    }
}

proof fn lemma_len_group_7(v: int)
    requires
        127 <= v < 255,
    ensures
        LEN[v] == 15,
{
    if v == 127 {
        assert(LEN[v] == 15);
    } else if v == 128 {
        assert(LEN[v] == 15);
    } else if v == 129 {
        assert(LEN[v] == 15);
    } else if v == 130 {
        assert(LEN[v] == 15);
    } else if v == 131 {
        assert(LEN[v] == 15);
    } else if v == 132 {
        assert(LEN[v] == 15);
    } else if v == 133 {
        assert(LEN[v] == 15);
    } else if v == 134 {
        assert(LEN[v] == 15);
    } else if v == 135 {
        assert(LEN[v] == 15);
    } else if v == 136 {
        assert(LEN[v] == 15);
    } else if v == 137 {
        assert(LEN[v] == 15);
    } else if v == 138 {
        assert(LEN[v] == 15);
    } else if v == 139 {
        assert(LEN[v] == 15);
    } else if v == 140 {
        assert(LEN[v] == 15);
    } else if v == 141 {
        assert(LEN[v] == 15);
    } else if v == 142 {
        assert(LEN[v] == 15);
    } else if v == 143 {
        assert(LEN[v] == 15);
    } else if v == 144 {
        assert(LEN[v] == 15);
    } else if v == 145 {
        assert(LEN[v] == 15);
    } else if v == 146 {
        assert(LEN[v] == 15);
    } else if v == 147 {
        assert(LEN[v] == 15);
    } else if v == 148 {
        assert(LEN[v] == 15);
    } else if v == 149 {
        assert(LEN[v] == 15);
    } else if v == 150 {
        assert(LEN[v] == 15);
    } else if v == 151 {
        assert(LEN[v] == 15);
    } else if v == 152 {
        assert(LEN[v] == 15);
    } else if v == 153 {
        assert(LEN[v] == 15);
    } else if v == 154 {
        assert(LEN[v] == 15);
    } else if v == 155 {
        assert(LEN[v] == 15);
    } else if v == 156 {
        assert(LEN[v] == 15);
    } else if v == 157 {
        assert(LEN[v] == 15);
    } else if v == 158 {
        assert(LEN[v] == 15);
    } else if v == 159 {
        assert(LEN[v] == 15);
    } else if v == 160 {
        assert(LEN[v] == 15);
    } else if v == 161 {
        assert(LEN[v] == 15);
    } else if v == 162 {
        assert(LEN[v] == 15);
    } else if v == 163 {
        assert(LEN[v] == 15);
    } else if v == 164 {
        assert(LEN[v] == 15);
    } else if v == 165 {
        assert(LEN[v] == 15);
    } else if v == 166 {
        assert(LEN[v] == 15);
    } else if v == 167 {
        assert(LEN[v] == 15);
    } else if v == 168 {
        assert(LEN[v] == 15);
    } else if v == 169 {
        assert(LEN[v] == 15);
    } else if v == 170 {
        assert(LEN[v] == 15);
    } else if v == 171 {
        assert(LEN[v] == 15);
    } else if v == 172 {
        assert(LEN[v] == 15);
    } else if v == 173 {
        assert(LEN[v] == 15);
    } else if v == 174 {
        assert(LEN[v] == 15);
    } else if v == 175 {
        assert(LEN[v] == 15);
    } else if v == 176 {
        assert(LEN[v] == 15);
    } else if v == 177 {
        assert(LEN[v] == 15);
    } else if v == 178 {
        assert(LEN[v] == 15);
    } else if v == 179 {
        assert(LEN[v] == 15);
    } else if v == 180 {
        assert(LEN[v] == 15);
    } else if v == 181 {
        assert(LEN[v] == 15);
    } else if v == 182 {
        assert(LEN[v] == 15);
    } else if v == 183 {
        assert(LEN[v] == 15);
    } else if v == 184 {
        assert(LEN[v] == 15);
    } else if v == 185 {
        assert(LEN[v] == 15);
    } else if v == 186 {
        assert(LEN[v] == 15);
    } else if v == 187 {
        assert(LEN[v] == 15);
    } else if v == 188 {
        assert(LEN[v] == 15);
    } else if v == 189 {
        assert(LEN[v] == 15);
    } else if v == 190 {
        assert(LEN[v] == 15);
    } else if v == 191 {
        assert(LEN[v] == 15);
    } else if v == 192 {
        assert(LEN[v] == 15);
    } else if v == 193 {
        assert(LEN[v] == 15);
    } else if v == 194 {
        assert(LEN[v] == 15);
    } else if v == 195 {
        assert(LEN[v] == 15);
    } else if v == 196 {
        assert(LEN[v] == 15);
    } else if v == 197 {
        assert(LEN[v] == 15);
    } else if v == 198 {
        assert(LEN[v] == 15);
    } else if v == 199 {
        assert(LEN[v] == 15);
    } else if v == 200 {
        assert(LEN[v] == 15);
    } else if v == 201 {
        assert(LEN[v] == 15);
    } else if v == 202 {
        assert(LEN[v] == 15);
    } else if v == 203 {
        assert(LEN[v] == 15);
    } else if v == 204 {
        assert(LEN[v] == 15);
    } else if v == 205 {
        assert(LEN[v] == 15);
    } else if v == 206 {
        assert(LEN[v] == 15);
    } else if v == 207 {
        assert(LEN[v] == 15);
    } else if v == 208 {
        assert(LEN[v] == 15);
    } else if v == 209 {
        assert(LEN[v] == 15);
    } else if v == 210 {
        assert(LEN[v] == 15);
    } else if v == 211 {
        assert(LEN[v] == 15);
    } else if v == 212 {
        assert(LEN[v] == 15);
    } else if v == 213 {
        assert(LEN[v] == 15);
    } else if v == 214 {
        assert(LEN[v] == 15);
    } else if v == 215 {
        assert(LEN[v] == 15);
    } else if v == 216 {
        assert(LEN[v] == 15);
    } else if v == 217 {
        assert(LEN[v] == 15);
    } else if v == 218 {
        assert(LEN[v] == 15);
    } else if v == 219 {
        assert(LEN[v] == 15);
    } else if v == 220 {
        assert(LEN[v] == 15);
    } else if v == 221 {
        assert(LEN[v] == 15);
    } else if v == 222 {
        assert(LEN[v] == 15);
    } else if v == 223 {
        assert(LEN[v] == 15);
    } else if v == 224 {
        assert(LEN[v] == 15);
    } else if v == 225 {
        assert(LEN[v] == 15);
    } else if v == 226 {
        assert(LEN[v] == 15);
    } else if v == 227 {
        assert(LEN[v] == 15);
    } else if v == 228 {
        assert(LEN[v] == 15);
    } else if v == 229 {
        assert(LEN[v] == 15);
    } else if v == 230 {
        assert(LEN[v] == 15);
    } else if v == 231 {
        assert(LEN[v] == 15);
    } else if v == 232 {
        assert(LEN[v] == 15);
    } else if v == 233 {
        assert(LEN[v] == 15);
    } else if v == 234 {
        assert(LEN[v] == 15);
    } else if v == 235 {
        assert(LEN[v] == 15);
    } else if v == 236 {
        assert(LEN[v] == 15);
    } else if v == 237 {
        assert(LEN[v] == 15);
    } else if v == 238 {
        assert(LEN[v] == 15);
    } else if v == 239 {
        assert(LEN[v] == 15);
    } else if v == 240 {
        assert(LEN[v] == 15);
    } else if v == 241 {
        assert(LEN[v] == 15);
    } else if v == 242 {
        assert(LEN[v] == 15);
    } else if v == 243 {
        assert(LEN[v] == 15);
    } else if v == 244 {
        assert(LEN[v] == 15);
    } else if v == 245 {
        assert(LEN[v] == 15);
    } else if v == 246 {
        assert(LEN[v] == 15);
    } else if v == 247 {
        assert(LEN[v] == 15);
    } else if v == 248 {
        assert(LEN[v] == 15);
    } else if v == 249 {
        assert(LEN[v] == 15);
    } else if v == 250 {
        assert(LEN[v] == 15);
    } else if v == 251 {
        assert(LEN[v] == 15);
    } else if v == 252 {
        assert(LEN[v] == 15);
    } else if v == 253 {
        assert(LEN[v] == 15);
    } else if v == 254 {
        assert(LEN[v] == 15);
    }
}

proof fn lemma_len_group_8(v: int)
    requires
        255 <= v < 256,
    ensures
        LEN[v] == 17,
{
    if v == 255 {
        assert(LEN[v] == 17);
    }
}

/// The table entry for a window of `READ_BITS` bits: the value of the unary
/// code that starts it and that code's length, or `None` where the window
/// holds no whole code.
pub fn read_entry(window: u32, m2l: bool) -> (r: Option<(u64, usize)>)
    requires
        window < 32,
    ensures
        r is Some ==> r->Some_0.0 < 256,
        r is Some ==> r->Some_0.1 <= 5 && gamma_code(r->Some_0.0 as nat, m2l).len() == r->Some_0.1 && field(window as nat, 5, m2l).subrange(
            0,
            r->Some_0.1 as int,
        ) == gamma_code(r->Some_0.0 as nat, m2l),
        r is None <==> !starts_code(field(window as nat, 5, m2l)),
{
    let i = window as usize;
    let (value, len) = if m2l {
        (READ_M2L[i], READ_LEN_M2L[i])
    } else {
        (READ_L2M[i], READ_LEN_L2M[i])
    };
    proof {
        if m2l {
            lemma_read_table_m2l(i as int);
        } else {
            lemma_read_table_l2m(i as int);
        }
    }
    if len == MISSING_VALUE_LEN {
        None
    } else {
        proof {
            if m2l {
                lemma_read_table_m2l(i as int);
            } else {
                lemma_read_table_l2m(i as int);
            }
        }
        Some((value as u64, len as usize))
    }
}

/// The table entry for `value`: its γ code, right-justified, and the
/// code's length, or `None` where `value` is beyond the table.
pub fn write_entry(value: u64, m2l: bool) -> (r: Option<(u64, usize)>)
    ensures
        r is None <==> value > WRITE_MAX,
        r is Some ==> r->Some_0.1 <= 64 && r->Some_0.0 < pow2(
            r->Some_0.1 as nat,
        ) && field(r->Some_0.0 as nat, r->Some_0.1 as nat, m2l) == gamma_code(value as nat, m2l),
{
    if value <= WRITE_MAX {
        let i = value as usize;
        let (bits, len) = if m2l {
            (WRITE_M2L[i], WRITE_LEN_M2L[i])
        } else {
            (WRITE_L2M[i], WRITE_LEN_L2M[i])
        };
        proof {
            if m2l {
                lemma_write_table_m2l(i as int);
            } else {
                lemma_write_table_l2m(i as int);
            }
        }
        Some((bits as u64, len as usize))
    } else {
        None
    }
}
/// Decodes a γ code through the read table where the next window holds a
/// whole one; otherwise returns `None` and leaves the position alone.
pub fn read_table<BO: BitOrder, B: BitRead<BO>>(backend: &mut B) -> (r: Result<Option<u64>, BitStreamError>)
    requires
        old(backend).ready(),
    ensures
        final(backend).ready(),
        final(backend).stream() == old(backend).stream(),
        r is Ok,
        r == Ok::<Option<u64>, BitStreamError>(None) ==> final(backend).position() == old(backend).position(),
        r is Ok && r->Ok_0 is Some ==> code_at(
            old(backend).stream(),
            old(backend).position() as int,
            gamma_code(r->Ok_0->Some_0 as nat, BO::spec_m2l()),
        ) && final(backend).position() == old(backend).position() + gamma_code(
            r->Ok_0->Some_0 as nat,
            BO::spec_m2l(),
        ).len(),
        r is Ok && r->Ok_0 is Some ==> r->Ok_0->Some_0 < 256,
        old(backend).position() + READ_BITS <= old(backend).stream().len() && code_in_window(
            old(backend).stream(),
            old(backend).position() as int,
            BO::spec_m2l(),
        ) ==> r->Ok_0 is Some,
        r->Ok_0 is Some <==> old(backend).position() + READ_BITS <= old(backend).stream().len()
            && starts_code(
            old(backend).stream().subrange(
                old(backend).position() as int,
                old(backend).position() + READ_BITS,
            ),
        ),
        r->Ok_0 is Some ==> gamma_code(r->Ok_0->Some_0 as nat, BO::spec_m2l()).len() <= READ_BITS,
{
    let ghost s = backend.stream();
    let ghost p = backend.position() as int;
    if let Ok(idx) = backend.peek_bits(READ_BITS) {
        proof {
            lemma2_to64();
            if code_in_window(s, p, BO::spec_m2l()) {
                lemma_code_in_window(s, p, BO::spec_m2l());
            }
        }
        if let Some((value, len)) = read_entry(idx, BO::is_m2l()) {
            proof {
                backend.lemma_ready();
                assert(s.subrange(p, p + len) =~= s.subrange(p, p + 5).subrange(0, len as int));
            }
            let _ = backend.skip_bits_after_table_lookup(len);
            return Ok(Some(value));
        }
    }
    Ok(None)
}

/// Writes the γ code of `value` through the write table and returns `true`,
/// where `value` is in the table; otherwise returns `false` and writes
/// nothing.
pub fn write_table<BO: BitOrder, B: BitWrite<BO>>(backend: &mut B, value: u64) -> (r: Result<bool, BitStreamError>)
    requires
        old(backend).ready(),
    ensures
        final(backend).ready(),
        r == Ok::<bool, BitStreamError>(true) ==> final(backend).written_bits() == old(backend).written_bits()
            + gamma_code(value as nat, BO::spec_m2l()),
        r == Ok::<bool, BitStreamError>(false) <==> value > WRITE_MAX,
        final(backend).infallible() == old(backend).infallible(),
        old(backend).infallible() && value <= WRITE_MAX ==> r == Ok::<bool, BitStreamError>(true),
        r == Ok::<bool, BitStreamError>(false) ==> *final(backend) == *old(backend),
        r is Err ==> r == Err::<bool, BitStreamError>(BitStreamError::BackendIo),
        value <= WRITE_MAX && old(backend).pending_bits() + gamma_code(value as nat, BO::spec_m2l()).len() < 128 ==> r is Ok,
{
    match write_entry(value, BO::is_m2l()) {
        Some((bits, len)) => {
            proof {
                crate::bits::lemma_field_len(bits as nat, len as nat, BO::spec_m2l());
            }
            match backend.write_bits(bits, len) {
                Ok(()) => Ok(true),
                Err(e) => Err(e),
            }
        },
        None => Ok(false),
    }
}

/// The table read of `read_table`, for L2M streams.
pub fn read_table_l2m<B: BitRead<L2M>>(backend: &mut B) -> (r: Result<Option<u64>, BitStreamError>)
    requires
        old(backend).ready(),
    ensures
        final(backend).ready(),
        final(backend).stream() == old(backend).stream(),
        r is Ok,
        r == Ok::<Option<u64>, BitStreamError>(None) ==> final(backend).position() == old(backend).position(),
        r is Ok && r->Ok_0 is Some ==> code_at(
            old(backend).stream(),
            old(backend).position() as int,
            gamma_code(r->Ok_0->Some_0 as nat, false),
        ) && final(backend).position() == old(backend).position() + gamma_code(
            r->Ok_0->Some_0 as nat,
            false,
        ).len(),
        old(backend).position() + READ_BITS <= old(backend).stream().len() && code_in_window(
            old(backend).stream(),
            old(backend).position() as int,
            false,
        ) ==> r->Ok_0 is Some,
        r->Ok_0 is Some <==> old(backend).position() + READ_BITS <= old(backend).stream().len()
            && starts_code(
            old(backend).stream().subrange(
                old(backend).position() as int,
                old(backend).position() + READ_BITS,
            ),
        ),
        r->Ok_0 is Some ==> gamma_code(r->Ok_0->Some_0 as nat, false).len() <= READ_BITS,
{
    read_table::<L2M, B>(backend)
}

/// The table write of `write_table`, for L2M streams.
pub fn write_table_l2m<B: BitWrite<L2M>>(backend: &mut B, value: u64) -> (r: Result<bool, BitStreamError>)
    requires
        old(backend).ready(),
    ensures
        final(backend).ready(),
        r == Ok::<bool, BitStreamError>(true) ==> final(backend).written_bits() == old(backend).written_bits()
            + gamma_code(value as nat, false),
        r == Ok::<bool, BitStreamError>(false) <==> value > WRITE_MAX,
        final(backend).infallible() == old(backend).infallible(),
        old(backend).infallible() && value <= WRITE_MAX ==> r == Ok::<bool, BitStreamError>(true),
        r == Ok::<bool, BitStreamError>(false) ==> *final(backend) == *old(backend),
        r is Err ==> r == Err::<bool, BitStreamError>(BitStreamError::BackendIo),
        value <= WRITE_MAX && old(backend).pending_bits() + gamma_code(value as nat, false).len() < 128
            ==> r is Ok,
{
    write_table::<L2M, B>(backend, value)
}

/// The table read of `read_table`, for M2L streams.
pub fn read_table_m2l<B: BitRead<M2L>>(backend: &mut B) -> (r: Result<Option<u64>, BitStreamError>)
    requires
        old(backend).ready(),
    ensures
        final(backend).ready(),
        final(backend).stream() == old(backend).stream(),
        r is Ok,
        r == Ok::<Option<u64>, BitStreamError>(None) ==> final(backend).position() == old(backend).position(),
        r is Ok && r->Ok_0 is Some ==> code_at(
            old(backend).stream(),
            old(backend).position() as int,
            gamma_code(r->Ok_0->Some_0 as nat, true),
        ) && final(backend).position() == old(backend).position() + gamma_code(
            r->Ok_0->Some_0 as nat,
            true,
        ).len(),
        old(backend).position() + READ_BITS <= old(backend).stream().len() && code_in_window(
            old(backend).stream(),
            old(backend).position() as int,
            true,
        ) ==> r->Ok_0 is Some,
        r->Ok_0 is Some <==> old(backend).position() + READ_BITS <= old(backend).stream().len()
            && starts_code(
            old(backend).stream().subrange(
                old(backend).position() as int,
                old(backend).position() + READ_BITS,
            ),
        ),
        r->Ok_0 is Some ==> gamma_code(r->Ok_0->Some_0 as nat, true).len() <= READ_BITS,
{
    read_table::<M2L, B>(backend)
}

/// The table write of `write_table`, for M2L streams.
pub fn write_table_m2l<B: BitWrite<M2L>>(backend: &mut B, value: u64) -> (r: Result<bool, BitStreamError>)
    requires
        old(backend).ready(),
    ensures
        final(backend).ready(),
        r == Ok::<bool, BitStreamError>(true) ==> final(backend).written_bits() == old(backend).written_bits()
            + gamma_code(value as nat, true),
        r == Ok::<bool, BitStreamError>(false) <==> value > WRITE_MAX,
        final(backend).infallible() == old(backend).infallible(),
        old(backend).infallible() && value <= WRITE_MAX ==> r == Ok::<bool, BitStreamError>(true),
        r == Ok::<bool, BitStreamError>(false) ==> *final(backend) == *old(backend),
        r is Err ==> r == Err::<bool, BitStreamError>(BitStreamError::BackendIo),
        value <= WRITE_MAX && old(backend).pending_bits() + gamma_code(value as nat, true).len() < 128
            ==> r is Ok,
{
    write_table::<M2L, B>(backend, value)
}

} // verus!
