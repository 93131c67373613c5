//! Precomputed tables for δ codes: the decoding of every 5-bit window,
//! and the encoding of the smallest values, in both bit orders.
use crate::bits::{bits_lsb, bits_msb, field};
use crate::codes::{code_at, delta_code, delta_l2m_value, delta_m2l_value, lemma_delta_closed_form, lemma_delta_values_at, lemma_gamma_len, lemma_log2_unique, log2};
use crate::traits::{BitOrder, BitRead, BitStreamError, BitWrite, L2M, M2L};
use vstd::arithmetic::power2::{lemma2_to64, lemma2_to64_rest, pow2};
use vstd::prelude::*;

verus! {

/// How many bits the read tables look at.
pub const READ_BITS: usize = 5;

/// The length given to a window that holds no whole code.
pub const MISSING_VALUE_LEN: u8 = 255;

/// The largest value that the write tables encode.
pub const WRITE_MAX: u64 = 255;

/// Whether a window of bits starts with a whole δ code: a one among its
/// first two bits, so that the code takes at most five.
pub open spec fn starts_code(f: Seq<bool>) -> bool {
    f[0] || f[1]
}

/// Whether a δ code of at most `READ_BITS` bits starts at `p` in `s`.
pub open spec fn code_in_window(s: Seq<bool>, p: int, m2l: bool) -> bool {
    exists|v: nat| #[trigger] delta_code(v, m2l).len() <= 5 && code_at(s, p, delta_code(v, m2l))
}

proof fn lemma_code_in_window(s: Seq<bool>, p: int, m2l: bool)
    requires
        code_in_window(s, p, m2l),
        0 <= p,
        p + 5 <= s.len(),
    ensures
        starts_code(s.subrange(p, p + 5)),
{
    let v = choose|v: nat| #[trigger] delta_code(v, m2l).len() <= 5 && code_at(s, p, delta_code(v, m2l));
    let l = log2(v + 1);
    crate::codes::lemma_delta_parts(s, p, v, m2l);
    crate::codes::lemma_gamma_parts(s, p, l, m2l);
    lemma_gamma_len(v, m2l);
    lemma_gamma_len(l, m2l);
    let m = log2(l + 1);
    crate::codes::lemma_log2_bounds(l + 1);
    if m >= 2 {
        lemma2_to64();
        if m > 2 {
            vstd::arithmetic::power2::lemma_pow2_strictly_increases(2, m);
        }
    }
    assert(s.subrange(p, p + m + 1)[m as int] == s[p + m]);
    assert(s.subrange(p, p + 5)[m as int] == s[p + m]);
}

/// Decoded value for each window, M2L.
pub const READ_M2L: [u8; 32] = [
    0, 0, 0, 0, 0, 0, 0, 0, 1, 1, 2, 2, 3, 4, 5, 6, 0, 0, 0, 0, 0, 0, 0, 0, 0, 0, 0, 0, 0, 0, 0, 0,
];

/// Code length for each window, M2L.
pub const READ_LEN_M2L: [u8; 32] = [
    255, 255, 255, 255, 255, 255, 255, 255, 4, 4, 4, 4, 5, 5, 5, 5, 1, 1, 1, 1, 1, 1, 1, 1, 1, 1,
    1, 1, 1, 1, 1, 1,
];

/// Decoded value for each window, L2M.
pub const READ_L2M: [u8; 32] = [
    0, 0, 1, 0, 0, 0, 3, 0, 0, 0, 2, 0, 0, 0, 4, 0, 0, 0, 1, 0, 0, 0, 5, 0, 0, 0, 2, 0, 0, 0, 6, 0,
];

/// Code length for each window, L2M.
pub const READ_LEN_L2M: [u8; 32] = [
    255, 1, 4, 1, 255, 1, 5, 1, 255, 1, 4, 1, 255, 1, 5, 1, 255, 1, 4, 1, 255, 1, 5, 1, 255, 1, 4,
    1, 255, 1, 5, 1,
];

/// Code of each small value, right-justified, M2L.
pub const WRITE_M2L: [u16; 256] = [
    1, 4, 5, 12, 13, 14, 15, 32, 33, 34, 35, 36, 37, 38, 39, 80, 81, 82, 83, 84, 85, 86, 87, 88,
    89, 90, 91, 92, 93, 94, 95, 192, 193, 194, 195, 196, 197, 198, 199, 200, 201, 202, 203, 204,
    205, 206, 207, 208, 209, 210, 211, 212, 213, 214, 215, 216, 217, 218, 219, 220, 221, 222, 223,
    448, 449, 450, 451, 452, 453, 454, 455, 456, 457, 458, 459, 460, 461, 462, 463, 464, 465, 466,
    467, 468, 469, 470, 471, 472, 473, 474, 475, 476, 477, 478, 479, 480, 481, 482, 483, 484, 485,
    486, 487, 488, 489, 490, 491, 492, 493, 494, 495, 496, 497, 498, 499, 500, 501, 502, 503, 504,
    505, 506, 507, 508, 509, 510, 511, 1024, 1025, 1026, 1027, 1028, 1029, 1030, 1031, 1032, 1033,
    1034, 1035, 1036, 1037, 1038, 1039, 1040, 1041, 1042, 1043, 1044, 1045, 1046, 1047, 1048, 1049,
    1050, 1051, 1052, 1053, 1054, 1055, 1056, 1057, 1058, 1059, 1060, 1061, 1062, 1063, 1064, 1065,
    1066, 1067, 1068, 1069, 1070, 1071, 1072, 1073, 1074, 1075, 1076, 1077, 1078, 1079, 1080, 1081,
    1082, 1083, 1084, 1085, 1086, 1087, 1088, 1089, 1090, 1091, 1092, 1093, 1094, 1095, 1096, 1097,
    1098, 1099, 1100, 1101, 1102, 1103, 1104, 1105, 1106, 1107, 1108, 1109, 1110, 1111, 1112, 1113,
    1114, 1115, 1116, 1117, 1118, 1119, 1120, 1121, 1122, 1123, 1124, 1125, 1126, 1127, 1128, 1129,
    1130, 1131, 1132, 1133, 1134, 1135, 1136, 1137, 1138, 1139, 1140, 1141, 1142, 1143, 1144, 1145,
    1146, 1147, 1148, 1149, 1150, 1151, 2304,
];

/// Code length of each small value, M2L.
pub const WRITE_LEN_M2L: [u16; 256] = [
    1, 4, 4, 5, 5, 5, 5, 8, 8, 8, 8, 8, 8, 8, 8, 9, 9, 9, 9, 9, 9, 9, 9, 9, 9, 9, 9, 9, 9, 9, 9,
    10, 10, 10, 10, 10, 10, 10, 10, 10, 10, 10, 10, 10, 10, 10, 10, 10, 10, 10, 10, 10, 10, 10, 10,
    10, 10, 10, 10, 10, 10, 10, 10, 11, 11, 11, 11, 11, 11, 11, 11, 11, 11, 11, 11, 11, 11, 11, 11,
    11, 11, 11, 11, 11, 11, 11, 11, 11, 11, 11, 11, 11, 11, 11, 11, 11, 11, 11, 11, 11, 11, 11, 11,
    11, 11, 11, 11, 11, 11, 11, 11, 11, 11, 11, 11, 11, 11, 11, 11, 11, 11, 11, 11, 11, 11, 11, 11,
    14, 14, 14, 14, 14, 14, 14, 14, 14, 14, 14, 14, 14, 14, 14, 14, 14, 14, 14, 14, 14, 14, 14, 14,
    14, 14, 14, 14, 14, 14, 14, 14, 14, 14, 14, 14, 14, 14, 14, 14, 14, 14, 14, 14, 14, 14, 14, 14,
    14, 14, 14, 14, 14, 14, 14, 14, 14, 14, 14, 14, 14, 14, 14, 14, 14, 14, 14, 14, 14, 14, 14, 14,
    14, 14, 14, 14, 14, 14, 14, 14, 14, 14, 14, 14, 14, 14, 14, 14, 14, 14, 14, 14, 14, 14, 14, 14,
    14, 14, 14, 14, 14, 14, 14, 14, 14, 14, 14, 14, 14, 14, 14, 14, 14, 14, 14, 14, 14, 14, 14, 14,
    14, 14, 14, 14, 14, 14, 14, 14, 15,
];

/// Code of each small value, right-justified, L2M.
pub const WRITE_L2M: [u16; 256] = [
    1, 2, 10, 6, 14, 22, 30, 4, 36, 68, 100, 132, 164, 196, 228, 12, 44, 76, 108, 140, 172, 204,
    236, 268, 300, 332, 364, 396, 428, 460, 492, 20, 52, 84, 116, 148, 180, 212, 244, 276, 308,
    340, 372, 404, 436, 468, 500, 532, 564, 596, 628, 660, 692, 724, 756, 788, 820, 852, 884, 916,
    948, 980, 1012, 28, 60, 92, 124, 156, 188, 220, 252, 284, 316, 348, 380, 412, 444, 476, 508,
    540, 572, 604, 636, 668, 700, 732, 764, 796, 828, 860, 892, 924, 956, 988, 1020, 1052, 1084,
    1116, 1148, 1180, 1212, 1244, 1276, 1308, 1340, 1372, 1404, 1436, 1468, 1500, 1532, 1564, 1596,
    1628, 1660, 1692, 1724, 1756, 1788, 1820, 1852, 1884, 1916, 1948, 1980, 2012, 2044, 8, 136,
    264, 392, 520, 648, 776, 904, 1032, 1160, 1288, 1416, 1544, 1672, 1800, 1928, 2056, 2184, 2312,
    2440, 2568, 2696, 2824, 2952, 3080, 3208, 3336, 3464, 3592, 3720, 3848, 3976, 4104, 4232, 4360,
    4488, 4616, 4744, 4872, 5000, 5128, 5256, 5384, 5512, 5640, 5768, 5896, 6024, 6152, 6280, 6408,
    6536, 6664, 6792, 6920, 7048, 7176, 7304, 7432, 7560, 7688, 7816, 7944, 8072, 8200, 8328, 8456,
    8584, 8712, 8840, 8968, 9096, 9224, 9352, 9480, 9608, 9736, 9864, 9992, 10120, 10248, 10376,
    10504, 10632, 10760, 10888, 11016, 11144, 11272, 11400, 11528, 11656, 11784, 11912, 12040,
    12168, 12296, 12424, 12552, 12680, 12808, 12936, 13064, 13192, 13320, 13448, 13576, 13704,
    13832, 13960, 14088, 14216, 14344, 14472, 14600, 14728, 14856, 14984, 15112, 15240, 15368,
    15496, 15624, 15752, 15880, 16008, 16136, 16264, 24,
];

/// Code length of each small value, L2M.
pub const WRITE_LEN_L2M: [u16; 256] = [
    1, 4, 4, 5, 5, 5, 5, 8, 8, 8, 8, 8, 8, 8, 8, 9, 9, 9, 9, 9, 9, 9, 9, 9, 9, 9, 9, 9, 9, 9, 9,
    10, 10, 10, 10, 10, 10, 10, 10, 10, 10, 10, 10, 10, 10, 10, 10, 10, 10, 10, 10, 10, 10, 10, 10,
    10, 10, 10, 10, 10, 10, 10, 10, 11, 11, 11, 11, 11, 11, 11, 11, 11, 11, 11, 11, 11, 11, 11, 11,
    11, 11, 11, 11, 11, 11, 11, 11, 11, 11, 11, 11, 11, 11, 11, 11, 11, 11, 11, 11, 11, 11, 11, 11,
    11, 11, 11, 11, 11, 11, 11, 11, 11, 11, 11, 11, 11, 11, 11, 11, 11, 11, 11, 11, 11, 11, 11, 11,
    14, 14, 14, 14, 14, 14, 14, 14, 14, 14, 14, 14, 14, 14, 14, 14, 14, 14, 14, 14, 14, 14, 14, 14,
    14, 14, 14, 14, 14, 14, 14, 14, 14, 14, 14, 14, 14, 14, 14, 14, 14, 14, 14, 14, 14, 14, 14, 14,
    14, 14, 14, 14, 14, 14, 14, 14, 14, 14, 14, 14, 14, 14, 14, 14, 14, 14, 14, 14, 14, 14, 14, 14,
    14, 14, 14, 14, 14, 14, 14, 14, 14, 14, 14, 14, 14, 14, 14, 14, 14, 14, 14, 14, 14, 14, 14, 14,
    14, 14, 14, 14, 14, 14, 14, 14, 14, 14, 14, 14, 14, 14, 14, 14, 14, 14, 14, 14, 14, 14, 14, 14,
    14, 14, 14, 14, 14, 14, 14, 14, 15,
];

/// Code length of each small value.
pub const LEN: [u8; 256] = [
    1, 4, 4, 5, 5, 5, 5, 8, 8, 8, 8, 8, 8, 8, 8, 9, 9, 9, 9, 9, 9, 9, 9, 9, 9, 9, 9, 9, 9, 9, 9,
    10, 10, 10, 10, 10, 10, 10, 10, 10, 10, 10, 10, 10, 10, 10, 10, 10, 10, 10, 10, 10, 10, 10, 10,
    10, 10, 10, 10, 10, 10, 10, 10, 11, 11, 11, 11, 11, 11, 11, 11, 11, 11, 11, 11, 11, 11, 11, 11,
    11, 11, 11, 11, 11, 11, 11, 11, 11, 11, 11, 11, 11, 11, 11, 11, 11, 11, 11, 11, 11, 11, 11, 11,
    11, 11, 11, 11, 11, 11, 11, 11, 11, 11, 11, 11, 11, 11, 11, 11, 11, 11, 11, 11, 11, 11, 11, 11,
    14, 14, 14, 14, 14, 14, 14, 14, 14, 14, 14, 14, 14, 14, 14, 14, 14, 14, 14, 14, 14, 14, 14, 14,
    14, 14, 14, 14, 14, 14, 14, 14, 14, 14, 14, 14, 14, 14, 14, 14, 14, 14, 14, 14, 14, 14, 14, 14,
    14, 14, 14, 14, 14, 14, 14, 14, 14, 14, 14, 14, 14, 14, 14, 14, 14, 14, 14, 14, 14, 14, 14, 14,
    14, 14, 14, 14, 14, 14, 14, 14, 14, 14, 14, 14, 14, 14, 14, 14, 14, 14, 14, 14, 14, 14, 14, 14,
    14, 14, 14, 14, 14, 14, 14, 14, 14, 14, 14, 14, 14, 14, 14, 14, 14, 14, 14, 14, 14, 14, 14, 14,
    14, 14, 14, 14, 14, 14, 14, 14, 15,
];

/// Every entry of the M2L read table that is not missing is the code of
/// its value at the start of its window.
pub proof fn lemma_read_table_m2l(idx: int)
    requires
        0 <= idx < 32,
    ensures
        READ_LEN_M2L[idx] != MISSING_VALUE_LEN ==> READ_LEN_M2L[idx] <= 5 && delta_code(READ_M2L[idx] as nat, true).len()
            == READ_LEN_M2L[idx] && field(idx as nat, 5, true).subrange(0, READ_LEN_M2L[idx] as int)
            == delta_code(READ_M2L[idx] as nat, true),
        READ_LEN_M2L[idx] == MISSING_VALUE_LEN <==> !starts_code(field(idx as nat, 5, true)),
{
    reveal_with_fuel(bits_msb, 6);
    reveal_with_fuel(log2, 4);
    lemma2_to64();
    if idx == 0 {
        assert(!starts_code(bits_msb(0, 5)));
    } else if idx == 1 {
        assert(!starts_code(bits_msb(1, 5)));
    } else if idx == 2 {
        assert(!starts_code(bits_msb(2, 5)));
    } else if idx == 3 {
        assert(!starts_code(bits_msb(3, 5)));
    } else if idx == 4 {
        assert(!starts_code(bits_msb(4, 5)));
    } else if idx == 5 {
        assert(!starts_code(bits_msb(5, 5)));
    } else if idx == 6 {
        assert(!starts_code(bits_msb(6, 5)));
    } else if idx == 7 {
        assert(!starts_code(bits_msb(7, 5)));
    } else if idx == 8 {
        assert(bits_msb(8, 5).subrange(0, 4) =~= delta_code(1, true));
        assert(starts_code(bits_msb(8, 5)));
    } else if idx == 9 {
        assert(bits_msb(9, 5).subrange(0, 4) =~= delta_code(1, true));
        assert(starts_code(bits_msb(9, 5)));
    } else if idx == 10 {
        assert(bits_msb(10, 5).subrange(0, 4) =~= delta_code(2, true));
        assert(starts_code(bits_msb(10, 5)));
    } else if idx == 11 {
        assert(bits_msb(11, 5).subrange(0, 4) =~= delta_code(2, true));
        assert(starts_code(bits_msb(11, 5)));
    } else if idx == 12 {
        assert(bits_msb(12, 5).subrange(0, 5) =~= delta_code(3, true));
        assert(starts_code(bits_msb(12, 5)));
    } else if idx == 13 {
        assert(bits_msb(13, 5).subrange(0, 5) =~= delta_code(4, true));
        assert(starts_code(bits_msb(13, 5)));
    } else if idx == 14 {
        assert(bits_msb(14, 5).subrange(0, 5) =~= delta_code(5, true));
        assert(starts_code(bits_msb(14, 5)));
    } else if idx == 15 {
        assert(bits_msb(15, 5).subrange(0, 5) =~= delta_code(6, true));
        assert(starts_code(bits_msb(15, 5)));
    } else if idx == 16 {
        assert(bits_msb(16, 5).subrange(0, 1) =~= delta_code(0, true));
        assert(starts_code(bits_msb(16, 5)));
    } else if idx == 17 {
        assert(bits_msb(17, 5).subrange(0, 1) =~= delta_code(0, true));
        assert(starts_code(bits_msb(17, 5)));
    } else if idx == 18 {
        assert(bits_msb(18, 5).subrange(0, 1) =~= delta_code(0, true));
        assert(starts_code(bits_msb(18, 5)));
    } else if idx == 19 {
        assert(bits_msb(19, 5).subrange(0, 1) =~= delta_code(0, true));
        assert(starts_code(bits_msb(19, 5)));
    } else if idx == 20 {
        assert(bits_msb(20, 5).subrange(0, 1) =~= delta_code(0, true));
        assert(starts_code(bits_msb(20, 5)));
    } else if idx == 21 {
        assert(bits_msb(21, 5).subrange(0, 1) =~= delta_code(0, true));
        assert(starts_code(bits_msb(21, 5)));
    } else if idx == 22 {
        assert(bits_msb(22, 5).subrange(0, 1) =~= delta_code(0, true));
        assert(starts_code(bits_msb(22, 5)));
    } else if idx == 23 {
        assert(bits_msb(23, 5).subrange(0, 1) =~= delta_code(0, true));
        assert(starts_code(bits_msb(23, 5)));
    } else if idx == 24 {
        assert(bits_msb(24, 5).subrange(0, 1) =~= delta_code(0, true));
        assert(starts_code(bits_msb(24, 5)));
    } else if idx == 25 {
        assert(bits_msb(25, 5).subrange(0, 1) =~= delta_code(0, true));
        assert(starts_code(bits_msb(25, 5)));
    } else if idx == 26 {
        assert(bits_msb(26, 5).subrange(0, 1) =~= delta_code(0, true));
        assert(starts_code(bits_msb(26, 5)));
    } else if idx == 27 {
        assert(bits_msb(27, 5).subrange(0, 1) =~= delta_code(0, true));
        assert(starts_code(bits_msb(27, 5)));
    } else if idx == 28 {
        assert(bits_msb(28, 5).subrange(0, 1) =~= delta_code(0, true));
        assert(starts_code(bits_msb(28, 5)));
    } else if idx == 29 {
        assert(bits_msb(29, 5).subrange(0, 1) =~= delta_code(0, true));
        assert(starts_code(bits_msb(29, 5)));
    } else if idx == 30 {
        assert(bits_msb(30, 5).subrange(0, 1) =~= delta_code(0, true));
        assert(starts_code(bits_msb(30, 5)));
    } else if idx == 31 {
        assert(bits_msb(31, 5).subrange(0, 1) =~= delta_code(0, true));
        assert(starts_code(bits_msb(31, 5)));
    }
}

/// Every entry of the L2M read table that is not missing is the code of
/// its value at the start of its window.
pub proof fn lemma_read_table_l2m(idx: int)
    requires
        0 <= idx < 32,
    ensures
        READ_LEN_L2M[idx] != MISSING_VALUE_LEN ==> READ_LEN_L2M[idx] <= 5 && delta_code(READ_L2M[idx] as nat, false).len()
            == READ_LEN_L2M[idx] && field(idx as nat, 5, false).subrange(0, READ_LEN_L2M[idx] as int)
            == delta_code(READ_L2M[idx] as nat, false),
        READ_LEN_L2M[idx] == MISSING_VALUE_LEN <==> !starts_code(field(idx as nat, 5, false)),
{
    reveal_with_fuel(bits_lsb, 6);
    reveal_with_fuel(log2, 4);
    lemma2_to64();
    if idx == 0 {
        assert(!starts_code(bits_lsb(0, 5)));
    } else if idx == 1 {
        assert(bits_lsb(1, 5).subrange(0, 1) =~= delta_code(0, false));
        assert(starts_code(bits_lsb(1, 5)));
    } else if idx == 2 {
        assert(bits_lsb(2, 5).subrange(0, 4) =~= delta_code(1, false));
        assert(starts_code(bits_lsb(2, 5)));
    } else if idx == 3 {
        assert(bits_lsb(3, 5).subrange(0, 1) =~= delta_code(0, false));
        assert(starts_code(bits_lsb(3, 5)));
    } else if idx == 4 {
        assert(!starts_code(bits_lsb(4, 5)));
    } else if idx == 5 {
        assert(bits_lsb(5, 5).subrange(0, 1) =~= delta_code(0, false));
        assert(starts_code(bits_lsb(5, 5)));
    } else if idx == 6 {
        assert(bits_lsb(6, 5).subrange(0, 5) =~= delta_code(3, false));
        assert(starts_code(bits_lsb(6, 5)));
    } else if idx == 7 {
        assert(bits_lsb(7, 5).subrange(0, 1) =~= delta_code(0, false));
        assert(starts_code(bits_lsb(7, 5)));
    } else if idx == 8 {
        assert(!starts_code(bits_lsb(8, 5)));
    } else if idx == 9 {
        assert(bits_lsb(9, 5).subrange(0, 1) =~= delta_code(0, false));
        assert(starts_code(bits_lsb(9, 5)));
    } else if idx == 10 {
        assert(bits_lsb(10, 5).subrange(0, 4) =~= delta_code(2, false));
        assert(starts_code(bits_lsb(10, 5)));
    } else if idx == 11 {
        assert(bits_lsb(11, 5).subrange(0, 1) =~= delta_code(0, false));
        assert(starts_code(bits_lsb(11, 5)));
    } else if idx == 12 {
        assert(!starts_code(bits_lsb(12, 5)));
    } else if idx == 13 {
        assert(bits_lsb(13, 5).subrange(0, 1) =~= delta_code(0, false));
        assert(starts_code(bits_lsb(13, 5)));
    } else if idx == 14 {
        assert(bits_lsb(14, 5).subrange(0, 5) =~= delta_code(4, false));
        assert(starts_code(bits_lsb(14, 5)));
    } else if idx == 15 {
        assert(bits_lsb(15, 5).subrange(0, 1) =~= delta_code(0, false));
        assert(starts_code(bits_lsb(15, 5)));
    } else if idx == 16 {
        assert(!starts_code(bits_lsb(16, 5)));
    } else if idx == 17 {
        assert(bits_lsb(17, 5).subrange(0, 1) =~= delta_code(0, false));
        assert(starts_code(bits_lsb(17, 5)));
    } else if idx == 18 {
        assert(bits_lsb(18, 5).subrange(0, 4) =~= delta_code(1, false));
        assert(starts_code(bits_lsb(18, 5)));
    } else if idx == 19 {
        assert(bits_lsb(19, 5).subrange(0, 1) =~= delta_code(0, false));
        assert(starts_code(bits_lsb(19, 5)));
    } else if idx == 20 {
        assert(!starts_code(bits_lsb(20, 5)));
    } else if idx == 21 {
        assert(bits_lsb(21, 5).subrange(0, 1) =~= delta_code(0, false));
        assert(starts_code(bits_lsb(21, 5)));
    } else if idx == 22 {
        assert(bits_lsb(22, 5).subrange(0, 5) =~= delta_code(5, false));
        assert(starts_code(bits_lsb(22, 5)));
    } else if idx == 23 {
        assert(bits_lsb(23, 5).subrange(0, 1) =~= delta_code(0, false));
        assert(starts_code(bits_lsb(23, 5)));
    } else if idx == 24 {
        assert(!starts_code(bits_lsb(24, 5)));
    } else if idx == 25 {
        assert(bits_lsb(25, 5).subrange(0, 1) =~= delta_code(0, false));
        assert(starts_code(bits_lsb(25, 5)));
    } else if idx == 26 {
        assert(bits_lsb(26, 5).subrange(0, 4) =~= delta_code(2, false));
        assert(starts_code(bits_lsb(26, 5)));
    } else if idx == 27 {
        assert(bits_lsb(27, 5).subrange(0, 1) =~= delta_code(0, false));
        assert(starts_code(bits_lsb(27, 5)));
    } else if idx == 28 {
        assert(!starts_code(bits_lsb(28, 5)));
    } else if idx == 29 {
        assert(bits_lsb(29, 5).subrange(0, 1) =~= delta_code(0, false));
        assert(starts_code(bits_lsb(29, 5)));
    } else if idx == 30 {
        assert(bits_lsb(30, 5).subrange(0, 5) =~= delta_code(6, false));
        assert(starts_code(bits_lsb(30, 5)));
    } else if idx == 31 {
        assert(bits_lsb(31, 5).subrange(0, 1) =~= delta_code(0, false));
        assert(starts_code(bits_lsb(31, 5)));
    }
}

/// Every entry of the M2L write table is the code of its index.
pub proof fn lemma_write_table_m2l(v: int)
    requires
        0 <= v <= WRITE_MAX,
    ensures
        WRITE_LEN_M2L[v] <= 64,
        WRITE_M2L[v] < pow2(WRITE_LEN_M2L[v] as nat),
        field(WRITE_M2L[v] as nat, WRITE_LEN_M2L[v] as nat, true) == delta_code(v as nat, true),
{
    lemma2_to64();
    lemma2_to64_rest();
    lemma_delta_closed_form(v as nat);
    lemma_gamma_len(v as nat, true);
    if 0 <= v < 1 {
        lemma_log2_unique((v + 1) as nat, 0);
        lemma_log2_unique(1, 0);
        lemma_write_group_m2l_0(v);
        lemma_delta_values_at(v as nat, 0, 0, 1, 1, 2, 2);
        assert(delta_m2l_value(v as nat) == (0 + 1) * 1 + (v + 1 - 1));
        assert(delta_m2l_value(v as nat) == v + 1);
        assert(WRITE_M2L[v] as nat == delta_m2l_value(v as nat));
        assert(WRITE_LEN_M2L[v] as nat == delta_code(v as nat, true).len());
    }
    if 1 <= v < 3 {
        lemma_log2_unique((v + 1) as nat, 1);
        lemma_log2_unique(2, 1);
        lemma_write_group_m2l_1(v);
        lemma_delta_values_at(v as nat, 1, 1, 2, 2, 4, 8);
        assert(delta_m2l_value(v as nat) == (1 + 1) * 2 + (v + 1 - 2));
        assert(delta_m2l_value(v as nat) == v + 3);
        assert(WRITE_M2L[v] as nat == delta_m2l_value(v as nat));
        assert(WRITE_LEN_M2L[v] as nat == delta_code(v as nat, true).len());
    }
    if 3 <= v < 7 {
        lemma_log2_unique((v + 1) as nat, 2);
        lemma_log2_unique(3, 1);
        lemma_write_group_m2l_2(v);
        lemma_delta_values_at(v as nat, 2, 1, 4, 2, 4, 8);
        assert(delta_m2l_value(v as nat) == (2 + 1) * 4 + (v + 1 - 4));
        assert(delta_m2l_value(v as nat) == v + 9);
        assert(WRITE_M2L[v] as nat == delta_m2l_value(v as nat));
        assert(WRITE_LEN_M2L[v] as nat == delta_code(v as nat, true).len());
    }
    if 7 <= v < 15 {
        lemma_log2_unique((v + 1) as nat, 3);
        lemma_log2_unique(4, 2);
        lemma_write_group_m2l_3(v);
        lemma_delta_values_at(v as nat, 3, 2, 8, 4, 8, 32);
        assert(delta_m2l_value(v as nat) == (3 + 1) * 8 + (v + 1 - 8));
        assert(delta_m2l_value(v as nat) == v + 25);
        assert(WRITE_M2L[v] as nat == delta_m2l_value(v as nat));
        assert(WRITE_LEN_M2L[v] as nat == delta_code(v as nat, true).len());
    }
    if 15 <= v < 31 {
        lemma_log2_unique((v + 1) as nat, 4);
        lemma_log2_unique(5, 2);
        lemma_write_group_m2l_4(v);
        lemma_delta_values_at(v as nat, 4, 2, 16, 4, 8, 32);
        assert(delta_m2l_value(v as nat) == (4 + 1) * 16 + (v + 1 - 16));
        assert(delta_m2l_value(v as nat) == v + 65);
        assert(WRITE_M2L[v] as nat == delta_m2l_value(v as nat));
        assert(WRITE_LEN_M2L[v] as nat == delta_code(v as nat, true).len());
    }
    if 31 <= v < 63 {
        lemma_log2_unique((v + 1) as nat, 5);
        lemma_log2_unique(6, 2);
        lemma_write_group_m2l_5(v);
        lemma_delta_values_at(v as nat, 5, 2, 32, 4, 8, 32);
        assert(delta_m2l_value(v as nat) == (5 + 1) * 32 + (v + 1 - 32));
        assert(delta_m2l_value(v as nat) == v + 161);
        assert(WRITE_M2L[v] as nat == delta_m2l_value(v as nat));
        assert(WRITE_LEN_M2L[v] as nat == delta_code(v as nat, true).len());
    }
    if 63 <= v < 127 {
        lemma_log2_unique((v + 1) as nat, 6);
        lemma_log2_unique(7, 2);
        lemma_write_group_m2l_6(v);
        lemma_delta_values_at(v as nat, 6, 2, 64, 4, 8, 32);
        assert(delta_m2l_value(v as nat) == (6 + 1) * 64 + (v + 1 - 64));
        assert(delta_m2l_value(v as nat) == v + 385);
        assert(WRITE_M2L[v] as nat == delta_m2l_value(v as nat));
        assert(WRITE_LEN_M2L[v] as nat == delta_code(v as nat, true).len());
    }
    if 127 <= v < 255 {
        lemma_log2_unique((v + 1) as nat, 7);
        lemma_log2_unique(8, 3);
        lemma_write_group_m2l_7(v);
        lemma_delta_values_at(v as nat, 7, 3, 128, 8, 16, 128);
        assert(delta_m2l_value(v as nat) == (7 + 1) * 128 + (v + 1 - 128));
        assert(delta_m2l_value(v as nat) == v + 897);
        assert(WRITE_M2L[v] as nat == delta_m2l_value(v as nat));
        assert(WRITE_LEN_M2L[v] as nat == delta_code(v as nat, true).len());
    }
    if 255 <= v < 256 {
        lemma_log2_unique((v + 1) as nat, 8);
        lemma_log2_unique(9, 3);
        lemma_write_group_m2l_8(v);
        lemma_delta_values_at(v as nat, 8, 3, 256, 8, 16, 128);
        assert(delta_m2l_value(v as nat) == (8 + 1) * 256 + (v + 1 - 256));
        assert(delta_m2l_value(v as nat) == v + 2049);
        assert(WRITE_M2L[v] as nat == delta_m2l_value(v as nat));
        assert(WRITE_LEN_M2L[v] as nat == delta_code(v as nat, true).len());
    }
}

proof fn lemma_write_group_m2l_0(v: int)
    requires
        0 <= v < 1,
    ensures
        WRITE_M2L[v] == v + 1,
        WRITE_LEN_M2L[v] == 1,
{
    if v == 0 {
        assert(WRITE_M2L[v] == v + 1 && WRITE_LEN_M2L[v] == 1);
    }
}

proof fn lemma_write_group_m2l_1(v: int)
    requires
        1 <= v < 3,
    ensures
        WRITE_M2L[v] == v + 3,
        WRITE_LEN_M2L[v] == 4,
{
    if v == 1 {
        assert(WRITE_M2L[v] == v + 3 && WRITE_LEN_M2L[v] == 4);
    } else if v == 2 {
        assert(WRITE_M2L[v] == v + 3 && WRITE_LEN_M2L[v] == 4);
    }
}

proof fn lemma_write_group_m2l_2(v: int)
    requires
        3 <= v < 7,
    ensures
        WRITE_M2L[v] == v + 9,
        WRITE_LEN_M2L[v] == 5,
{
    if v == 3 {
        assert(WRITE_M2L[v] == v + 9 && WRITE_LEN_M2L[v] == 5);
    } else if v == 4 {
        assert(WRITE_M2L[v] == v + 9 && WRITE_LEN_M2L[v] == 5);
    } else if v == 5 {
        assert(WRITE_M2L[v] == v + 9 && WRITE_LEN_M2L[v] == 5);
    } else if v == 6 {
        assert(WRITE_M2L[v] == v + 9 && WRITE_LEN_M2L[v] == 5);
    }
}

proof fn lemma_write_group_m2l_3(v: int)
    requires
        7 <= v < 15,
    ensures
        WRITE_M2L[v] == v + 25,
        WRITE_LEN_M2L[v] == 8,
{
    if v == 7 {
        assert(WRITE_M2L[v] == v + 25 && WRITE_LEN_M2L[v] == 8);
    } else if v == 8 {
        assert(WRITE_M2L[v] == v + 25 && WRITE_LEN_M2L[v] == 8);
    } else if v == 9 {
        assert(WRITE_M2L[v] == v + 25 && WRITE_LEN_M2L[v] == 8);
    } else if v == 10 {
        assert(WRITE_M2L[v] == v + 25 && WRITE_LEN_M2L[v] == 8);
    } else if v == 11 {
        assert(WRITE_M2L[v] == v + 25 && WRITE_LEN_M2L[v] == 8);
    } else if v == 12 {
        assert(WRITE_M2L[v] == v + 25 && WRITE_LEN_M2L[v] == 8);
    } else if v == 13 {
        assert(WRITE_M2L[v] == v + 25 && WRITE_LEN_M2L[v] == 8);
    } else if v == 14 {
        assert(WRITE_M2L[v] == v + 25 && WRITE_LEN_M2L[v] == 8);
    }
}

proof fn lemma_write_group_m2l_4(v: int)
    requires
        15 <= v < 31,
    ensures
        WRITE_M2L[v] == v + 65,
        WRITE_LEN_M2L[v] == 9,
{
    if v == 15 {
        assert(WRITE_M2L[v] == v + 65 && WRITE_LEN_M2L[v] == 9);
    } else if v == 16 {
        assert(WRITE_M2L[v] == v + 65 && WRITE_LEN_M2L[v] == 9);
    } else if v == 17 {
        assert(WRITE_M2L[v] == v + 65 && WRITE_LEN_M2L[v] == 9);
    } else if v == 18 {
        assert(WRITE_M2L[v] == v + 65 && WRITE_LEN_M2L[v] == 9);
    } else if v == 19 {
        assert(WRITE_M2L[v] == v + 65 && WRITE_LEN_M2L[v] == 9);
    } else if v == 20 {
        assert(WRITE_M2L[v] == v + 65 && WRITE_LEN_M2L[v] == 9);
    } else if v == 21 {
        assert(WRITE_M2L[v] == v + 65 && WRITE_LEN_M2L[v] == 9);
    } else if v == 22 {
        assert(WRITE_M2L[v] == v + 65 && WRITE_LEN_M2L[v] == 9);
    } else if v == 23 {
        assert(WRITE_M2L[v] == v + 65 && WRITE_LEN_M2L[v] == 9);
    } else if v == 24 {
        assert(WRITE_M2L[v] == v + 65 && WRITE_LEN_M2L[v] == 9);
    } else if v == 25 {
        assert(WRITE_M2L[v] == v + 65 && WRITE_LEN_M2L[v] == 9);
    } else if v == 26 {
        assert(WRITE_M2L[v] == v + 65 && WRITE_LEN_M2L[v] == 9);
    } else if v == 27 {
        assert(WRITE_M2L[v] == v + 65 && WRITE_LEN_M2L[v] == 9);
    } else if v == 28 {
        assert(WRITE_M2L[v] == v + 65 && WRITE_LEN_M2L[v] == 9);
    } else if v == 29 {
        assert(WRITE_M2L[v] == v + 65 && WRITE_LEN_M2L[v] == 9);
    } else if v == 30 {
        assert(WRITE_M2L[v] == v + 65 && WRITE_LEN_M2L[v] == 9);
    }
}

proof fn lemma_write_group_m2l_5(v: int)
    requires
        31 <= v < 63,
    ensures
        WRITE_M2L[v] == v + 161,
        WRITE_LEN_M2L[v] == 10,
{
    if v == 31 {
        assert(WRITE_M2L[v] == v + 161 && WRITE_LEN_M2L[v] == 10);
    } else if v == 32 {
        assert(WRITE_M2L[v] == v + 161 && WRITE_LEN_M2L[v] == 10);
    } else if v == 33 {
        assert(WRITE_M2L[v] == v + 161 && WRITE_LEN_M2L[v] == 10);
    } else if v == 34 {
        assert(WRITE_M2L[v] == v + 161 && WRITE_LEN_M2L[v] == 10);
    } else if v == 35 {
        assert(WRITE_M2L[v] == v + 161 && WRITE_LEN_M2L[v] == 10);
    } else if v == 36 {
        assert(WRITE_M2L[v] == v + 161 && WRITE_LEN_M2L[v] == 10);
    } else if v == 37 {
        assert(WRITE_M2L[v] == v + 161 && WRITE_LEN_M2L[v] == 10);
    } else if v == 38 {
        assert(WRITE_M2L[v] == v + 161 && WRITE_LEN_M2L[v] == 10);
    } else if v == 39 {
        assert(WRITE_M2L[v] == v + 161 && WRITE_LEN_M2L[v] == 10);
    } else if v == 40 {
        assert(WRITE_M2L[v] == v + 161 && WRITE_LEN_M2L[v] == 10);
    } else if v == 41 {
        assert(WRITE_M2L[v] == v + 161 && WRITE_LEN_M2L[v] == 10);
    } else if v == 42 {
        assert(WRITE_M2L[v] == v + 161 && WRITE_LEN_M2L[v] == 10);
    } else if v == 43 {
        assert(WRITE_M2L[v] == v + 161 && WRITE_LEN_M2L[v] == 10);
    } else if v == 44 {
        assert(WRITE_M2L[v] == v + 161 && WRITE_LEN_M2L[v] == 10);
    } else if v == 45 {
        assert(WRITE_M2L[v] == v + 161 && WRITE_LEN_M2L[v] == 10);
    } else if v == 46 {
        assert(WRITE_M2L[v] == v + 161 && WRITE_LEN_M2L[v] == 10);
    } else if v == 47 {
        assert(WRITE_M2L[v] == v + 161 && WRITE_LEN_M2L[v] == 10);
    } else if v == 48 {
        assert(WRITE_M2L[v] == v + 161 && WRITE_LEN_M2L[v] == 10);
    } else if v == 49 {
        assert(WRITE_M2L[v] == v + 161 && WRITE_LEN_M2L[v] == 10);
    } else if v == 50 {
        assert(WRITE_M2L[v] == v + 161 && WRITE_LEN_M2L[v] == 10);
    } else if v == 51 {
        assert(WRITE_M2L[v] == v + 161 && WRITE_LEN_M2L[v] == 10);
    } else if v == 52 {
        assert(WRITE_M2L[v] == v + 161 && WRITE_LEN_M2L[v] == 10);
    } else if v == 53 {
        assert(WRITE_M2L[v] == v + 161 && WRITE_LEN_M2L[v] == 10);
    } else if v == 54 {
        assert(WRITE_M2L[v] == v + 161 && WRITE_LEN_M2L[v] == 10);
    } else if v == 55 {
        assert(WRITE_M2L[v] == v + 161 && WRITE_LEN_M2L[v] == 10);
    } else if v == 56 {
        assert(WRITE_M2L[v] == v + 161 && WRITE_LEN_M2L[v] == 10);
    } else if v == 57 {
        assert(WRITE_M2L[v] == v + 161 && WRITE_LEN_M2L[v] == 10);
    } else if v == 58 {
        assert(WRITE_M2L[v] == v + 161 && WRITE_LEN_M2L[v] == 10);
    } else if v == 59 {
        assert(WRITE_M2L[v] == v + 161 && WRITE_LEN_M2L[v] == 10);
    } else if v == 60 {
        assert(WRITE_M2L[v] == v + 161 && WRITE_LEN_M2L[v] == 10);
    } else if v == 61 {
        assert(WRITE_M2L[v] == v + 161 && WRITE_LEN_M2L[v] == 10);
    } else if v == 62 {
        assert(WRITE_M2L[v] == v + 161 && WRITE_LEN_M2L[v] == 10);
    }
}

proof fn lemma_write_group_m2l_6(v: int)
    requires
        63 <= v < 127,
    ensures
        WRITE_M2L[v] == v + 385,
        WRITE_LEN_M2L[v] == 11,
{
    if v == 63 {
        assert(WRITE_M2L[v] == v + 385 && WRITE_LEN_M2L[v] == 11);
    } else if v == 64 {
        assert(WRITE_M2L[v] == v + 385 && WRITE_LEN_M2L[v] == 11);
    } else if v == 65 {
        assert(WRITE_M2L[v] == v + 385 && WRITE_LEN_M2L[v] == 11);
    } else if v == 66 {
        assert(WRITE_M2L[v] == v + 385 && WRITE_LEN_M2L[v] == 11);
    } else if v == 67 {
        assert(WRITE_M2L[v] == v + 385 && WRITE_LEN_M2L[v] == 11);
    } else if v == 68 {
        assert(WRITE_M2L[v] == v + 385 && WRITE_LEN_M2L[v] == 11);
    } else if v == 69 {
        assert(WRITE_M2L[v] == v + 385 && WRITE_LEN_M2L[v] == 11);
    } else if v == 70 {
        assert(WRITE_M2L[v] == v + 385 && WRITE_LEN_M2L[v] == 11);
    } else if v == 71 {
        assert(WRITE_M2L[v] == v + 385 && WRITE_LEN_M2L[v] == 11);
    } else if v == 72 {
        assert(WRITE_M2L[v] == v + 385 && WRITE_LEN_M2L[v] == 11);
    } else if v == 73 {
        assert(WRITE_M2L[v] == v + 385 && WRITE_LEN_M2L[v] == 11);
    } else if v == 74 {
        assert(WRITE_M2L[v] == v + 385 && WRITE_LEN_M2L[v] == 11);
    } else if v == 75 {
        assert(WRITE_M2L[v] == v + 385 && WRITE_LEN_M2L[v] == 11);
    } else if v == 76 {
        assert(WRITE_M2L[v] == v + 385 && WRITE_LEN_M2L[v] == 11);
    } else if v == 77 {
        assert(WRITE_M2L[v] == v + 385 && WRITE_LEN_M2L[v] == 11);
    } else if v == 78 {
        assert(WRITE_M2L[v] == v + 385 && WRITE_LEN_M2L[v] == 11);
    } else if v == 79 {
        assert(WRITE_M2L[v] == v + 385 && WRITE_LEN_M2L[v] == 11);
    } else if v == 80 {
        assert(WRITE_M2L[v] == v + 385 && WRITE_LEN_M2L[v] == 11);
    } else if v == 81 {
        assert(WRITE_M2L[v] == v + 385 && WRITE_LEN_M2L[v] == 11);
    } else if v == 82 {
        assert(WRITE_M2L[v] == v + 385 && WRITE_LEN_M2L[v] == 11);
    } else if v == 83 {
        assert(WRITE_M2L[v] == v + 385 && WRITE_LEN_M2L[v] == 11);
    } else if v == 84 {
        assert(WRITE_M2L[v] == v + 385 && WRITE_LEN_M2L[v] == 11);
    } else if v == 85 {
        assert(WRITE_M2L[v] == v + 385 && WRITE_LEN_M2L[v] == 11);
    } else if v == 86 {
        assert(WRITE_M2L[v] == v + 385 && WRITE_LEN_M2L[v] == 11);
    } else if v == 87 {
        assert(WRITE_M2L[v] == v + 385 && WRITE_LEN_M2L[v] == 11);
    } else if v == 88 {
        assert(WRITE_M2L[v] == v + 385 && WRITE_LEN_M2L[v] == 11);
    } else if v == 89 {
        assert(WRITE_M2L[v] == v + 385 && WRITE_LEN_M2L[v] == 11);
    } else if v == 90 {
        assert(WRITE_M2L[v] == v + 385 && WRITE_LEN_M2L[v] == 11);
    } else if v == 91 {
        assert(WRITE_M2L[v] == v + 385 && WRITE_LEN_M2L[v] == 11);
    } else if v == 92 {
        assert(WRITE_M2L[v] == v + 385 && WRITE_LEN_M2L[v] == 11);
    } else if v == 93 {
        assert(WRITE_M2L[v] == v + 385 && WRITE_LEN_M2L[v] == 11);
    } else if v == 94 {
        assert(WRITE_M2L[v] == v + 385 && WRITE_LEN_M2L[v] == 11);
    } else if v == 95 {
        assert(WRITE_M2L[v] == v + 385 && WRITE_LEN_M2L[v] == 11);
    } else if v == 96 {
        assert(WRITE_M2L[v] == v + 385 && WRITE_LEN_M2L[v] == 11);
    } else if v == 97 {
        assert(WRITE_M2L[v] == v + 385 && WRITE_LEN_M2L[v] == 11);
    } else if v == 98 {
        assert(WRITE_M2L[v] == v + 385 && WRITE_LEN_M2L[v] == 11);
    } else if v == 99 {
        assert(WRITE_M2L[v] == v + 385 && WRITE_LEN_M2L[v] == 11);
    } else if v == 100 {
        assert(WRITE_M2L[v] == v + 385 && WRITE_LEN_M2L[v] == 11);
    } else if v == 101 {
        assert(WRITE_M2L[v] == v + 385 && WRITE_LEN_M2L[v] == 11);
    } else if v == 102 {
        assert(WRITE_M2L[v] == v + 385 && WRITE_LEN_M2L[v] == 11);
    } else if v == 103 {
        assert(WRITE_M2L[v] == v + 385 && WRITE_LEN_M2L[v] == 11);
    } else if v == 104 {
        assert(WRITE_M2L[v] == v + 385 && WRITE_LEN_M2L[v] == 11);
    } else if v == 105 {
        assert(WRITE_M2L[v] == v + 385 && WRITE_LEN_M2L[v] == 11);
    } else if v == 106 {
        assert(WRITE_M2L[v] == v + 385 && WRITE_LEN_M2L[v] == 11);
    } else if v == 107 {
        assert(WRITE_M2L[v] == v + 385 && WRITE_LEN_M2L[v] == 11);
    } else if v == 108 {
        assert(WRITE_M2L[v] == v + 385 && WRITE_LEN_M2L[v] == 11);
    } else if v == 109 {
        assert(WRITE_M2L[v] == v + 385 && WRITE_LEN_M2L[v] == 11);
    } else if v == 110 {
        assert(WRITE_M2L[v] == v + 385 && WRITE_LEN_M2L[v] == 11);
    } else if v == 111 {
        assert(WRITE_M2L[v] == v + 385 && WRITE_LEN_M2L[v] == 11);
    } else if v == 112 {
        assert(WRITE_M2L[v] == v + 385 && WRITE_LEN_M2L[v] == 11);
    } else if v == 113 {
        assert(WRITE_M2L[v] == v + 385 && WRITE_LEN_M2L[v] == 11);
    } else if v == 114 {
        assert(WRITE_M2L[v] == v + 385 && WRITE_LEN_M2L[v] == 11);
    } else if v == 115 {
        assert(WRITE_M2L[v] == v + 385 && WRITE_LEN_M2L[v] == 11);
    } else if v == 116 {
        assert(WRITE_M2L[v] == v + 385 && WRITE_LEN_M2L[v] == 11);
    } else if v == 117 {
        assert(WRITE_M2L[v] == v + 385 && WRITE_LEN_M2L[v] == 11);
    } else if v == 118 {
        assert(WRITE_M2L[v] == v + 385 && WRITE_LEN_M2L[v] == 11);
    } else if v == 119 {
        assert(WRITE_M2L[v] == v + 385 && WRITE_LEN_M2L[v] == 11);
    } else if v == 120 {
        assert(WRITE_M2L[v] == v + 385 && WRITE_LEN_M2L[v] == 11);
    } else if v == 121 {
        assert(WRITE_M2L[v] == v + 385 && WRITE_LEN_M2L[v] == 11);
    } else if v == 122 {
        assert(WRITE_M2L[v] == v + 385 && WRITE_LEN_M2L[v] == 11);
    } else if v == 123 {
        assert(WRITE_M2L[v] == v + 385 && WRITE_LEN_M2L[v] == 11);
    } else if v == 124 {
        assert(WRITE_M2L[v] == v + 385 && WRITE_LEN_M2L[v] == 11);
    } else if v == 125 {
        assert(WRITE_M2L[v] == v + 385 && WRITE_LEN_M2L[v] == 11);
    } else if v == 126 {
        assert(WRITE_M2L[v] == v + 385 && WRITE_LEN_M2L[v] == 11);
    }
}

proof fn lemma_write_group_m2l_7(v: int)
    requires
        127 <= v < 255,
    ensures
        WRITE_M2L[v] == v + 897,
        WRITE_LEN_M2L[v] == 14,
{
    if v == 127 {
        assert(WRITE_M2L[v] == v + 897 && WRITE_LEN_M2L[v] == 14);
    } else if v == 128 {
        assert(WRITE_M2L[v] == v + 897 && WRITE_LEN_M2L[v] == 14);
    } else if v == 129 {
        assert(WRITE_M2L[v] == v + 897 && WRITE_LEN_M2L[v] == 14);
    } else if v == 130 {
        assert(WRITE_M2L[v] == v + 897 && WRITE_LEN_M2L[v] == 14);
    } else if v == 131 {
        assert(WRITE_M2L[v] == v + 897 && WRITE_LEN_M2L[v] == 14);
    } else if v == 132 {
        assert(WRITE_M2L[v] == v + 897 && WRITE_LEN_M2L[v] == 14);
    } else if v == 133 {
        assert(WRITE_M2L[v] == v + 897 && WRITE_LEN_M2L[v] == 14);
    } else if v == 134 {
        assert(WRITE_M2L[v] == v + 897 && WRITE_LEN_M2L[v] == 14);
    } else if v == 135 {
        assert(WRITE_M2L[v] == v + 897 && WRITE_LEN_M2L[v] == 14);
    } else if v == 136 {
        assert(WRITE_M2L[v] == v + 897 && WRITE_LEN_M2L[v] == 14);
    } else if v == 137 {
        assert(WRITE_M2L[v] == v + 897 && WRITE_LEN_M2L[v] == 14);
    } else if v == 138 {
        assert(WRITE_M2L[v] == v + 897 && WRITE_LEN_M2L[v] == 14);
    } else if v == 139 {
        assert(WRITE_M2L[v] == v + 897 && WRITE_LEN_M2L[v] == 14);
    } else if v == 140 {
        assert(WRITE_M2L[v] == v + 897 && WRITE_LEN_M2L[v] == 14);
    } else if v == 141 {
        assert(WRITE_M2L[v] == v + 897 && WRITE_LEN_M2L[v] == 14);
    } else if v == 142 {
        assert(WRITE_M2L[v] == v + 897 && WRITE_LEN_M2L[v] == 14);
    } else if v == 143 {
        assert(WRITE_M2L[v] == v + 897 && WRITE_LEN_M2L[v] == 14);
    } else if v == 144 {
        assert(WRITE_M2L[v] == v + 897 && WRITE_LEN_M2L[v] == 14);
    } else if v == 145 {
        assert(WRITE_M2L[v] == v + 897 && WRITE_LEN_M2L[v] == 14);
    } else if v == 146 {
        assert(WRITE_M2L[v] == v + 897 && WRITE_LEN_M2L[v] == 14);
    } else if v == 147 {
        assert(WRITE_M2L[v] == v + 897 && WRITE_LEN_M2L[v] == 14);
    } else if v == 148 {
        assert(WRITE_M2L[v] == v + 897 && WRITE_LEN_M2L[v] == 14);
    } else if v == 149 {
        assert(WRITE_M2L[v] == v + 897 && WRITE_LEN_M2L[v] == 14);
    } else if v == 150 {
        assert(WRITE_M2L[v] == v + 897 && WRITE_LEN_M2L[v] == 14);
    } else if v == 151 {
        assert(WRITE_M2L[v] == v + 897 && WRITE_LEN_M2L[v] == 14);
    } else if v == 152 {
        assert(WRITE_M2L[v] == v + 897 && WRITE_LEN_M2L[v] == 14);
    } else if v == 153 {
        assert(WRITE_M2L[v] == v + 897 && WRITE_LEN_M2L[v] == 14);
    } else if v == 154 {
        assert(WRITE_M2L[v] == v + 897 && WRITE_LEN_M2L[v] == 14);
    } else if v == 155 {
        assert(WRITE_M2L[v] == v + 897 && WRITE_LEN_M2L[v] == 14);
    } else if v == 156 {
        assert(WRITE_M2L[v] == v + 897 && WRITE_LEN_M2L[v] == 14);
    } else if v == 157 {
        assert(WRITE_M2L[v] == v + 897 && WRITE_LEN_M2L[v] == 14);
    } else if v == 158 {
        assert(WRITE_M2L[v] == v + 897 && WRITE_LEN_M2L[v] == 14);
    } else if v == 159 {
        assert(WRITE_M2L[v] == v + 897 && WRITE_LEN_M2L[v] == 14);
    } else if v == 160 {
        assert(WRITE_M2L[v] == v + 897 && WRITE_LEN_M2L[v] == 14);
    } else if v == 161 {
        assert(WRITE_M2L[v] == v + 897 && WRITE_LEN_M2L[v] == 14);
    } else if v == 162 {
        assert(WRITE_M2L[v] == v + 897 && WRITE_LEN_M2L[v] == 14);
    } else if v == 163 {
        assert(WRITE_M2L[v] == v + 897 && WRITE_LEN_M2L[v] == 14);
    } else if v == 164 {
        assert(WRITE_M2L[v] == v + 897 && WRITE_LEN_M2L[v] == 14);
    } else if v == 165 {
        assert(WRITE_M2L[v] == v + 897 && WRITE_LEN_M2L[v] == 14);
    } else if v == 166 {
        assert(WRITE_M2L[v] == v + 897 && WRITE_LEN_M2L[v] == 14);
    } else if v == 167 {
        assert(WRITE_M2L[v] == v + 897 && WRITE_LEN_M2L[v] == 14);
    } else if v == 168 {
        assert(WRITE_M2L[v] == v + 897 && WRITE_LEN_M2L[v] == 14);
    } else if v == 169 {
        assert(WRITE_M2L[v] == v + 897 && WRITE_LEN_M2L[v] == 14);
    } else if v == 170 {
        assert(WRITE_M2L[v] == v + 897 && WRITE_LEN_M2L[v] == 14);
    } else if v == 171 {
        assert(WRITE_M2L[v] == v + 897 && WRITE_LEN_M2L[v] == 14);
    } else if v == 172 {
        assert(WRITE_M2L[v] == v + 897 && WRITE_LEN_M2L[v] == 14);
    } else if v == 173 {
        assert(WRITE_M2L[v] == v + 897 && WRITE_LEN_M2L[v] == 14);
    } else if v == 174 {
        assert(WRITE_M2L[v] == v + 897 && WRITE_LEN_M2L[v] == 14);
    } else if v == 175 {
        assert(WRITE_M2L[v] == v + 897 && WRITE_LEN_M2L[v] == 14);
    } else if v == 176 {
        assert(WRITE_M2L[v] == v + 897 && WRITE_LEN_M2L[v] == 14);
    } else if v == 177 {
        assert(WRITE_M2L[v] == v + 897 && WRITE_LEN_M2L[v] == 14);
    } else if v == 178 {
        assert(WRITE_M2L[v] == v + 897 && WRITE_LEN_M2L[v] == 14);
    } else if v == 179 {
        assert(WRITE_M2L[v] == v + 897 && WRITE_LEN_M2L[v] == 14);
    } else if v == 180 {
        assert(WRITE_M2L[v] == v + 897 && WRITE_LEN_M2L[v] == 14);
    } else if v == 181 {
        assert(WRITE_M2L[v] == v + 897 && WRITE_LEN_M2L[v] == 14);
    } else if v == 182 {
        assert(WRITE_M2L[v] == v + 897 && WRITE_LEN_M2L[v] == 14);
    } else if v == 183 {
        assert(WRITE_M2L[v] == v + 897 && WRITE_LEN_M2L[v] == 14);
    } else if v == 184 {
        assert(WRITE_M2L[v] == v + 897 && WRITE_LEN_M2L[v] == 14);
    } else if v == 185 {
        assert(WRITE_M2L[v] == v + 897 && WRITE_LEN_M2L[v] == 14);
    } else if v == 186 {
        assert(WRITE_M2L[v] == v + 897 && WRITE_LEN_M2L[v] == 14);
    } else if v == 187 {
        assert(WRITE_M2L[v] == v + 897 && WRITE_LEN_M2L[v] == 14);
    } else if v == 188 {
        assert(WRITE_M2L[v] == v + 897 && WRITE_LEN_M2L[v] == 14);
    } else if v == 189 {
        assert(WRITE_M2L[v] == v + 897 && WRITE_LEN_M2L[v] == 14);
    } else if v == 190 {
        assert(WRITE_M2L[v] == v + 897 && WRITE_LEN_M2L[v] == 14);
    } else if v == 191 {
        assert(WRITE_M2L[v] == v + 897 && WRITE_LEN_M2L[v] == 14);
    } else if v == 192 {
        assert(WRITE_M2L[v] == v + 897 && WRITE_LEN_M2L[v] == 14);
    } else if v == 193 {
        assert(WRITE_M2L[v] == v + 897 && WRITE_LEN_M2L[v] == 14);
    } else if v == 194 {
        assert(WRITE_M2L[v] == v + 897 && WRITE_LEN_M2L[v] == 14);
    } else if v == 195 {
        assert(WRITE_M2L[v] == v + 897 && WRITE_LEN_M2L[v] == 14);
    } else if v == 196 {
        assert(WRITE_M2L[v] == v + 897 && WRITE_LEN_M2L[v] == 14);
    } else if v == 197 {
        assert(WRITE_M2L[v] == v + 897 && WRITE_LEN_M2L[v] == 14);
    } else if v == 198 {
        assert(WRITE_M2L[v] == v + 897 && WRITE_LEN_M2L[v] == 14);
    } else if v == 199 {
        assert(WRITE_M2L[v] == v + 897 && WRITE_LEN_M2L[v] == 14);
    } else if v == 200 {
        assert(WRITE_M2L[v] == v + 897 && WRITE_LEN_M2L[v] == 14);
    } else if v == 201 {
        assert(WRITE_M2L[v] == v + 897 && WRITE_LEN_M2L[v] == 14);
    } else if v == 202 {
        assert(WRITE_M2L[v] == v + 897 && WRITE_LEN_M2L[v] == 14);
    } else if v == 203 {
        assert(WRITE_M2L[v] == v + 897 && WRITE_LEN_M2L[v] == 14);
    } else if v == 204 {
        assert(WRITE_M2L[v] == v + 897 && WRITE_LEN_M2L[v] == 14);
    } else if v == 205 {
        assert(WRITE_M2L[v] == v + 897 && WRITE_LEN_M2L[v] == 14);
    } else if v == 206 {
        assert(WRITE_M2L[v] == v + 897 && WRITE_LEN_M2L[v] == 14);
    } else if v == 207 {
        assert(WRITE_M2L[v] == v + 897 && WRITE_LEN_M2L[v] == 14);
    } else if v == 208 {
        assert(WRITE_M2L[v] == v + 897 && WRITE_LEN_M2L[v] == 14);
    } else if v == 209 {
        assert(WRITE_M2L[v] == v + 897 && WRITE_LEN_M2L[v] == 14);
    } else if v == 210 {
        assert(WRITE_M2L[v] == v + 897 && WRITE_LEN_M2L[v] == 14);
    } else if v == 211 {
        assert(WRITE_M2L[v] == v + 897 && WRITE_LEN_M2L[v] == 14);
    } else if v == 212 {
        assert(WRITE_M2L[v] == v + 897 && WRITE_LEN_M2L[v] == 14);
    } else if v == 213 {
        assert(WRITE_M2L[v] == v + 897 && WRITE_LEN_M2L[v] == 14);
    } else if v == 214 {
        assert(WRITE_M2L[v] == v + 897 && WRITE_LEN_M2L[v] == 14);
    } else if v == 215 {
        assert(WRITE_M2L[v] == v + 897 && WRITE_LEN_M2L[v] == 14);
    } else if v == 216 {
        assert(WRITE_M2L[v] == v + 897 && WRITE_LEN_M2L[v] == 14);
    } else if v == 217 {
        assert(WRITE_M2L[v] == v + 897 && WRITE_LEN_M2L[v] == 14);
    } else if v == 218 {
        assert(WRITE_M2L[v] == v + 897 && WRITE_LEN_M2L[v] == 14);
    } else if v == 219 {
        assert(WRITE_M2L[v] == v + 897 && WRITE_LEN_M2L[v] == 14);
    } else if v == 220 {
        assert(WRITE_M2L[v] == v + 897 && WRITE_LEN_M2L[v] == 14);
    } else if v == 221 {
        assert(WRITE_M2L[v] == v + 897 && WRITE_LEN_M2L[v] == 14);
    } else if v == 222 {
        assert(WRITE_M2L[v] == v + 897 && WRITE_LEN_M2L[v] == 14);
    } else if v == 223 {
        assert(WRITE_M2L[v] == v + 897 && WRITE_LEN_M2L[v] == 14);
    } else if v == 224 {
        assert(WRITE_M2L[v] == v + 897 && WRITE_LEN_M2L[v] == 14);
    } else if v == 225 {
        assert(WRITE_M2L[v] == v + 897 && WRITE_LEN_M2L[v] == 14);
    } else if v == 226 {
        assert(WRITE_M2L[v] == v + 897 && WRITE_LEN_M2L[v] == 14);
    } else if v == 227 {
        assert(WRITE_M2L[v] == v + 897 && WRITE_LEN_M2L[v] == 14);
    } else if v == 228 {
        assert(WRITE_M2L[v] == v + 897 && WRITE_LEN_M2L[v] == 14);
    } else if v == 229 {
        assert(WRITE_M2L[v] == v + 897 && WRITE_LEN_M2L[v] == 14);
    } else if v == 230 {
        assert(WRITE_M2L[v] == v + 897 && WRITE_LEN_M2L[v] == 14);
    } else if v == 231 {
        assert(WRITE_M2L[v] == v + 897 && WRITE_LEN_M2L[v] == 14);
    } else if v == 232 {
        assert(WRITE_M2L[v] == v + 897 && WRITE_LEN_M2L[v] == 14);
    } else if v == 233 {
        assert(WRITE_M2L[v] == v + 897 && WRITE_LEN_M2L[v] == 14);
    } else if v == 234 {
        assert(WRITE_M2L[v] == v + 897 && WRITE_LEN_M2L[v] == 14);
    } else if v == 235 {
        assert(WRITE_M2L[v] == v + 897 && WRITE_LEN_M2L[v] == 14);
    } else if v == 236 {
        assert(WRITE_M2L[v] == v + 897 && WRITE_LEN_M2L[v] == 14);
    } else if v == 237 {
        assert(WRITE_M2L[v] == v + 897 && WRITE_LEN_M2L[v] == 14);
    } else if v == 238 {
        assert(WRITE_M2L[v] == v + 897 && WRITE_LEN_M2L[v] == 14);
    } else if v == 239 {
        assert(WRITE_M2L[v] == v + 897 && WRITE_LEN_M2L[v] == 14);
    } else if v == 240 {
        assert(WRITE_M2L[v] == v + 897 && WRITE_LEN_M2L[v] == 14);
    } else if v == 241 {
        assert(WRITE_M2L[v] == v + 897 && WRITE_LEN_M2L[v] == 14);
    } else if v == 242 {
        assert(WRITE_M2L[v] == v + 897 && WRITE_LEN_M2L[v] == 14);
    } else if v == 243 {
        assert(WRITE_M2L[v] == v + 897 && WRITE_LEN_M2L[v] == 14);
    } else if v == 244 {
        assert(WRITE_M2L[v] == v + 897 && WRITE_LEN_M2L[v] == 14);
    } else if v == 245 {
        assert(WRITE_M2L[v] == v + 897 && WRITE_LEN_M2L[v] == 14);
    } else if v == 246 {
        assert(WRITE_M2L[v] == v + 897 && WRITE_LEN_M2L[v] == 14);
    } else if v == 247 {
        assert(WRITE_M2L[v] == v + 897 && WRITE_LEN_M2L[v] == 14);
    } else if v == 248 {
        assert(WRITE_M2L[v] == v + 897 && WRITE_LEN_M2L[v] == 14);
    } else if v == 249 {
        assert(WRITE_M2L[v] == v + 897 && WRITE_LEN_M2L[v] == 14);
    } else if v == 250 {
        assert(WRITE_M2L[v] == v + 897 && WRITE_LEN_M2L[v] == 14);
    } else if v == 251 {
        assert(WRITE_M2L[v] == v + 897 && WRITE_LEN_M2L[v] == 14);
    } else if v == 252 {
        assert(WRITE_M2L[v] == v + 897 && WRITE_LEN_M2L[v] == 14);
    } else if v == 253 {
        assert(WRITE_M2L[v] == v + 897 && WRITE_LEN_M2L[v] == 14);
    } else if v == 254 {
        assert(WRITE_M2L[v] == v + 897 && WRITE_LEN_M2L[v] == 14);
    }
}

proof fn lemma_write_group_m2l_8(v: int)
    requires
        255 <= v < 256,
    ensures
        WRITE_M2L[v] == v + 2049,
        WRITE_LEN_M2L[v] == 15,
{
    if v == 255 {
        assert(WRITE_M2L[v] == v + 2049 && WRITE_LEN_M2L[v] == 15);
    }
}

/// Every entry of the L2M write table is the code of its index.
pub proof fn lemma_write_table_l2m(v: int)
    requires
        0 <= v <= WRITE_MAX,
    ensures
        WRITE_LEN_L2M[v] <= 64,
        WRITE_L2M[v] < pow2(WRITE_LEN_L2M[v] as nat),
        field(WRITE_L2M[v] as nat, WRITE_LEN_L2M[v] as nat, false) == delta_code(v as nat, false),
{
    lemma2_to64();
    lemma2_to64_rest();
    lemma_delta_closed_form(v as nat);
    lemma_gamma_len(v as nat, false);
    if 0 <= v < 1 {
        lemma_log2_unique((v + 1) as nat, 0);
        lemma_log2_unique(1, 0);
        lemma_write_group_l2m_0(v);
        lemma_delta_values_at(v as nat, 0, 0, 1, 1, 2, 2);
        assert(delta_l2m_value(v as nat) == 1 + (0 + 1 - 1) * 2 + (v + 1 - 1) * 2);
        assert(delta_l2m_value(v as nat) == 1 + (v - 0) * 2);
        assert(WRITE_L2M[v] as nat == delta_l2m_value(v as nat));
        assert(WRITE_LEN_L2M[v] as nat == delta_code(v as nat, false).len());
    }
    if 1 <= v < 3 {
        lemma_log2_unique((v + 1) as nat, 1);
        lemma_log2_unique(2, 1);
        lemma_write_group_l2m_1(v);
        lemma_delta_values_at(v as nat, 1, 1, 2, 2, 4, 8);
        assert(delta_l2m_value(v as nat) == 2 + (1 + 1 - 2) * 4 + (v + 1 - 2) * 8);
        assert(delta_l2m_value(v as nat) == 2 + (v - 1) * 8);
        assert(WRITE_L2M[v] as nat == delta_l2m_value(v as nat));
        assert(WRITE_LEN_L2M[v] as nat == delta_code(v as nat, false).len());
    }
    if 3 <= v < 7 {
        lemma_log2_unique((v + 1) as nat, 2);
        lemma_log2_unique(3, 1);
        lemma_write_group_l2m_2(v);
        lemma_delta_values_at(v as nat, 2, 1, 4, 2, 4, 8);
        assert(delta_l2m_value(v as nat) == 2 + (2 + 1 - 2) * 4 + (v + 1 - 4) * 8);
        assert(delta_l2m_value(v as nat) == 6 + (v - 3) * 8);
        assert(WRITE_L2M[v] as nat == delta_l2m_value(v as nat));
        assert(WRITE_LEN_L2M[v] as nat == delta_code(v as nat, false).len());
    }
    if 7 <= v < 15 {
        lemma_log2_unique((v + 1) as nat, 3);
        lemma_log2_unique(4, 2);
        lemma_write_group_l2m_3(v);
        lemma_delta_values_at(v as nat, 3, 2, 8, 4, 8, 32);
        assert(delta_l2m_value(v as nat) == 4 + (3 + 1 - 4) * 8 + (v + 1 - 8) * 32);
        assert(delta_l2m_value(v as nat) == 4 + (v - 7) * 32);
        assert(WRITE_L2M[v] as nat == delta_l2m_value(v as nat));
        assert(WRITE_LEN_L2M[v] as nat == delta_code(v as nat, false).len());
    }
    if 15 <= v < 31 {
        lemma_log2_unique((v + 1) as nat, 4);
        lemma_log2_unique(5, 2);
        lemma_write_group_l2m_4(v);
        lemma_delta_values_at(v as nat, 4, 2, 16, 4, 8, 32);
        assert(delta_l2m_value(v as nat) == 4 + (4 + 1 - 4) * 8 + (v + 1 - 16) * 32);
        assert(delta_l2m_value(v as nat) == 12 + (v - 15) * 32);
        assert(WRITE_L2M[v] as nat == delta_l2m_value(v as nat));
        assert(WRITE_LEN_L2M[v] as nat == delta_code(v as nat, false).len());
    }
    if 31 <= v < 63 {
        lemma_log2_unique((v + 1) as nat, 5);
        lemma_log2_unique(6, 2);
        lemma_write_group_l2m_5(v);
        lemma_delta_values_at(v as nat, 5, 2, 32, 4, 8, 32);
        assert(delta_l2m_value(v as nat) == 4 + (5 + 1 - 4) * 8 + (v + 1 - 32) * 32);
        assert(delta_l2m_value(v as nat) == 20 + (v - 31) * 32);
        assert(WRITE_L2M[v] as nat == delta_l2m_value(v as nat));
        assert(WRITE_LEN_L2M[v] as nat == delta_code(v as nat, false).len());
    }
    if 63 <= v < 127 {
        lemma_log2_unique((v + 1) as nat, 6);
        lemma_log2_unique(7, 2);
        lemma_write_group_l2m_6(v);
        lemma_delta_values_at(v as nat, 6, 2, 64, 4, 8, 32);
        assert(delta_l2m_value(v as nat) == 4 + (6 + 1 - 4) * 8 + (v + 1 - 64) * 32);
        assert(delta_l2m_value(v as nat) == 28 + (v - 63) * 32);
        assert(WRITE_L2M[v] as nat == delta_l2m_value(v as nat));
        assert(WRITE_LEN_L2M[v] as nat == delta_code(v as nat, false).len());
    }
    if 127 <= v < 255 {
        lemma_log2_unique((v + 1) as nat, 7);
        lemma_log2_unique(8, 3);
        lemma_write_group_l2m_7(v);
        lemma_delta_values_at(v as nat, 7, 3, 128, 8, 16, 128);
        assert(delta_l2m_value(v as nat) == 8 + (7 + 1 - 8) * 16 + (v + 1 - 128) * 128);
        assert(delta_l2m_value(v as nat) == 8 + (v - 127) * 128);
        assert(WRITE_L2M[v] as nat == delta_l2m_value(v as nat));
        assert(WRITE_LEN_L2M[v] as nat == delta_code(v as nat, false).len());
    }
    if 255 <= v < 256 {
        lemma_log2_unique((v + 1) as nat, 8);
        lemma_log2_unique(9, 3);
        lemma_write_group_l2m_8(v);
        lemma_delta_values_at(v as nat, 8, 3, 256, 8, 16, 128);
        assert(delta_l2m_value(v as nat) == 8 + (8 + 1 - 8) * 16 + (v + 1 - 256) * 128);
        assert(delta_l2m_value(v as nat) == 24 + (v - 255) * 128);
        assert(WRITE_L2M[v] as nat == delta_l2m_value(v as nat));
        assert(WRITE_LEN_L2M[v] as nat == delta_code(v as nat, false).len());
    }
}

proof fn lemma_write_group_l2m_0(v: int)
    requires
        0 <= v < 1,
    ensures
        WRITE_L2M[v] == 1 + (v - 0) * 2,
        WRITE_LEN_L2M[v] == 1,
{
    if v == 0 {
        assert(WRITE_L2M[v] == 1 + (v - 0) * 2 && WRITE_LEN_L2M[v] == 1);
    }
}

proof fn lemma_write_group_l2m_1(v: int)
    requires
        1 <= v < 3,
    ensures
        WRITE_L2M[v] == 2 + (v - 1) * 8,
        WRITE_LEN_L2M[v] == 4,
{
    if v == 1 {
        assert(WRITE_L2M[v] == 2 + (v - 1) * 8 && WRITE_LEN_L2M[v] == 4);
    } else if v == 2 {
        assert(WRITE_L2M[v] == 2 + (v - 1) * 8 && WRITE_LEN_L2M[v] == 4);
    }
}

proof fn lemma_write_group_l2m_2(v: int)
    requires
        3 <= v < 7,
    ensures
        WRITE_L2M[v] == 6 + (v - 3) * 8,
        WRITE_LEN_L2M[v] == 5,
{
    if v == 3 {
        assert(WRITE_L2M[v] == 6 + (v - 3) * 8 && WRITE_LEN_L2M[v] == 5);
    } else if v == 4 {
        assert(WRITE_L2M[v] == 6 + (v - 3) * 8 && WRITE_LEN_L2M[v] == 5);
    } else if v == 5 {
        assert(WRITE_L2M[v] == 6 + (v - 3) * 8 && WRITE_LEN_L2M[v] == 5);
    } else if v == 6 {
        assert(WRITE_L2M[v] == 6 + (v - 3) * 8 && WRITE_LEN_L2M[v] == 5);
    }
}

proof fn lemma_write_group_l2m_3(v: int)
    requires
        7 <= v < 15,
    ensures
        WRITE_L2M[v] == 4 + (v - 7) * 32,
        WRITE_LEN_L2M[v] == 8,
{
    if v == 7 {
        assert(WRITE_L2M[v] == 4 + (v - 7) * 32 && WRITE_LEN_L2M[v] == 8);
    } else if v == 8 {
        assert(WRITE_L2M[v] == 4 + (v - 7) * 32 && WRITE_LEN_L2M[v] == 8);
    } else if v == 9 {
        assert(WRITE_L2M[v] == 4 + (v - 7) * 32 && WRITE_LEN_L2M[v] == 8);
    } else if v == 10 {
        assert(WRITE_L2M[v] == 4 + (v - 7) * 32 && WRITE_LEN_L2M[v] == 8);
    } else if v == 11 {
        assert(WRITE_L2M[v] == 4 + (v - 7) * 32 && WRITE_LEN_L2M[v] == 8);
    } else if v == 12 {
        assert(WRITE_L2M[v] == 4 + (v - 7) * 32 && WRITE_LEN_L2M[v] == 8);
    } else if v == 13 {
        assert(WRITE_L2M[v] == 4 + (v - 7) * 32 && WRITE_LEN_L2M[v] == 8);
    } else if v == 14 {
        assert(WRITE_L2M[v] == 4 + (v - 7) * 32 && WRITE_LEN_L2M[v] == 8);
    }
}

proof fn lemma_write_group_l2m_4(v: int)
    requires
        15 <= v < 31,
    ensures
        WRITE_L2M[v] == 12 + (v - 15) * 32,
        WRITE_LEN_L2M[v] == 9,
{
    if v == 15 {
        assert(WRITE_L2M[v] == 12 + (v - 15) * 32 && WRITE_LEN_L2M[v] == 9);
    } else if v == 16 {
        assert(WRITE_L2M[v] == 12 + (v - 15) * 32 && WRITE_LEN_L2M[v] == 9);
    } else if v == 17 {
        assert(WRITE_L2M[v] == 12 + (v - 15) * 32 && WRITE_LEN_L2M[v] == 9);
    } else if v == 18 {
        assert(WRITE_L2M[v] == 12 + (v - 15) * 32 && WRITE_LEN_L2M[v] == 9);
    } else if v == 19 {
        assert(WRITE_L2M[v] == 12 + (v - 15) * 32 && WRITE_LEN_L2M[v] == 9);
    } else if v == 20 {
        assert(WRITE_L2M[v] == 12 + (v - 15) * 32 && WRITE_LEN_L2M[v] == 9);
    } else if v == 21 {
        assert(WRITE_L2M[v] == 12 + (v - 15) * 32 && WRITE_LEN_L2M[v] == 9);
    } else if v == 22 {
        assert(WRITE_L2M[v] == 12 + (v - 15) * 32 && WRITE_LEN_L2M[v] == 9);
    } else if v == 23 {
        assert(WRITE_L2M[v] == 12 + (v - 15) * 32 && WRITE_LEN_L2M[v] == 9);
    } else if v == 24 {
        assert(WRITE_L2M[v] == 12 + (v - 15) * 32 && WRITE_LEN_L2M[v] == 9);
    } else if v == 25 {
        assert(WRITE_L2M[v] == 12 + (v - 15) * 32 && WRITE_LEN_L2M[v] == 9);
    } else if v == 26 {
        assert(WRITE_L2M[v] == 12 + (v - 15) * 32 && WRITE_LEN_L2M[v] == 9);
    } else if v == 27 {
        assert(WRITE_L2M[v] == 12 + (v - 15) * 32 && WRITE_LEN_L2M[v] == 9);
    } else if v == 28 {
        assert(WRITE_L2M[v] == 12 + (v - 15) * 32 && WRITE_LEN_L2M[v] == 9);
    } else if v == 29 {
        assert(WRITE_L2M[v] == 12 + (v - 15) * 32 && WRITE_LEN_L2M[v] == 9);
    } else if v == 30 {
        assert(WRITE_L2M[v] == 12 + (v - 15) * 32 && WRITE_LEN_L2M[v] == 9);
    }
}

proof fn lemma_write_group_l2m_5(v: int)
    requires
        31 <= v < 63,
    ensures
        WRITE_L2M[v] == 20 + (v - 31) * 32,
        WRITE_LEN_L2M[v] == 10,
{
    if v == 31 {
        assert(WRITE_L2M[v] == 20 + (v - 31) * 32 && WRITE_LEN_L2M[v] == 10);
    } else if v == 32 {
        assert(WRITE_L2M[v] == 20 + (v - 31) * 32 && WRITE_LEN_L2M[v] == 10);
    } else if v == 33 {
        assert(WRITE_L2M[v] == 20 + (v - 31) * 32 && WRITE_LEN_L2M[v] == 10);
    } else if v == 34 {
        assert(WRITE_L2M[v] == 20 + (v - 31) * 32 && WRITE_LEN_L2M[v] == 10);
    } else if v == 35 {
        assert(WRITE_L2M[v] == 20 + (v - 31) * 32 && WRITE_LEN_L2M[v] == 10);
    } else if v == 36 {
        assert(WRITE_L2M[v] == 20 + (v - 31) * 32 && WRITE_LEN_L2M[v] == 10);
    } else if v == 37 {
        assert(WRITE_L2M[v] == 20 + (v - 31) * 32 && WRITE_LEN_L2M[v] == 10);
    } else if v == 38 {
        assert(WRITE_L2M[v] == 20 + (v - 31) * 32 && WRITE_LEN_L2M[v] == 10);
    } else if v == 39 {
        assert(WRITE_L2M[v] == 20 + (v - 31) * 32 && WRITE_LEN_L2M[v] == 10);
    } else if v == 40 {
        assert(WRITE_L2M[v] == 20 + (v - 31) * 32 && WRITE_LEN_L2M[v] == 10);
    } else if v == 41 {
        assert(WRITE_L2M[v] == 20 + (v - 31) * 32 && WRITE_LEN_L2M[v] == 10);
    } else if v == 42 {
        assert(WRITE_L2M[v] == 20 + (v - 31) * 32 && WRITE_LEN_L2M[v] == 10);
    } else if v == 43 {
        assert(WRITE_L2M[v] == 20 + (v - 31) * 32 && WRITE_LEN_L2M[v] == 10);
    } else if v == 44 {
        assert(WRITE_L2M[v] == 20 + (v - 31) * 32 && WRITE_LEN_L2M[v] == 10);
    } else if v == 45 {
        assert(WRITE_L2M[v] == 20 + (v - 31) * 32 && WRITE_LEN_L2M[v] == 10);
    } else if v == 46 {
        assert(WRITE_L2M[v] == 20 + (v - 31) * 32 && WRITE_LEN_L2M[v] == 10);
    } else if v == 47 {
        assert(WRITE_L2M[v] == 20 + (v - 31) * 32 && WRITE_LEN_L2M[v] == 10);
    } else if v == 48 {
        assert(WRITE_L2M[v] == 20 + (v - 31) * 32 && WRITE_LEN_L2M[v] == 10);
    } else if v == 49 {
        assert(WRITE_L2M[v] == 20 + (v - 31) * 32 && WRITE_LEN_L2M[v] == 10);
    } else if v == 50 {
        assert(WRITE_L2M[v] == 20 + (v - 31) * 32 && WRITE_LEN_L2M[v] == 10);
    } else if v == 51 {
        assert(WRITE_L2M[v] == 20 + (v - 31) * 32 && WRITE_LEN_L2M[v] == 10);
    } else if v == 52 {
        assert(WRITE_L2M[v] == 20 + (v - 31) * 32 && WRITE_LEN_L2M[v] == 10);
    } else if v == 53 {
        assert(WRITE_L2M[v] == 20 + (v - 31) * 32 && WRITE_LEN_L2M[v] == 10);
    } else if v == 54 {
        assert(WRITE_L2M[v] == 20 + (v - 31) * 32 && WRITE_LEN_L2M[v] == 10);
    } else if v == 55 {
        assert(WRITE_L2M[v] == 20 + (v - 31) * 32 && WRITE_LEN_L2M[v] == 10);
    } else if v == 56 {
        assert(WRITE_L2M[v] == 20 + (v - 31) * 32 && WRITE_LEN_L2M[v] == 10);
    } else if v == 57 {
        assert(WRITE_L2M[v] == 20 + (v - 31) * 32 && WRITE_LEN_L2M[v] == 10);
    } else if v == 58 {
        assert(WRITE_L2M[v] == 20 + (v - 31) * 32 && WRITE_LEN_L2M[v] == 10);
    } else if v == 59 {
        assert(WRITE_L2M[v] == 20 + (v - 31) * 32 && WRITE_LEN_L2M[v] == 10);
    } else if v == 60 {
        assert(WRITE_L2M[v] == 20 + (v - 31) * 32 && WRITE_LEN_L2M[v] == 10);
    } else if v == 61 {
        assert(WRITE_L2M[v] == 20 + (v - 31) * 32 && WRITE_LEN_L2M[v] == 10);
    } else if v == 62 {
        assert(WRITE_L2M[v] == 20 + (v - 31) * 32 && WRITE_LEN_L2M[v] == 10);
    }
}

proof fn lemma_write_group_l2m_6(v: int)
    requires
        63 <= v < 127,
    ensures
        WRITE_L2M[v] == 28 + (v - 63) * 32,
        WRITE_LEN_L2M[v] == 11,
{
    if v == 63 {
        assert(WRITE_L2M[v] == 28 + (v - 63) * 32 && WRITE_LEN_L2M[v] == 11);
    } else if v == 64 {
        assert(WRITE_L2M[v] == 28 + (v - 63) * 32 && WRITE_LEN_L2M[v] == 11);
    } else if v == 65 {
        assert(WRITE_L2M[v] == 28 + (v - 63) * 32 && WRITE_LEN_L2M[v] == 11);
    } else if v == 66 {
        assert(WRITE_L2M[v] == 28 + (v - 63) * 32 && WRITE_LEN_L2M[v] == 11);
    } else if v == 67 {
        assert(WRITE_L2M[v] == 28 + (v - 63) * 32 && WRITE_LEN_L2M[v] == 11);
    } else if v == 68 {
        assert(WRITE_L2M[v] == 28 + (v - 63) * 32 && WRITE_LEN_L2M[v] == 11);
    } else if v == 69 {
        assert(WRITE_L2M[v] == 28 + (v - 63) * 32 && WRITE_LEN_L2M[v] == 11);
    } else if v == 70 {
        assert(WRITE_L2M[v] == 28 + (v - 63) * 32 && WRITE_LEN_L2M[v] == 11);
    } else if v == 71 {
        assert(WRITE_L2M[v] == 28 + (v - 63) * 32 && WRITE_LEN_L2M[v] == 11);
    } else if v == 72 {
        assert(WRITE_L2M[v] == 28 + (v - 63) * 32 && WRITE_LEN_L2M[v] == 11);
    } else if v == 73 {
        assert(WRITE_L2M[v] == 28 + (v - 63) * 32 && WRITE_LEN_L2M[v] == 11);
    } else if v == 74 {
        assert(WRITE_L2M[v] == 28 + (v - 63) * 32 && WRITE_LEN_L2M[v] == 11);
    } else if v == 75 {
        assert(WRITE_L2M[v] == 28 + (v - 63) * 32 && WRITE_LEN_L2M[v] == 11);
    } else if v == 76 {
        assert(WRITE_L2M[v] == 28 + (v - 63) * 32 && WRITE_LEN_L2M[v] == 11);
    } else if v == 77 {
        assert(WRITE_L2M[v] == 28 + (v - 63) * 32 && WRITE_LEN_L2M[v] == 11);
    } else if v == 78 {
        assert(WRITE_L2M[v] == 28 + (v - 63) * 32 && WRITE_LEN_L2M[v] == 11);
    } else if v == 79 {
        assert(WRITE_L2M[v] == 28 + (v - 63) * 32 && WRITE_LEN_L2M[v] == 11);
    } else if v == 80 {
        assert(WRITE_L2M[v] == 28 + (v - 63) * 32 && WRITE_LEN_L2M[v] == 11);
    } else if v == 81 {
        assert(WRITE_L2M[v] == 28 + (v - 63) * 32 && WRITE_LEN_L2M[v] == 11);
    } else if v == 82 {
        assert(WRITE_L2M[v] == 28 + (v - 63) * 32 && WRITE_LEN_L2M[v] == 11);
    } else if v == 83 {
        assert(WRITE_L2M[v] == 28 + (v - 63) * 32 && WRITE_LEN_L2M[v] == 11);
    } else if v == 84 {
        assert(WRITE_L2M[v] == 28 + (v - 63) * 32 && WRITE_LEN_L2M[v] == 11);
    } else if v == 85 {
        assert(WRITE_L2M[v] == 28 + (v - 63) * 32 && WRITE_LEN_L2M[v] == 11);
    } else if v == 86 {
        assert(WRITE_L2M[v] == 28 + (v - 63) * 32 && WRITE_LEN_L2M[v] == 11);
    } else if v == 87 {
        assert(WRITE_L2M[v] == 28 + (v - 63) * 32 && WRITE_LEN_L2M[v] == 11);
    } else if v == 88 {
        assert(WRITE_L2M[v] == 28 + (v - 63) * 32 && WRITE_LEN_L2M[v] == 11);
    } else if v == 89 {
        assert(WRITE_L2M[v] == 28 + (v - 63) * 32 && WRITE_LEN_L2M[v] == 11);
    } else if v == 90 {
        assert(WRITE_L2M[v] == 28 + (v - 63) * 32 && WRITE_LEN_L2M[v] == 11);
    } else if v == 91 {
        assert(WRITE_L2M[v] == 28 + (v - 63) * 32 && WRITE_LEN_L2M[v] == 11);
    } else if v == 92 {
        assert(WRITE_L2M[v] == 28 + (v - 63) * 32 && WRITE_LEN_L2M[v] == 11);
    } else if v == 93 {
        assert(WRITE_L2M[v] == 28 + (v - 63) * 32 && WRITE_LEN_L2M[v] == 11);
    } else if v == 94 {
        assert(WRITE_L2M[v] == 28 + (v - 63) * 32 && WRITE_LEN_L2M[v] == 11);
    } else if v == 95 {
        assert(WRITE_L2M[v] == 28 + (v - 63) * 32 && WRITE_LEN_L2M[v] == 11);
    } else if v == 96 {
        assert(WRITE_L2M[v] == 28 + (v - 63) * 32 && WRITE_LEN_L2M[v] == 11);
    } else if v == 97 {
        assert(WRITE_L2M[v] == 28 + (v - 63) * 32 && WRITE_LEN_L2M[v] == 11);
    } else if v == 98 {
        assert(WRITE_L2M[v] == 28 + (v - 63) * 32 && WRITE_LEN_L2M[v] == 11);
    } else if v == 99 {
        assert(WRITE_L2M[v] == 28 + (v - 63) * 32 && WRITE_LEN_L2M[v] == 11);
    } else if v == 100 {
        assert(WRITE_L2M[v] == 28 + (v - 63) * 32 && WRITE_LEN_L2M[v] == 11);
    } else if v == 101 {
        assert(WRITE_L2M[v] == 28 + (v - 63) * 32 && WRITE_LEN_L2M[v] == 11);
    } else if v == 102 {
        assert(WRITE_L2M[v] == 28 + (v - 63) * 32 && WRITE_LEN_L2M[v] == 11);
    } else if v == 103 {
        assert(WRITE_L2M[v] == 28 + (v - 63) * 32 && WRITE_LEN_L2M[v] == 11);
    } else if v == 104 {
        assert(WRITE_L2M[v] == 28 + (v - 63) * 32 && WRITE_LEN_L2M[v] == 11);
    } else if v == 105 {
        assert(WRITE_L2M[v] == 28 + (v - 63) * 32 && WRITE_LEN_L2M[v] == 11);
    } else if v == 106 {
        assert(WRITE_L2M[v] == 28 + (v - 63) * 32 && WRITE_LEN_L2M[v] == 11);
    } else if v == 107 {
        assert(WRITE_L2M[v] == 28 + (v - 63) * 32 && WRITE_LEN_L2M[v] == 11);
    } else if v == 108 {
        assert(WRITE_L2M[v] == 28 + (v - 63) * 32 && WRITE_LEN_L2M[v] == 11);
    } else if v == 109 {
        assert(WRITE_L2M[v] == 28 + (v - 63) * 32 && WRITE_LEN_L2M[v] == 11);
    } else if v == 110 {
        assert(WRITE_L2M[v] == 28 + (v - 63) * 32 && WRITE_LEN_L2M[v] == 11);
    } else if v == 111 {
        assert(WRITE_L2M[v] == 28 + (v - 63) * 32 && WRITE_LEN_L2M[v] == 11);
    } else if v == 112 {
        assert(WRITE_L2M[v] == 28 + (v - 63) * 32 && WRITE_LEN_L2M[v] == 11);
    } else if v == 113 {
        assert(WRITE_L2M[v] == 28 + (v - 63) * 32 && WRITE_LEN_L2M[v] == 11);
    } else if v == 114 {
        assert(WRITE_L2M[v] == 28 + (v - 63) * 32 && WRITE_LEN_L2M[v] == 11);
    } else if v == 115 {
        assert(WRITE_L2M[v] == 28 + (v - 63) * 32 && WRITE_LEN_L2M[v] == 11);
    } else if v == 116 {
        assert(WRITE_L2M[v] == 28 + (v - 63) * 32 && WRITE_LEN_L2M[v] == 11);
    } else if v == 117 {
        assert(WRITE_L2M[v] == 28 + (v - 63) * 32 && WRITE_LEN_L2M[v] == 11);
    } else if v == 118 {
        assert(WRITE_L2M[v] == 28 + (v - 63) * 32 && WRITE_LEN_L2M[v] == 11);
    } else if v == 119 {
        assert(WRITE_L2M[v] == 28 + (v - 63) * 32 && WRITE_LEN_L2M[v] == 11);
    } else if v == 120 {
        assert(WRITE_L2M[v] == 28 + (v - 63) * 32 && WRITE_LEN_L2M[v] == 11);
    } else if v == 121 {
        assert(WRITE_L2M[v] == 28 + (v - 63) * 32 && WRITE_LEN_L2M[v] == 11);
    } else if v == 122 {
        assert(WRITE_L2M[v] == 28 + (v - 63) * 32 && WRITE_LEN_L2M[v] == 11);
    } else if v == 123 {
        assert(WRITE_L2M[v] == 28 + (v - 63) * 32 && WRITE_LEN_L2M[v] == 11);
    } else if v == 124 {
        assert(WRITE_L2M[v] == 28 + (v - 63) * 32 && WRITE_LEN_L2M[v] == 11);
    } else if v == 125 {
        assert(WRITE_L2M[v] == 28 + (v - 63) * 32 && WRITE_LEN_L2M[v] == 11);
    } else if v == 126 {
        assert(WRITE_L2M[v] == 28 + (v - 63) * 32 && WRITE_LEN_L2M[v] == 11);
    }
}

proof fn lemma_write_group_l2m_7(v: int)
    requires
        127 <= v < 255,
    ensures
        WRITE_L2M[v] == 8 + (v - 127) * 128,
        WRITE_LEN_L2M[v] == 14,
{
    if v == 127 {
        assert(WRITE_L2M[v] == 8 + (v - 127) * 128 && WRITE_LEN_L2M[v] == 14);
    } else if v == 128 {
        assert(WRITE_L2M[v] == 8 + (v - 127) * 128 && WRITE_LEN_L2M[v] == 14);
    } else if v == 129 {
        assert(WRITE_L2M[v] == 8 + (v - 127) * 128 && WRITE_LEN_L2M[v] == 14);
    } else if v == 130 {
        assert(WRITE_L2M[v] == 8 + (v - 127) * 128 && WRITE_LEN_L2M[v] == 14);
    } else if v == 131 {
        assert(WRITE_L2M[v] == 8 + (v - 127) * 128 && WRITE_LEN_L2M[v] == 14);
    } else if v == 132 {
        assert(WRITE_L2M[v] == 8 + (v - 127) * 128 && WRITE_LEN_L2M[v] == 14);
    } else if v == 133 {
        assert(WRITE_L2M[v] == 8 + (v - 127) * 128 && WRITE_LEN_L2M[v] == 14);
    } else if v == 134 {
        assert(WRITE_L2M[v] == 8 + (v - 127) * 128 && WRITE_LEN_L2M[v] == 14);
    } else if v == 135 {
        assert(WRITE_L2M[v] == 8 + (v - 127) * 128 && WRITE_LEN_L2M[v] == 14);
    } else if v == 136 {
        assert(WRITE_L2M[v] == 8 + (v - 127) * 128 && WRITE_LEN_L2M[v] == 14);
    } else if v == 137 {
        assert(WRITE_L2M[v] == 8 + (v - 127) * 128 && WRITE_LEN_L2M[v] == 14);
    } else if v == 138 {
        assert(WRITE_L2M[v] == 8 + (v - 127) * 128 && WRITE_LEN_L2M[v] == 14);
    } else if v == 139 {
        assert(WRITE_L2M[v] == 8 + (v - 127) * 128 && WRITE_LEN_L2M[v] == 14);
    } else if v == 140 {
        assert(WRITE_L2M[v] == 8 + (v - 127) * 128 && WRITE_LEN_L2M[v] == 14);
    } else if v == 141 {
        assert(WRITE_L2M[v] == 8 + (v - 127) * 128 && WRITE_LEN_L2M[v] == 14);
    } else if v == 142 {
        assert(WRITE_L2M[v] == 8 + (v - 127) * 128 && WRITE_LEN_L2M[v] == 14);
    } else if v == 143 {
        assert(WRITE_L2M[v] == 8 + (v - 127) * 128 && WRITE_LEN_L2M[v] == 14);
    } else if v == 144 {
        assert(WRITE_L2M[v] == 8 + (v - 127) * 128 && WRITE_LEN_L2M[v] == 14);
    } else if v == 145 {
        assert(WRITE_L2M[v] == 8 + (v - 127) * 128 && WRITE_LEN_L2M[v] == 14);
    } else if v == 146 {
        assert(WRITE_L2M[v] == 8 + (v - 127) * 128 && WRITE_LEN_L2M[v] == 14);
    } else if v == 147 {
        assert(WRITE_L2M[v] == 8 + (v - 127) * 128 && WRITE_LEN_L2M[v] == 14);
    } else if v == 148 {
        assert(WRITE_L2M[v] == 8 + (v - 127) * 128 && WRITE_LEN_L2M[v] == 14);
    } else if v == 149 {
        assert(WRITE_L2M[v] == 8 + (v - 127) * 128 && WRITE_LEN_L2M[v] == 14);
    } else if v == 150 {
        assert(WRITE_L2M[v] == 8 + (v - 127) * 128 && WRITE_LEN_L2M[v] == 14);
    } else if v == 151 {
        assert(WRITE_L2M[v] == 8 + (v - 127) * 128 && WRITE_LEN_L2M[v] == 14);
    } else if v == 152 {
        assert(WRITE_L2M[v] == 8 + (v - 127) * 128 && WRITE_LEN_L2M[v] == 14);
    } else if v == 153 {
        assert(WRITE_L2M[v] == 8 + (v - 127) * 128 && WRITE_LEN_L2M[v] == 14);
    } else if v == 154 {
        assert(WRITE_L2M[v] == 8 + (v - 127) * 128 && WRITE_LEN_L2M[v] == 14);
    } else if v == 155 {
        assert(WRITE_L2M[v] == 8 + (v - 127) * 128 && WRITE_LEN_L2M[v] == 14);
    } else if v == 156 {
        assert(WRITE_L2M[v] == 8 + (v - 127) * 128 && WRITE_LEN_L2M[v] == 14);
    } else if v == 157 {
        assert(WRITE_L2M[v] == 8 + (v - 127) * 128 && WRITE_LEN_L2M[v] == 14);
    } else if v == 158 {
        assert(WRITE_L2M[v] == 8 + (v - 127) * 128 && WRITE_LEN_L2M[v] == 14);
    } else if v == 159 {
        assert(WRITE_L2M[v] == 8 + (v - 127) * 128 && WRITE_LEN_L2M[v] == 14);
    } else if v == 160 {
        assert(WRITE_L2M[v] == 8 + (v - 127) * 128 && WRITE_LEN_L2M[v] == 14);
    } else if v == 161 {
        assert(WRITE_L2M[v] == 8 + (v - 127) * 128 && WRITE_LEN_L2M[v] == 14);
    } else if v == 162 {
        assert(WRITE_L2M[v] == 8 + (v - 127) * 128 && WRITE_LEN_L2M[v] == 14);
    } else if v == 163 {
        assert(WRITE_L2M[v] == 8 + (v - 127) * 128 && WRITE_LEN_L2M[v] == 14);
    } else if v == 164 {
        assert(WRITE_L2M[v] == 8 + (v - 127) * 128 && WRITE_LEN_L2M[v] == 14);
    } else if v == 165 {
        assert(WRITE_L2M[v] == 8 + (v - 127) * 128 && WRITE_LEN_L2M[v] == 14);
    } else if v == 166 {
        assert(WRITE_L2M[v] == 8 + (v - 127) * 128 && WRITE_LEN_L2M[v] == 14);
    } else if v == 167 {
        assert(WRITE_L2M[v] == 8 + (v - 127) * 128 && WRITE_LEN_L2M[v] == 14);
    } else if v == 168 {
        assert(WRITE_L2M[v] == 8 + (v - 127) * 128 && WRITE_LEN_L2M[v] == 14);
    } else if v == 169 {
        assert(WRITE_L2M[v] == 8 + (v - 127) * 128 && WRITE_LEN_L2M[v] == 14);
    } else if v == 170 {
        assert(WRITE_L2M[v] == 8 + (v - 127) * 128 && WRITE_LEN_L2M[v] == 14);
    } else if v == 171 {
        assert(WRITE_L2M[v] == 8 + (v - 127) * 128 && WRITE_LEN_L2M[v] == 14);
    } else if v == 172 {
        assert(WRITE_L2M[v] == 8 + (v - 127) * 128 && WRITE_LEN_L2M[v] == 14);
    } else if v == 173 {
        assert(WRITE_L2M[v] == 8 + (v - 127) * 128 && WRITE_LEN_L2M[v] == 14);
    } else if v == 174 {
        assert(WRITE_L2M[v] == 8 + (v - 127) * 128 && WRITE_LEN_L2M[v] == 14);
    } else if v == 175 {
        assert(WRITE_L2M[v] == 8 + (v - 127) * 128 && WRITE_LEN_L2M[v] == 14);
    } else if v == 176 {
        assert(WRITE_L2M[v] == 8 + (v - 127) * 128 && WRITE_LEN_L2M[v] == 14);
    } else if v == 177 {
        assert(WRITE_L2M[v] == 8 + (v - 127) * 128 && WRITE_LEN_L2M[v] == 14);
    } else if v == 178 {
        assert(WRITE_L2M[v] == 8 + (v - 127) * 128 && WRITE_LEN_L2M[v] == 14);
    } else if v == 179 {
        assert(WRITE_L2M[v] == 8 + (v - 127) * 128 && WRITE_LEN_L2M[v] == 14);
    } else if v == 180 {
        assert(WRITE_L2M[v] == 8 + (v - 127) * 128 && WRITE_LEN_L2M[v] == 14);
    } else if v == 181 {
        assert(WRITE_L2M[v] == 8 + (v - 127) * 128 && WRITE_LEN_L2M[v] == 14);
    } else if v == 182 {
        assert(WRITE_L2M[v] == 8 + (v - 127) * 128 && WRITE_LEN_L2M[v] == 14);
    } else if v == 183 {
        assert(WRITE_L2M[v] == 8 + (v - 127) * 128 && WRITE_LEN_L2M[v] == 14);
    } else if v == 184 {
        assert(WRITE_L2M[v] == 8 + (v - 127) * 128 && WRITE_LEN_L2M[v] == 14);
    } else if v == 185 {
        assert(WRITE_L2M[v] == 8 + (v - 127) * 128 && WRITE_LEN_L2M[v] == 14);
    } else if v == 186 {
        assert(WRITE_L2M[v] == 8 + (v - 127) * 128 && WRITE_LEN_L2M[v] == 14);
    } else if v == 187 {
        assert(WRITE_L2M[v] == 8 + (v - 127) * 128 && WRITE_LEN_L2M[v] == 14);
    } else if v == 188 {
        assert(WRITE_L2M[v] == 8 + (v - 127) * 128 && WRITE_LEN_L2M[v] == 14);
    } else if v == 189 {
        assert(WRITE_L2M[v] == 8 + (v - 127) * 128 && WRITE_LEN_L2M[v] == 14);
    } else if v == 190 {
        assert(WRITE_L2M[v] == 8 + (v - 127) * 128 && WRITE_LEN_L2M[v] == 14);
    } else if v == 191 {
        assert(WRITE_L2M[v] == 8 + (v - 127) * 128 && WRITE_LEN_L2M[v] == 14);
    } else if v == 192 {
        assert(WRITE_L2M[v] == 8 + (v - 127) * 128 && WRITE_LEN_L2M[v] == 14);
    } else if v == 193 {
        assert(WRITE_L2M[v] == 8 + (v - 127) * 128 && WRITE_LEN_L2M[v] == 14);
    } else if v == 194 {
        assert(WRITE_L2M[v] == 8 + (v - 127) * 128 && WRITE_LEN_L2M[v] == 14);
    } else if v == 195 {
        assert(WRITE_L2M[v] == 8 + (v - 127) * 128 && WRITE_LEN_L2M[v] == 14);
    } else if v == 196 {
        assert(WRITE_L2M[v] == 8 + (v - 127) * 128 && WRITE_LEN_L2M[v] == 14);
    } else if v == 197 {
        assert(WRITE_L2M[v] == 8 + (v - 127) * 128 && WRITE_LEN_L2M[v] == 14);
    } else if v == 198 {
        assert(WRITE_L2M[v] == 8 + (v - 127) * 128 && WRITE_LEN_L2M[v] == 14);
    } else if v == 199 {
        assert(WRITE_L2M[v] == 8 + (v - 127) * 128 && WRITE_LEN_L2M[v] == 14);
    } else if v == 200 {
        assert(WRITE_L2M[v] == 8 + (v - 127) * 128 && WRITE_LEN_L2M[v] == 14);
    } else if v == 201 {
        assert(WRITE_L2M[v] == 8 + (v - 127) * 128 && WRITE_LEN_L2M[v] == 14);
    } else if v == 202 {
        assert(WRITE_L2M[v] == 8 + (v - 127) * 128 && WRITE_LEN_L2M[v] == 14);
    } else if v == 203 {
        assert(WRITE_L2M[v] == 8 + (v - 127) * 128 && WRITE_LEN_L2M[v] == 14);
    } else if v == 204 {
        assert(WRITE_L2M[v] == 8 + (v - 127) * 128 && WRITE_LEN_L2M[v] == 14);
    } else if v == 205 {
        assert(WRITE_L2M[v] == 8 + (v - 127) * 128 && WRITE_LEN_L2M[v] == 14);
    } else if v == 206 {
        assert(WRITE_L2M[v] == 8 + (v - 127) * 128 && WRITE_LEN_L2M[v] == 14);
    } else if v == 207 {
        assert(WRITE_L2M[v] == 8 + (v - 127) * 128 && WRITE_LEN_L2M[v] == 14);
    } else if v == 208 {
        assert(WRITE_L2M[v] == 8 + (v - 127) * 128 && WRITE_LEN_L2M[v] == 14);
    } else if v == 209 {
        assert(WRITE_L2M[v] == 8 + (v - 127) * 128 && WRITE_LEN_L2M[v] == 14);
    } else if v == 210 {
        assert(WRITE_L2M[v] == 8 + (v - 127) * 128 && WRITE_LEN_L2M[v] == 14);
    } else if v == 211 {
        assert(WRITE_L2M[v] == 8 + (v - 127) * 128 && WRITE_LEN_L2M[v] == 14);
    } else if v == 212 {
        assert(WRITE_L2M[v] == 8 + (v - 127) * 128 && WRITE_LEN_L2M[v] == 14);
    } else if v == 213 {
        assert(WRITE_L2M[v] == 8 + (v - 127) * 128 && WRITE_LEN_L2M[v] == 14);
    } else if v == 214 {
        assert(WRITE_L2M[v] == 8 + (v - 127) * 128 && WRITE_LEN_L2M[v] == 14);
    } else if v == 215 {
        assert(WRITE_L2M[v] == 8 + (v - 127) * 128 && WRITE_LEN_L2M[v] == 14);
    } else if v == 216 {
        assert(WRITE_L2M[v] == 8 + (v - 127) * 128 && WRITE_LEN_L2M[v] == 14);
    } else if v == 217 {
        assert(WRITE_L2M[v] == 8 + (v - 127) * 128 && WRITE_LEN_L2M[v] == 14);
    } else if v == 218 {
        assert(WRITE_L2M[v] == 8 + (v - 127) * 128 && WRITE_LEN_L2M[v] == 14);
    } else if v == 219 {
        assert(WRITE_L2M[v] == 8 + (v - 127) * 128 && WRITE_LEN_L2M[v] == 14);
    } else if v == 220 {
        assert(WRITE_L2M[v] == 8 + (v - 127) * 128 && WRITE_LEN_L2M[v] == 14);
    } else if v == 221 {
        assert(WRITE_L2M[v] == 8 + (v - 127) * 128 && WRITE_LEN_L2M[v] == 14);
    } else if v == 222 {
        assert(WRITE_L2M[v] == 8 + (v - 127) * 128 && WRITE_LEN_L2M[v] == 14);
    } else if v == 223 {
        assert(WRITE_L2M[v] == 8 + (v - 127) * 128 && WRITE_LEN_L2M[v] == 14);
    } else if v == 224 {
        assert(WRITE_L2M[v] == 8 + (v - 127) * 128 && WRITE_LEN_L2M[v] == 14);
    } else if v == 225 {
        assert(WRITE_L2M[v] == 8 + (v - 127) * 128 && WRITE_LEN_L2M[v] == 14);
    } else if v == 226 {
        assert(WRITE_L2M[v] == 8 + (v - 127) * 128 && WRITE_LEN_L2M[v] == 14);
    } else if v == 227 {
        assert(WRITE_L2M[v] == 8 + (v - 127) * 128 && WRITE_LEN_L2M[v] == 14);
    } else if v == 228 {
        assert(WRITE_L2M[v] == 8 + (v - 127) * 128 && WRITE_LEN_L2M[v] == 14);
    } else if v == 229 {
        assert(WRITE_L2M[v] == 8 + (v - 127) * 128 && WRITE_LEN_L2M[v] == 14);
    } else if v == 230 {
        assert(WRITE_L2M[v] == 8 + (v - 127) * 128 && WRITE_LEN_L2M[v] == 14);
    } else if v == 231 {
        assert(WRITE_L2M[v] == 8 + (v - 127) * 128 && WRITE_LEN_L2M[v] == 14);
    } else if v == 232 {
        assert(WRITE_L2M[v] == 8 + (v - 127) * 128 && WRITE_LEN_L2M[v] == 14);
    } else if v == 233 {
        assert(WRITE_L2M[v] == 8 + (v - 127) * 128 && WRITE_LEN_L2M[v] == 14);
    } else if v == 234 {
        assert(WRITE_L2M[v] == 8 + (v - 127) * 128 && WRITE_LEN_L2M[v] == 14);
    } else if v == 235 {
        assert(WRITE_L2M[v] == 8 + (v - 127) * 128 && WRITE_LEN_L2M[v] == 14);
    } else if v == 236 {
        assert(WRITE_L2M[v] == 8 + (v - 127) * 128 && WRITE_LEN_L2M[v] == 14);
    } else if v == 237 {
        assert(WRITE_L2M[v] == 8 + (v - 127) * 128 && WRITE_LEN_L2M[v] == 14);
    } else if v == 238 {
        assert(WRITE_L2M[v] == 8 + (v - 127) * 128 && WRITE_LEN_L2M[v] == 14);
    } else if v == 239 {
        assert(WRITE_L2M[v] == 8 + (v - 127) * 128 && WRITE_LEN_L2M[v] == 14);
    } else if v == 240 {
        assert(WRITE_L2M[v] == 8 + (v - 127) * 128 && WRITE_LEN_L2M[v] == 14);
    } else if v == 241 {
        assert(WRITE_L2M[v] == 8 + (v - 127) * 128 && WRITE_LEN_L2M[v] == 14);
    } else if v == 242 {
        assert(WRITE_L2M[v] == 8 + (v - 127) * 128 && WRITE_LEN_L2M[v] == 14);
    } else if v == 243 {
        assert(WRITE_L2M[v] == 8 + (v - 127) * 128 && WRITE_LEN_L2M[v] == 14);
    } else if v == 244 {
        assert(WRITE_L2M[v] == 8 + (v - 127) * 128 && WRITE_LEN_L2M[v] == 14);
    } else if v == 245 {
        assert(WRITE_L2M[v] == 8 + (v - 127) * 128 && WRITE_LEN_L2M[v] == 14);
    } else if v == 246 {
        assert(WRITE_L2M[v] == 8 + (v - 127) * 128 && WRITE_LEN_L2M[v] == 14);
    } else if v == 247 {
        assert(WRITE_L2M[v] == 8 + (v - 127) * 128 && WRITE_LEN_L2M[v] == 14);
    } else if v == 248 {
        assert(WRITE_L2M[v] == 8 + (v - 127) * 128 && WRITE_LEN_L2M[v] == 14);
    } else if v == 249 {
        assert(WRITE_L2M[v] == 8 + (v - 127) * 128 && WRITE_LEN_L2M[v] == 14);
    } else if v == 250 {
        assert(WRITE_L2M[v] == 8 + (v - 127) * 128 && WRITE_LEN_L2M[v] == 14);
    } else if v == 251 {
        assert(WRITE_L2M[v] == 8 + (v - 127) * 128 && WRITE_LEN_L2M[v] == 14);
    } else if v == 252 {
        assert(WRITE_L2M[v] == 8 + (v - 127) * 128 && WRITE_LEN_L2M[v] == 14);
    } else if v == 253 {
        assert(WRITE_L2M[v] == 8 + (v - 127) * 128 && WRITE_LEN_L2M[v] == 14);
    } else if v == 254 {
        assert(WRITE_L2M[v] == 8 + (v - 127) * 128 && WRITE_LEN_L2M[v] == 14);
    }
}

proof fn lemma_write_group_l2m_8(v: int)
    requires
        255 <= v < 256,
    ensures
        WRITE_L2M[v] == 24 + (v - 255) * 128,
        WRITE_LEN_L2M[v] == 15,
{
    if v == 255 {
        assert(WRITE_L2M[v] == 24 + (v - 255) * 128 && WRITE_LEN_L2M[v] == 15);
    }
}

/// Every entry of the length table is the length of the code of its index.
pub proof fn lemma_len_table(v: int)
    requires
        0 <= v <= WRITE_MAX,
    ensures
        LEN[v] == delta_code(v as nat, true).len(),
{
    reveal_with_fuel(log2, 10);
    lemma_gamma_len(v as nat, true);
    lemma2_to64();
    if 0 <= v < 1 {
        lemma_log2_unique((v + 1) as nat, 0);
    }
    if 1 <= v < 3 {
        lemma_log2_unique((v + 1) as nat, 1);
    }
    if 3 <= v < 7 {
        lemma_log2_unique((v + 1) as nat, 2);
    }
    if 7 <= v < 15 {
        lemma_log2_unique((v + 1) as nat, 3);
    }
    if 15 <= v < 31 {
        lemma_log2_unique((v + 1) as nat, 4);
    }
    if 31 <= v < 63 {
        lemma_log2_unique((v + 1) as nat, 5);
    }
    if 63 <= v < 127 {
        lemma_log2_unique((v + 1) as nat, 6);
    }
    if 127 <= v < 255 {
        lemma_log2_unique((v + 1) as nat, 7);
    }
    if 255 <= v < 256 {
        lemma_log2_unique((v + 1) as nat, 8);
    }
}

/// The table entry for a window of `READ_BITS` bits: the value of the unary
/// code that starts it and that code's length, or `None` where the window
/// holds no whole code.
pub fn read_entry(window: u32, m2l: bool) -> (r: Option<(u64, usize)>)
    requires
        window < 32,
    ensures
        r is Some ==> r->Some_0.0 < 256,
        r is Some ==> r->Some_0.1 <= 5 && delta_code(r->Some_0.0 as nat, m2l).len() == r->Some_0.1 && field(window as nat, 5, m2l).subrange(
            0,
            r->Some_0.1 as int,
        ) == delta_code(r->Some_0.0 as nat, m2l),
        r is None <==> !starts_code(field(window as nat, 5, m2l)),
{
    let i = window as usize;
    let (value, len) = if m2l {
        (READ_M2L[i], READ_LEN_M2L[i])
    } else {
        (READ_L2M[i], READ_LEN_L2M[i])
    };
    proof {
        if m2l {
            lemma_read_table_m2l(i as int);
        } else {
            lemma_read_table_l2m(i as int);
        }
    }
    if len == MISSING_VALUE_LEN {
        None
    } else {
        proof {
            if m2l {
                lemma_read_table_m2l(i as int);
            } else {
                lemma_read_table_l2m(i as int);
            }
        }
        Some((value as u64, len as usize))
    }
}

/// The table entry for `value`: its δ code, right-justified, and the
/// code's length, or `None` where `value` is beyond the table.
pub fn write_entry(value: u64, m2l: bool) -> (r: Option<(u64, usize)>)
    ensures
        r is None <==> value > WRITE_MAX,
        r is Some ==> r->Some_0.1 <= 64 && r->Some_0.0 < pow2(
            r->Some_0.1 as nat,
        ) && field(r->Some_0.0 as nat, r->Some_0.1 as nat, m2l) == delta_code(value as nat, m2l),
{
    if value <= WRITE_MAX {
        let i = value as usize;
        let (bits, len) = if m2l {
            (WRITE_M2L[i], WRITE_LEN_M2L[i])
        } else {
            (WRITE_L2M[i], WRITE_LEN_L2M[i])
        };
        proof {
            if m2l {
                lemma_write_table_m2l(i as int);
            } else {
                lemma_write_table_l2m(i as int);
            }
        }
        Some((bits as u64, len as usize))
    } else {
        None
    }
}
/// Decodes a δ code through the read table where the next window holds a
/// whole one; otherwise returns `None` and leaves the position alone.
pub fn read_table<BO: BitOrder, B: BitRead<BO>>(backend: &mut B) -> (r: Result<Option<u64>, BitStreamError>)
    requires
        old(backend).ready(),
    ensures
        final(backend).ready(),
        final(backend).stream() == old(backend).stream(),
        r is Ok,
        r == Ok::<Option<u64>, BitStreamError>(None) ==> final(backend).position() == old(backend).position(),
        r is Ok && r->Ok_0 is Some ==> code_at(
            old(backend).stream(),
            old(backend).position() as int,
            delta_code(r->Ok_0->Some_0 as nat, BO::spec_m2l()),
        ) && final(backend).position() == old(backend).position() + delta_code(
            r->Ok_0->Some_0 as nat,
            BO::spec_m2l(),
        ).len(),
        r is Ok && r->Ok_0 is Some ==> r->Ok_0->Some_0 < 256,
        old(backend).position() + READ_BITS <= old(backend).stream().len() && code_in_window(
            old(backend).stream(),
            old(backend).position() as int,
            BO::spec_m2l(),
        ) ==> r->Ok_0 is Some,
        r->Ok_0 is Some <==> old(backend).position() + READ_BITS <= old(backend).stream().len()
            && starts_code(
            old(backend).stream().subrange(
                old(backend).position() as int,
                old(backend).position() + READ_BITS,
            ),
        ),
        r->Ok_0 is Some ==> delta_code(r->Ok_0->Some_0 as nat, BO::spec_m2l()).len() <= READ_BITS,
{
    let ghost s = backend.stream();
    let ghost p = backend.position() as int;
    if let Ok(idx) = backend.peek_bits(READ_BITS) {
        proof {
            lemma2_to64();
            if code_in_window(s, p, BO::spec_m2l()) {
                lemma_code_in_window(s, p, BO::spec_m2l());
            }
        }
        if let Some((value, len)) = read_entry(idx, BO::is_m2l()) {
            proof {
                backend.lemma_ready();
                assert(s.subrange(p, p + len) =~= s.subrange(p, p + 5).subrange(0, len as int));
            }
            let _ = backend.skip_bits_after_table_lookup(len);
            return Ok(Some(value));
        }
    }
    Ok(None)
}

/// Writes the δ code of `value` through the write table and returns `true`,
/// where `value` is in the table; otherwise returns `false` and writes
/// nothing.
pub fn write_table<BO: BitOrder, B: BitWrite<BO>>(backend: &mut B, value: u64) -> (r: Result<bool, BitStreamError>)
    requires
        old(backend).ready(),
    ensures
        final(backend).ready(),
        r == Ok::<bool, BitStreamError>(true) ==> final(backend).written_bits() == old(backend).written_bits()
            + delta_code(value as nat, BO::spec_m2l()),
        r == Ok::<bool, BitStreamError>(false) <==> value > WRITE_MAX,
        final(backend).infallible() == old(backend).infallible(),
        old(backend).infallible() && value <= WRITE_MAX ==> r == Ok::<bool, BitStreamError>(true),
        r == Ok::<bool, BitStreamError>(false) ==> *final(backend) == *old(backend),
        r is Err ==> r == Err::<bool, BitStreamError>(BitStreamError::BackendIo),
        value <= WRITE_MAX && old(backend).pending_bits() + delta_code(value as nat, BO::spec_m2l()).len() < 128 ==> r is Ok,
{
    match write_entry(value, BO::is_m2l()) {
        Some((bits, len)) => {
            proof {
                crate::bits::lemma_field_len(bits as nat, len as nat, BO::spec_m2l());
            }
            match backend.write_bits(bits, len) {
                Ok(()) => Ok(true),
                Err(e) => Err(e),
            }
        },
        None => Ok(false),
    }
}

/// The table read of `read_table`, for L2M streams.
pub fn read_table_l2m<B: BitRead<L2M>>(backend: &mut B) -> (r: Result<Option<u64>, BitStreamError>)
    requires
        old(backend).ready(),
    ensures
        final(backend).ready(),
        final(backend).stream() == old(backend).stream(),
        r is Ok,
        r == Ok::<Option<u64>, BitStreamError>(None) ==> final(backend).position() == old(backend).position(),
        r is Ok && r->Ok_0 is Some ==> code_at(
            old(backend).stream(),
            old(backend).position() as int,
            delta_code(r->Ok_0->Some_0 as nat, false),
        ) && final(backend).position() == old(backend).position() + delta_code(
            r->Ok_0->Some_0 as nat,
            false,
        ).len(),
        old(backend).position() + READ_BITS <= old(backend).stream().len() && code_in_window(
            old(backend).stream(),
            old(backend).position() as int,
            false,
        ) ==> r->Ok_0 is Some,
        r->Ok_0 is Some <==> old(backend).position() + READ_BITS <= old(backend).stream().len()
            && starts_code(
            old(backend).stream().subrange(
                old(backend).position() as int,
                old(backend).position() + READ_BITS,
            ),
        ),
        r->Ok_0 is Some ==> delta_code(r->Ok_0->Some_0 as nat, false).len() <= READ_BITS,
{
    read_table::<L2M, B>(backend)
}

/// The table write of `write_table`, for L2M streams.
pub fn write_table_l2m<B: BitWrite<L2M>>(backend: &mut B, value: u64) -> (r: Result<bool, BitStreamError>)
    requires
        old(backend).ready(),
    ensures
        final(backend).ready(),
        r == Ok::<bool, BitStreamError>(true) ==> final(backend).written_bits() == old(backend).written_bits()
            + delta_code(value as nat, false),
        r == Ok::<bool, BitStreamError>(false) <==> value > WRITE_MAX,
        final(backend).infallible() == old(backend).infallible(),
        old(backend).infallible() && value <= WRITE_MAX ==> r == Ok::<bool, BitStreamError>(true),
        r == Ok::<bool, BitStreamError>(false) ==> *final(backend) == *old(backend),
        r is Err ==> r == Err::<bool, BitStreamError>(BitStreamError::BackendIo),
        value <= WRITE_MAX && old(backend).pending_bits() + delta_code(value as nat, false).len() < 128
            ==> r is Ok,
{
    write_table::<L2M, B>(backend, value)
}

/// The table read of `read_table`, for M2L streams.
pub fn read_table_m2l<B: BitRead<M2L>>(backend: &mut B) -> (r: Result<Option<u64>, BitStreamError>)
    requires
        old(backend).ready(),
    ensures
        final(backend).ready(),
        final(backend).stream() == old(backend).stream(),
        r is Ok,
        r == Ok::<Option<u64>, BitStreamError>(None) ==> final(backend).position() == old(backend).position(),
        r is Ok && r->Ok_0 is Some ==> code_at(
            old(backend).stream(),
            old(backend).position() as int,
            delta_code(r->Ok_0->Some_0 as nat, true),
        ) && final(backend).position() == old(backend).position() + delta_code(
            r->Ok_0->Some_0 as nat,
            true,
        ).len(),
        old(backend).position() + READ_BITS <= old(backend).stream().len() && code_in_window(
            old(backend).stream(),
            old(backend).position() as int,
            true,
        ) ==> r->Ok_0 is Some,
        r->Ok_0 is Some <==> old(backend).position() + READ_BITS <= old(backend).stream().len()
            && starts_code(
            old(backend).stream().subrange(
                old(backend).position() as int,
                old(backend).position() + READ_BITS,
            ),
        ),
        r->Ok_0 is Some ==> delta_code(r->Ok_0->Some_0 as nat, true).len() <= READ_BITS,
{
    read_table::<M2L, B>(backend)
}

/// The table write of `write_table`, for M2L streams.
pub fn write_table_m2l<B: BitWrite<M2L>>(backend: &mut B, value: u64) -> (r: Result<bool, BitStreamError>)
    requires
        old(backend).ready(),
    ensures
        final(backend).ready(),
        r == Ok::<bool, BitStreamError>(true) ==> final(backend).written_bits() == old(backend).written_bits()
            + delta_code(value as nat, true),
        r == Ok::<bool, BitStreamError>(false) <==> value > WRITE_MAX,
        final(backend).infallible() == old(backend).infallible(),
        old(backend).infallible() && value <= WRITE_MAX ==> r == Ok::<bool, BitStreamError>(true),
        r == Ok::<bool, BitStreamError>(false) ==> *final(backend) == *old(backend),
        r is Err ==> r == Err::<bool, BitStreamError>(BitStreamError::BackendIo),
        value <= WRITE_MAX && old(backend).pending_bits() + delta_code(value as nat, true).len() < 128
            ==> r is Ok,
{
    write_table::<M2L, B>(backend, value)
}

} // verus!
