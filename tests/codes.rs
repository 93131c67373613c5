use dsi_bitstream::backends::{FileBackend, MemWordRead, MemWordWriteVec};
use dsi_bitstream::codes::{fast_floor_log2, len_delta, len_gamma, len_unary};
use dsi_bitstream::delta::{DeltaRead, DeltaWrite};
use dsi_bitstream::gamma::{GammaRead, GammaWrite};
use dsi_bitstream::minimal_binary::{len_minimal_binary, MinimalBinaryRead, MinimalBinaryWrite};
use dsi_bitstream::zeta::{len_zeta, ZetaRead, ZetaWrite};
use dsi_bitstream::buffered_reader::BufferedBitStreamRead;
use dsi_bitstream::reader::UnbufferedBitStreamRead;
use dsi_bitstream::traits::{BitOrder, BitRead, BitStreamError, BitWrite, L2M, M2L};
use dsi_bitstream::writer::BufferedBitStreamWrite;
use dsi_bitstream::{delta_tables, gamma_tables, unary_tables};

type Writer<BO> = BufferedBitStreamWrite<BO, MemWordWriteVec>;
type Reader<BO> = UnbufferedBitStreamRead<BO, MemWordRead>;

fn writer<BO: BitOrder>() -> Writer<BO> {
    BufferedBitStreamWrite::new(MemWordWriteVec::new(Vec::new()))
}

fn finish<BO: BitOrder>(mut w: Writer<BO>) -> Vec<u64> {
    w.flush().unwrap();
    w.into_inner().into_inner()
}

fn reader<BO: BitOrder>(words: Vec<u64>) -> Reader<BO> {
    UnbufferedBitStreamRead::new(MemWordRead::new(words))
}

/// The first `n` bits of an M2L stream, as a string of digits.
fn m2l_bits(words: &[u64], n: usize) -> String {
    (0..n)
        .map(|i| if (words[i / 64] >> (63 - i % 64)) & 1 == 1 { '1' } else { '0' })
        .collect()
}

/// The first `n` bits of an L2M stream, as a string of digits.
fn l2m_bits(words: &[u64], n: usize) -> String {
    (0..n)
        .map(|i| if (words[i / 64] >> (i % 64)) & 1 == 1 { '1' } else { '0' })
        .collect()
}

#[test]
fn gamma_bit_strings_m2l() {
    let mut w = writer::<M2L>();
    for v in [0u64, 1, 7, 63] {
        w.write_gamma::<false>(v).unwrap();
    }
    let words = finish(w);
    // γ(63): 63 + 1 = 64 = 2^6, so six zeros, a one, then six zero bits.
    let expected = String::from("1") + "010" + "0001000" + "0000001000000";
    assert_eq!(m2l_bits(&words, expected.len()), expected);
    let mut r = reader::<M2L>(words);
    for v in [0u64, 1, 7, 63] {
        assert_eq!(r.read_gamma::<false>().unwrap(), v);
    }
    assert_eq!(r.get_position(), expected.len());
}

#[test]
fn delta_table_matches_slow_path_m2l() {
    let mut with_table = writer::<M2L>();
    let mut without_table = writer::<M2L>();
    for v in 0u64..=255 {
        with_table.write_delta::<true, false>(v).unwrap();
        without_table.write_delta::<false, false>(v).unwrap();
    }
    let a = finish(with_table);
    let b = finish(without_table);
    assert_eq!(a, b);
    let mut ra = reader::<M2L>(a);
    let mut rb = reader::<M2L>(b);
    for v in 0u64..=255 {
        assert_eq!(ra.read_delta::<true, false>().unwrap(), v);
        assert_eq!(rb.read_delta::<false, true>().unwrap(), v);
    }
    assert_eq!(ra.get_position(), rb.get_position());
}

#[test]
fn delta_table_matches_slow_path_l2m() {
    let mut with_table = writer::<L2M>();
    let mut without_table = writer::<L2M>();
    for v in 0u64..=300 {
        with_table.write_delta::<true, true>(v).unwrap();
        without_table.write_delta::<false, false>(v).unwrap();
    }
    let a = finish(with_table);
    let b = finish(without_table);
    assert_eq!(a, b);
    let mut r = reader::<L2M>(a);
    for v in 0u64..=300 {
        assert_eq!(r.read_delta::<true, true>().unwrap(), v);
    }
}

#[test]
fn long_unary_l2m() {
    let mut w = writer::<L2M>();
    w.write_unary::<false>(127).unwrap();
    w.write_unary::<false>(0).unwrap();
    let words = finish(w);
    assert_eq!(words.len(), 3);
    let mut expected = "0".repeat(127);
    expected.push_str("11");
    assert_eq!(l2m_bits(&words, 129), expected);
    let mut r = reader::<L2M>(words);
    assert_eq!(r.read_unary::<false>().unwrap(), 127);
    assert_eq!(r.read_unary::<true>().unwrap(), 0);
    assert_eq!(r.get_position(), 129);
}

#[test]
fn random_gamma_round_trip_l2m() {
    let values: Vec<u64> = (0..1_000_000)
        .map(|_| {
            let u: f64 = 1.0 - rand::random::<f64>();
            (1.0 / u).floor() as u64
        })
        .collect();
    let mut w = writer::<L2M>();
    for &v in &values {
        w.write_gamma::<false>(v).unwrap();
    }
    let mut r = reader::<L2M>(finish(w));
    for &v in &values {
        assert_eq!(r.read_gamma::<false>().unwrap(), v);
    }
}

#[test]
fn delta_after_offset_then_seek() {
    let mut w = writer::<M2L>();
    w.write_bits(5, 3).unwrap();
    w.write_delta::<false, false>(42).unwrap();
    let mut r = reader::<M2L>(finish(w));
    r.seek_bit(3).unwrap();
    assert_eq!(r.read_delta::<false, false>().unwrap(), 42);
    assert_eq!(r.get_position(), 3 + len_delta::<false>(42));
}

#[test]
fn truncated_code_fails_and_keeps_position() {
    // unary part ends in the first word, the low bits run into the second
    let mut w = writer::<M2L>();
    w.write_bits(0, 50).unwrap();
    w.write_gamma::<false>(1000).unwrap();
    let mut words = finish(w);
    assert_eq!(words.len(), 2);
    words.truncate(1);
    let mut r = reader::<M2L>(words.clone());
    r.seek_bit(50).unwrap();
    assert_eq!(r.read_gamma::<false>(), Err(BitStreamError::UnexpectedEof));
    assert_eq!(r.get_position(), 50);
    // no one before the end of the source
    let mut r = reader::<M2L>(vec![0u64]);
    r.seek_bit(10).unwrap();
    assert_eq!(r.read_unary::<true>(), Err(BitStreamError::UnexpectedEof));
    assert_eq!(r.read_delta::<true, true>(), Err(BitStreamError::UnexpectedEof));
    assert_eq!(r.get_position(), 10);
}

#[test]
fn round_trip_every_code_at_every_offset() {
    for k in 0..=128usize {
        let mut w = writer::<M2L>();
        let mut v = writer::<L2M>();
        let mut left = k;
        while left > 0 {
            let n = left.min(64);
            w.write_bits(0, n).unwrap();
            v.write_bits(0, n).unwrap();
            left -= n;
        }
        for x in [0u64, 1, 2, 3, 62, 63, 64, 200, 255, 256, 65_535, 1 << 40, u64::MAX - 1] {
            w.write_gamma::<true>(x).unwrap();
            w.write_delta::<true, true>(x).unwrap();
            v.write_gamma::<false>(x).unwrap();
            v.write_delta::<false, true>(x).unwrap();
        }
        for x in [0u64, 5, 63, 64, 100] {
            w.write_unary::<true>(x).unwrap();
            v.write_unary::<true>(x).unwrap();
        }
        let mut rw = reader::<M2L>(finish(w));
        let mut rv = reader::<L2M>(finish(v));
        rw.seek_bit(k).unwrap();
        rv.seek_bit(k).unwrap();
        for x in [0u64, 1, 2, 3, 62, 63, 64, 200, 255, 256, 65_535, 1 << 40, u64::MAX - 1] {
            let p = rw.get_position();
            assert_eq!(rw.read_gamma::<false>().unwrap(), x);
            assert_eq!(rw.get_position(), p + len_gamma::<false>(x));
            assert_eq!(rw.read_delta::<false, false>().unwrap(), x);
            let q = rv.get_position();
            assert_eq!(rv.read_gamma::<true>().unwrap(), x);
            assert_eq!(rv.read_delta::<true, false>().unwrap(), x);
            assert_eq!(rv.get_position(), q + len_gamma::<true>(x) + len_delta::<true>(x));
        }
        for x in [0u64, 5, 63, 64, 100] {
            let p = rw.get_position();
            assert_eq!(rw.read_unary::<false>().unwrap(), x);
            assert_eq!(rw.get_position(), p + len_unary::<true>(x));
            assert_eq!(rv.read_unary::<false>().unwrap(), x);
        }
    }
}

#[test]
fn write_bits_layout_in_both_orders() {
    let mut w = writer::<M2L>();
    w.write_bits(0b101, 3).unwrap();
    assert_eq!(finish(w), vec![0xA000_0000_0000_0000]);
    let mut w = writer::<L2M>();
    w.write_bits(0b101, 3).unwrap();
    w.write_bits(0b11, 2).unwrap();
    assert_eq!(finish(w), vec![0b11101]);
    let mut w = writer::<M2L>();
    w.write_bits(u64::MAX, 64).unwrap();
    w.write_bits(1, 1).unwrap();
    assert_eq!(finish(w), vec![u64::MAX, 0x8000_0000_0000_0000]);
}

#[test]
fn read_and_peek_bits_across_words() {
    let words = vec![0x0123_4567_89AB_CDEFu64, 0xFEDC_BA98_7654_3210];
    let mut r = reader::<M2L>(words.clone());
    assert_eq!(r.read_bits(4).unwrap(), 0x0);
    assert_eq!(r.read_bits(8).unwrap(), 0x12);
    r.seek_bit(56).unwrap();
    assert_eq!(r.peek_bits(16).unwrap(), 0xEFFE);
    assert_eq!(r.read_bits(16).unwrap(), 0xEFFE);
    assert_eq!(r.read_bits(0).unwrap(), 0);
    assert_eq!(r.get_position(), 72);
    let mut r = reader::<L2M>(words);
    assert_eq!(r.read_bits(4).unwrap(), 0xF);
    r.seek_bit(60).unwrap();
    assert_eq!(r.read_bits(8).unwrap(), 0x00);
    r.seek_bit(56).unwrap();
    assert_eq!(r.read_bits(16).unwrap(), 0x1001);
    r.skip_bits(8).unwrap();
    assert_eq!(r.read_bits(8).unwrap(), 0x54);
}

#[test]
fn error_kinds() {
    let mut w = writer::<M2L>();
    assert_eq!(w.write_bits(0, 65), Err(BitStreamError::BitWidth));
    assert_eq!(w.write_bits(8, 3), Err(BitStreamError::ValueOverflow));
    assert_eq!(w.write_unary::<false>(u64::MAX), Err(BitStreamError::ValueOverflow));
    assert_eq!(w.write_unary::<true>(u64::MAX), Err(BitStreamError::ValueOverflow));
    assert_eq!(w.write_gamma::<false>(u64::MAX), Err(BitStreamError::ValueOverflow));
    assert_eq!(w.write_delta::<true, true>(u64::MAX), Err(BitStreamError::ValueOverflow));
    assert_eq!(w.write_bits(9, 0), Ok(()));
    assert_eq!(finish(w), Vec::<u64>::new());
    let mut r = reader::<L2M>(vec![1u64]);
    assert_eq!(r.read_bits(65), Err(BitStreamError::BitWidth));
    assert_eq!(r.peek_bits(33), Err(BitStreamError::BitWidth));
    r.seek_bit(60).unwrap();
    assert_eq!(r.read_bits(5), Err(BitStreamError::UnexpectedEof));
    assert_eq!(r.peek_bits(5), Err(BitStreamError::UnexpectedEof));
    assert_eq!(r.get_position(), 60);
    // sixty-four zeros then a one: the length does not fit a word
    let mut w = writer::<M2L>();
    w.write_unary::<false>(64).unwrap();
    w.write_bits(0, 64).unwrap();
    w.write_bits(0, 64).unwrap();
    let mut r = reader::<M2L>(finish(w));
    assert_eq!(r.read_gamma::<false>(), Err(BitStreamError::ValueOverflow));
    assert_eq!(r.get_position(), 0);
    // a δ code whose length, 64, does not fit in a word
    let mut w = writer::<L2M>();
    w.write_gamma::<false>(64).unwrap();
    w.write_bits(0, 64).unwrap();
    w.write_bits(0, 64).unwrap();
    let mut r = reader::<L2M>(finish(w));
    assert_eq!(r.read_delta::<true, false>(), Err(BitStreamError::ValueOverflow));
    assert_eq!(r.get_position(), 0);
    assert_eq!(r.read_gamma::<true>(), Ok(64));
}

#[test]
fn lengths_and_logarithms() {
    assert_eq!(fast_floor_log2(1), 0);
    assert_eq!(fast_floor_log2(2), 1);
    assert_eq!(fast_floor_log2(255), 7);
    assert_eq!(fast_floor_log2(256), 8);
    assert_eq!(fast_floor_log2(u64::MAX), 63);
    assert_eq!(len_unary::<false>(0), 1);
    assert_eq!(len_unary::<true>(10), 11);
    assert_eq!(len_unary::<false>(1000), 1001);
    assert_eq!(len_gamma::<false>(0), 1);
    assert_eq!(len_gamma::<true>(2), 3);
    assert_eq!(len_gamma::<false>(63), 13);
    assert_eq!(len_gamma::<false>(u64::MAX - 1), 127);
    assert_eq!(len_delta::<false>(0), 1);
    assert_eq!(len_delta::<true>(1), 4);
    assert_eq!(len_delta::<true>(255), 15);
    assert_eq!(len_delta::<false>(255), 15);
    assert_eq!(len_delta::<false>(1000), 16);
    for v in 0u64..=300 {
        assert_eq!(len_delta::<true>(v), len_delta::<false>(v));
        assert_eq!(len_unary::<true>(v), len_unary::<false>(v));
    }
}

#[test]
fn table_entries() {
    assert_eq!(unary_tables::write_entry(5, true), Some((1, 6)));
    assert_eq!(unary_tables::write_entry(5, false), Some((32, 6)));
    assert_eq!(unary_tables::write_entry(64, true), None);
    assert_eq!(unary_tables::read_entry(0b00100, true), Some((2, 3)));
    assert_eq!(unary_tables::read_entry(0b00100, false), Some((2, 3)));
    assert_eq!(unary_tables::read_entry(0, true), None);
    assert_eq!(delta_tables::write_entry(3, true), Some((12, 5)));
    assert_eq!(delta_tables::write_entry(256, false), None);
    assert_eq!(delta_tables::read_entry(0b10000, true), Some((0, 1)));
    assert_eq!(delta_tables::read_entry(0b00000, true), None);
}

#[test]
fn table_functions_on_streams() {
    let mut w = writer::<M2L>();
    assert_eq!(unary_tables::write_table_m2l(&mut w, 3), Ok(true));
    assert_eq!(unary_tables::write_table_m2l(&mut w, 100), Ok(false));
    assert_eq!(delta_tables::write_table_m2l(&mut w, 7), Ok(true));
    let mut r = reader::<M2L>(finish(w));
    assert_eq!(unary_tables::read_table_m2l(&mut r), Ok(Some(3)));
    assert_eq!(delta_tables::read_table_m2l(&mut r), Ok(None));
    assert_eq!(r.read_delta::<false, false>().unwrap(), 7);
    let mut w = writer::<L2M>();
    assert_eq!(unary_tables::write_table_l2m(&mut w, 2), Ok(true));
    assert_eq!(delta_tables::write_table_l2m(&mut w, 1), Ok(true));
    assert_eq!(delta_tables::write_table_l2m(&mut w, 300), Ok(false));
    let mut r = reader::<L2M>(finish(w));
    assert_eq!(unary_tables::read_table_l2m(&mut r), Ok(Some(2)));
    assert_eq!(delta_tables::read_table_l2m(&mut r), Ok(Some(1)));
}

#[test]
fn partial_flush_hands_out_whole_words() {
    let mut w = writer::<M2L>();
    w.write_bits(u64::MAX, 64).unwrap();
    w.write_bits(3, 2).unwrap();
    w.partial_flush().unwrap();
    assert_eq!(w.backend().as_vec(), &vec![u64::MAX]);
    w.partial_flush().unwrap();
    assert_eq!(w.backend().as_vec().len(), 1);
    assert_eq!(finish(w), vec![u64::MAX, 0xC000_0000_0000_0000]);
}

#[test]
fn file_backend_keeps_its_value() {
    let mut f = FileBackend::new(vec![1u8, 2]);
    f.file_mut().push(3);
    assert_eq!(f.into_inner(), vec![1u8, 2, 3]);
}

#[test]
fn minimal_binary_codes() {
    let mut w = writer::<M2L>();
    for n in 0u64..5 {
        w.write_minimal_binary(n, 5).unwrap();
    }
    let words = finish(w);
    let expected = String::from("00") + "01" + "10" + "110" + "111";
    assert_eq!(m2l_bits(&words, expected.len()), expected);
    assert_eq!(len_minimal_binary(2, 5), 2);
    assert_eq!(len_minimal_binary(3, 5), 3);
    assert_eq!(len_minimal_binary(0, 1), 0);
    assert_eq!(len_minimal_binary(0, 8), 3);
    let mut r = reader::<M2L>(words);
    for n in 0u64..5 {
        assert_eq!(r.read_minimal_binary(5).unwrap(), n);
    }
    assert_eq!(r.get_position(), expected.len());
}

#[test]
fn minimal_binary_round_trip_both_orders() {
    let maxes = [1u64, 2, 3, 5, 7, 8, 9, 100, 1000, u64::MAX];
    let mut w = writer::<M2L>();
    let mut v = writer::<L2M>();
    for &max in &maxes {
        for n in [0u64, 1, 2, max / 2, max - 1] {
            if n < max {
                w.write_minimal_binary(n, max).unwrap();
                v.write_minimal_binary(n, max).unwrap();
            }
        }
    }
    let mut rw = reader::<M2L>(finish(w));
    let mut rv = reader::<L2M>(finish(v));
    for &max in &maxes {
        for n in [0u64, 1, 2, max / 2, max - 1] {
            if n < max {
                let p = rw.get_position();
                assert_eq!(rw.read_minimal_binary(max).unwrap(), n);
                assert_eq!(rw.get_position(), p + len_minimal_binary(n, max));
                assert_eq!(rv.read_minimal_binary(max).unwrap(), n);
            }
        }
    }
    let mut w = writer::<L2M>();
    assert_eq!(w.write_minimal_binary(5, 5), Err(BitStreamError::ValueOverflow));
    let mut r = reader::<L2M>(vec![0]);
    assert_eq!(r.read_minimal_binary(0), Err(BitStreamError::ValueOverflow));
}

#[test]
fn zeta_codes() {
    let mut w = writer::<M2L>();
    for x in [0u64, 6, 7] {
        w.write_zeta(x, 3).unwrap();
    }
    let words = finish(w);
    let expected = String::from("100") + "1111" + "0100000";
    assert_eq!(m2l_bits(&words, expected.len()), expected);
    assert_eq!(len_zeta(0, 3), 3);
    assert_eq!(len_zeta(6, 3), 4);
    assert_eq!(len_zeta(7, 3), 7);
    let mut r = reader::<M2L>(words);
    for x in [0u64, 6, 7] {
        assert_eq!(r.read_zeta(3).unwrap(), x);
    }
    let mut w = writer::<M2L>();
    assert_eq!(w.write_zeta(5, 0), Err(BitStreamError::ValueOverflow));
    assert_eq!(w.write_zeta(u64::MAX - 1, 3), Err(BitStreamError::ValueOverflow));
    assert_eq!(w.write_zeta(u64::MAX, 1), Err(BitStreamError::ValueOverflow));
    w.write_zeta(u64::MAX - 1, 2).unwrap();
    w.write_zeta(u64::MAX - 1, 64).unwrap();
    let mut r = reader::<M2L>(finish(w));
    assert_eq!(r.read_zeta(2).unwrap(), u64::MAX - 1);
    assert_eq!(r.read_zeta(64).unwrap(), u64::MAX - 1);
}

#[test]
fn mixed_codes_in_one_stream() {
    for k in [0usize, 1, 31, 63, 64, 65, 100] {
        let mut w = writer::<L2M>();
        let mut left = k;
        while left > 0 {
            let n = left.min(64);
            w.write_bits(0, n).unwrap();
            left -= n;
        }
        for x in 0u64..200 {
            w.write_unary::<true>(x % 70).unwrap();
            w.write_gamma::<false>(x * 977).unwrap();
            w.write_delta::<true, true>(x * x).unwrap();
            w.write_minimal_binary(x, 200).unwrap();
            w.write_zeta(x * 31, 3).unwrap();
            w.write_bits(x & 0x1F, 5).unwrap();
        }
        let mut r = reader::<L2M>(finish(w));
        r.skip_bits(k).unwrap();
        for x in 0u64..200 {
            assert_eq!(r.read_unary::<false>().unwrap(), x % 70);
            assert_eq!(r.read_gamma::<true>().unwrap(), x * 977);
            assert_eq!(r.read_delta::<false, false>().unwrap(), x * x);
            assert_eq!(r.read_minimal_binary(200).unwrap(), x);
            let p = r.get_position();
            assert_eq!(r.read_zeta(3).unwrap(), x * 31);
            assert_eq!(r.get_position(), p + len_zeta(x * 31, 3));
            assert_eq!(r.read_bits(5).unwrap(), x & 0x1F);
        }
    }
}

#[test]
fn unary_table_matches_slow_path() {
    let mut a = writer::<M2L>();
    let mut b = writer::<M2L>();
    let mut c = writer::<L2M>();
    let mut d = writer::<L2M>();
    for v in 0u64..=70 {
        a.write_unary::<true>(v).unwrap();
        b.write_unary::<false>(v).unwrap();
        c.write_unary::<true>(v).unwrap();
        d.write_unary::<false>(v).unwrap();
    }
    let (a, b, c, d) = (finish(a), finish(b), finish(c), finish(d));
    assert_eq!(a, b);
    assert_eq!(c, d);
    let mut ra = reader::<M2L>(a);
    let mut rc = reader::<L2M>(c);
    for v in 0u64..=70 {
        assert_eq!(ra.read_unary::<true>().unwrap(), v);
        assert_eq!(rc.read_unary::<true>().unwrap(), v);
    }
}

#[test]
fn mirrored_words_read_unary_alike() {
    let mut w = writer::<M2L>();
    for v in 0u64..40 {
        w.write_unary::<true>(v * 3).unwrap();
    }
    let mirrored: Vec<u64> = finish(w).iter().map(|x| x.reverse_bits()).collect();
    let mut r = reader::<L2M>(mirrored);
    for v in 0u64..40 {
        assert_eq!(r.read_unary::<false>().unwrap(), v * 3);
    }
}

#[test]
fn buffered_reader_reads_like_unbuffered() {
    let mut w = writer::<M2L>();
    let mut v = writer::<L2M>();
    for x in 0u64..500 {
        w.write_gamma::<false>(x * 13).unwrap();
        w.write_bits(x & 0x7F, 7).unwrap();
        w.write_delta::<true, false>(x).unwrap();
        w.write_unary::<true>(x % 90).unwrap();
        v.write_zeta(x * 7, 2).unwrap();
        v.write_minimal_binary(x % 37, 37).unwrap();
        v.write_unary::<false>(x % 130).unwrap();
    }
    let mut rw = BufferedBitStreamRead::<M2L, _>::new(MemWordRead::new(finish(w)));
    let mut rv = BufferedBitStreamRead::<L2M, _>::new(MemWordRead::new(finish(v)));
    for x in 0u64..500 {
        assert_eq!(rw.read_gamma::<true>().unwrap(), x * 13);
        assert_eq!(rw.peek_bits(7).unwrap() as u64, x & 0x7F);
        assert_eq!(rw.read_bits(7).unwrap(), x & 0x7F);
        assert_eq!(rw.read_delta::<false, true>().unwrap(), x);
        assert_eq!(rw.read_unary::<true>().unwrap(), x % 90);
        assert_eq!(rv.read_zeta(2).unwrap(), x * 7);
        assert_eq!(rv.read_minimal_binary(37).unwrap(), x % 37);
        assert_eq!(rv.read_unary::<true>().unwrap(), x % 130);
    }
    let end = rw.get_position();
    rw.seek_bit(0).unwrap();
    assert_eq!(rw.read_gamma::<false>().unwrap(), 0);
    rw.seek_bit(end).unwrap();
    rw.skip_bits_after_table_lookup(0).unwrap();
    assert_eq!(rw.get_position(), end);
    let mut r = BufferedBitStreamRead::<M2L, _>::new(MemWordRead::new(vec![0u64]));
    r.seek_bit(60).unwrap();
    assert_eq!(r.read_bits(8), Err(BitStreamError::UnexpectedEof));
    assert_eq!(r.read_unary::<true>(), Err(BitStreamError::UnexpectedEof));
    assert_eq!(r.get_position(), 60);
}

#[test]
fn gamma_table_matches_slow_path() {
    for m2l in [true, false] {
        let words = |table: bool| {
            if m2l {
                let mut w = writer::<M2L>();
                for v in 0u64..=300 {
                    if table {
                        w.write_gamma::<true>(v).unwrap();
                    } else {
                        w.write_gamma::<false>(v).unwrap();
                    }
                }
                finish(w)
            } else {
                let mut w = writer::<L2M>();
                for v in 0u64..=300 {
                    if table {
                        w.write_gamma::<true>(v).unwrap();
                    } else {
                        w.write_gamma::<false>(v).unwrap();
                    }
                }
                finish(w)
            }
        };
        let a = words(true);
        assert_eq!(a, words(false));
        if m2l {
            let mut r = reader::<M2L>(a);
            for v in 0u64..=300 {
                assert_eq!(r.read_gamma::<true>().unwrap(), v);
            }
        } else {
            let mut r = reader::<L2M>(a);
            for v in 0u64..=300 {
                assert_eq!(r.read_gamma::<true>().unwrap(), v);
            }
        }
    }
    assert_eq!(gamma_tables::write_entry(4, true), Some((5, 5)));
    assert_eq!(gamma_tables::write_entry(4, false), Some((4 + 1 * 8, 5)));
    assert_eq!(gamma_tables::read_entry(0b01000, true), Some((1, 3)));
    assert_eq!(gamma_tables::read_entry(0b00001, true), None);
    assert_eq!(len_gamma::<true>(4), 5);
}

#[test]
fn release_flushes_staged_bits() {
    let mut w = writer::<L2M>();
    w.write_bits(0b1011, 4).unwrap();
    w.write_unary::<false>(70).unwrap();
    let words = w.into_inner().into_inner();
    assert_eq!(words.len(), 2);
    assert_eq!(words[0], 0b1011);
    assert_eq!(words[1], 1 << (70 - 60));
}

#[test]
fn rejected_writes_change_nothing() {
    let mut w = writer::<M2L>();
    w.write_bits(0b1, 1).unwrap();
    assert_eq!(w.write_bits(1, 65), Err(BitStreamError::BitWidth));
    assert_eq!(w.write_bits(4, 2), Err(BitStreamError::ValueOverflow));
    assert_eq!(w.write_unary::<true>(u64::MAX), Err(BitStreamError::ValueOverflow));
    assert_eq!(w.write_gamma::<true>(u64::MAX), Err(BitStreamError::ValueOverflow));
    assert_eq!(w.write_zeta(3, 0), Err(BitStreamError::ValueOverflow));
    assert_eq!(w.write_minimal_binary(3, 3), Err(BitStreamError::ValueOverflow));
    w.write_bits(0b1, 1).unwrap();
    assert_eq!(finish(w), vec![0xC000_0000_0000_0000]);
}

#[test]
fn table_reads_find_every_short_code() {
    for v in 0u64..=4 {
        let mut w = writer::<L2M>();
        w.write_unary::<false>(v).unwrap();
        let mut r = reader::<L2M>(finish(w));
        assert_eq!(unary_tables::read_table_l2m(&mut r), Ok(Some(v)));
    }
    for v in 0u64..=2 {
        let mut w = writer::<M2L>();
        w.write_gamma::<false>(v).unwrap();
        let mut r = reader::<M2L>(finish(w));
        assert_eq!(gamma_tables::read_table_m2l(&mut r), Ok(Some(v)));
        assert_eq!(r.get_position(), len_gamma::<false>(v));
    }
    for v in 0u64..=6 {
        let mut w = writer::<L2M>();
        w.write_delta::<false, false>(v).unwrap();
        let mut r = reader::<L2M>(finish(w));
        assert_eq!(delta_tables::read_table_l2m(&mut r), Ok(Some(v)));
    }
    let mut r = reader::<M2L>(vec![0x0400_0000_0000_0000]);
    assert_eq!(unary_tables::read_table_m2l(&mut r), Ok(None));
    assert_eq!(r.get_position(), 0);
    assert_eq!(r.read_unary::<true>(), Ok(5));
}

#[test]
fn zeta_too_wide_band_is_an_overflow() {
    // a unary part of 22 zeros names band 22, which does not fit with k = 3
    let mut w = writer::<M2L>();
    w.write_unary::<false>(22).unwrap();
    w.write_bits(0, 64).unwrap();
    let mut r = reader::<M2L>(finish(w));
    assert_eq!(r.read_zeta(3), Err(BitStreamError::ValueOverflow));
    assert_eq!(r.get_position(), 0);
    let mut r = reader::<M2L>(vec![0u64]);
    assert_eq!(r.read_zeta(3), Err(BitStreamError::UnexpectedEof));
}

#[test]
fn flush_hands_out_ceil_of_pending_words() {
    for pending in [0usize, 1, 63, 64, 65, 127] {
        let mut w = writer::<M2L>();
        let mut left = pending;
        while left > 0 {
            let n = left.min(64);
            w.write_bits(0, n).unwrap();
            left -= n;
        }
        let before = w.backend().as_vec().len();
        w.flush().unwrap();
        assert_eq!(w.backend().as_vec().len(), before + (pending + 63) / 64);
        w.flush().unwrap();
        assert_eq!(w.backend().as_vec().len(), before + (pending + 63) / 64);
    }
    let mut w = writer::<L2M>();
    w.write_bits(0b11, 2).unwrap();
    w.write_bits(u64::MAX, 64).unwrap();
    w.partial_flush().unwrap();
    assert_eq!(w.backend().as_vec(), &vec![u64::MAX]);
    w.flush().unwrap();
    assert_eq!(w.backend().as_vec(), &vec![u64::MAX, 0b11]);
}
