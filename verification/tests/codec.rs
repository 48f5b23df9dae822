use raknet::datatype::Endian;
use raknet::datatype::RaknetAddr;
use raknet::datatype::RaknetReader;
use raknet::datatype::RaknetWriter;
use raknet::error::RaknetError;

#[test]
fn test_u24_encode_decode() {
    let a: u32 = 65535 * 21;
    let b = a.to_le_bytes();
    let mut reader = RaknetReader::new(b.to_vec());

    let c = reader.read_u24(Endian::Little).unwrap();

    assert!(a == c);

    let mut writer = RaknetWriter::new();
    writer.write_u24(a, Endian::Little).unwrap();

    let buf = writer.get_raw_payload();
    let mut reader = RaknetReader::new(buf);

    let c = reader.read_u24(Endian::Little).unwrap();

    assert!(a == c);
}

#[test]
fn test_integer_roundtrip_boundaries() {
    for n in [Endian::Big, Endian::Little] {
        for v in [0u16, 1, 0x1234, u16::MAX] {
            let mut w = RaknetWriter::new();
            w.write_u16(v, n).unwrap();
            let buf = w.get_raw_payload();
            assert_eq!(buf.len(), 2);
            let mut r = RaknetReader::new(buf);
            assert_eq!(r.read_u16(n).unwrap(), v);
        }
        for v in [0u32, 1, 0xdead_beef, u32::MAX] {
            let mut w = RaknetWriter::new();
            w.write_u32(v, n).unwrap();
            let mut r = RaknetReader::new(w.get_raw_payload());
            assert_eq!(r.read_u32(n).unwrap(), v);
        }
        for v in [0u64, 1, 0x0123_4567_89ab_cdef, u64::MAX] {
            let mut w = RaknetWriter::new();
            w.write_u64(v, n).unwrap();
            let mut r = RaknetReader::new(w.get_raw_payload());
            assert_eq!(r.read_u64(n).unwrap(), v);
        }
        for v in [0i64, 1, -1, i64::MIN, i64::MAX] {
            let mut w = RaknetWriter::new();
            w.write_i64(v, n).unwrap();
            let mut r = RaknetReader::new(w.get_raw_payload());
            assert_eq!(r.read_i64(n).unwrap(), v);
        }
    }
}

#[test]
fn test_endianness_cross_decoding() {
    // Encoding big-endian and decoding little-endian byte-reverses the
    // value for a non-palindromic pattern.
    let mut w = RaknetWriter::new();
    w.write_u16(0x1234, Endian::Big).unwrap();
    let mut r = RaknetReader::new(w.get_raw_payload());
    assert_eq!(r.read_u16(Endian::Little).unwrap(), 0x3412);

    let mut w = RaknetWriter::new();
    w.write_u64(0x0102_0304_0506_0708, Endian::Big).unwrap();
    let mut r = RaknetReader::new(w.get_raw_payload());
    assert_eq!(r.read_u64(Endian::Little).unwrap(), 0x0807_0605_0403_0201);

    // A palindromic byte pattern is the one case where both orders agree.
    let mut w = RaknetWriter::new();
    w.write_u16(0xabab, Endian::Big).unwrap();
    let mut r = RaknetReader::new(w.get_raw_payload());
    assert_eq!(r.read_u16(Endian::Little).unwrap(), 0xabab);
}

#[test]
fn test_magic_roundtrip() {
    let mut w = RaknetWriter::new();
    assert_eq!(w.write_magic().unwrap(), 16);
    assert_eq!(w.pos(), 16);
    let buf = w.get_raw_payload();
    assert_eq!(
        buf,
        vec![
            0x00, 0xff, 0xff, 0x00, 0xfe, 0xfe, 0xfe, 0xfe, 0xfd, 0xfd, 0xfd, 0xfd, 0x12, 0x34,
            0x56, 0x78
        ]
    );
    let mut r = RaknetReader::new(buf);
    assert_eq!(r.read_magic().unwrap(), true);
    assert_eq!(r.pos(), 16);
}

#[test]
fn test_magic_single_bit_tamper_reads_false() {
    let mut w = RaknetWriter::new();
    w.write_magic().unwrap();
    let good = w.get_raw_payload();
    for i in 0..16 {
        for bit in 0..8 {
            let mut bad = good.clone();
            bad[i] ^= 1u8 << bit;
            let mut r = RaknetReader::new(bad);
            // Never an error and never true.
            assert_eq!(r.read_magic().unwrap(), false);
        }
    }
}

#[test]
fn test_magic_short_buffer_fails() {
    let mut r = RaknetReader::new(vec![0x00, 0xff, 0xff]);
    assert_eq!(r.read_magic().unwrap_err(), RaknetError::NotEnoughData);
    assert_eq!(r.pos(), 0);
}

#[test]
fn test_address_v4_roundtrip() {
    let addr = RaknetAddr::V4 { o0: 192, o1: 168, o2: 1, o3: 77, port: 19132 };
    let mut w = RaknetWriter::new();
    w.write_address(addr).unwrap();
    let buf = w.get_raw_payload();
    assert_eq!(buf.len(), 7);
    // Octets travel complemented, not verbatim.
    assert_eq!(buf[0], 4);
    assert_eq!(buf[1], 0xff - 192);
    assert_eq!(buf[2], 0xff - 168);
    assert_eq!(buf[3], 0xff - 1);
    assert_eq!(buf[4], 0xff - 77);
    let mut r = RaknetReader::new(buf);
    assert_eq!(r.read_address().unwrap(), addr);
}

#[test]
fn test_address_v4_boundary_octets() {
    let addr = RaknetAddr::V4 { o0: 0, o1: 255, o2: 0, o3: 255, port: 0 };
    let mut w = RaknetWriter::new();
    w.write_address(addr).unwrap();
    let mut r = RaknetReader::new(w.get_raw_payload());
    assert_eq!(r.read_address().unwrap(), addr);
}

#[test]
fn test_address_v6_roundtrip() {
    let addr = RaknetAddr::V6 {
        s0: 0xfe80,
        s1: 0,
        s2: 0,
        s3: 0,
        s4: 0x0202,
        s5: 0xb3ff,
        s6: 0xfe1e,
        s7: 0x8329,
        port: 28000,
    };
    let mut w = RaknetWriter::new();
    w.write_address(addr).unwrap();
    let buf = w.get_raw_payload();
    assert_eq!(buf.len(), 28);
    // The family tag travels as a little-endian 16-bit 23.
    assert_eq!(buf[0], 23);
    assert_eq!(buf[1], 0);
    let mut r = RaknetReader::new(buf);
    assert_eq!(r.read_address().unwrap(), addr);
}

#[test]
fn test_address_short_buffer_fails() {
    let mut r = RaknetReader::new(vec![4, 1, 2]);
    assert_eq!(r.read_address().unwrap_err(), RaknetError::NotEnoughData);
    let mut r = RaknetReader::new(vec![23, 0, 1, 2, 3, 4, 5]);
    assert_eq!(r.read_address().unwrap_err(), RaknetError::NotEnoughData);
}

#[test]
fn test_string_roundtrip_keeps_byte_length() {
    // Multi-byte UTF-8: 18 bytes, 13 characters.
    let motd = "hello, мир! ✓";
    assert_eq!(motd.len(), 18);
    let mut w = RaknetWriter::new();
    w.write_string(motd).unwrap();
    let buf = w.get_raw_payload();
    assert_eq!(buf.len(), 2 + 18);
    assert_eq!(buf[0], 0);
    assert_eq!(buf[1], 18);
    let mut r = RaknetReader::new(buf);
    let out = r.read_string().unwrap();
    assert_eq!(out, motd);
    assert_eq!(out.len(), 18);
}

#[test]
fn test_string_empty_roundtrip() {
    let mut w = RaknetWriter::new();
    w.write_string("").unwrap();
    let mut r = RaknetReader::new(w.get_raw_payload());
    assert_eq!(r.read_string().unwrap(), "");
}

#[test]
fn test_string_truncated_fails_with_framing_error() {
    // Declares five bytes but carries two.
    let mut r = RaknetReader::new(vec![0, 5, b'a', b'b']);
    assert_eq!(r.read_string().unwrap_err(), RaknetError::NotEnoughData);
    assert_eq!(r.pos(), 0);
}

#[test]
fn test_string_invalid_utf8_fails() {
    let mut r = RaknetReader::new(vec![0, 1, 0xff]);
    assert_eq!(r.read_string().unwrap_err(), RaknetError::InvalidUtf8);
}

#[test]
fn test_string_too_long_fails_without_writing() {
    let big = "x".repeat(65536);
    let mut w = RaknetWriter::new();
    assert_eq!(w.write_string(&big).unwrap_err(), RaknetError::StringTooLong);
    assert_eq!(w.pos(), 0);
}

#[test]
fn test_reader_out_of_data_leaves_cursor() {
    let mut r = RaknetReader::new(vec![1, 2, 3]);
    assert_eq!(r.read_u64(Endian::Big).unwrap_err(), RaknetError::NotEnoughData);
    assert_eq!(r.pos(), 0);
    assert_eq!(r.read_u16(Endian::Big).unwrap(), 0x0102);
    assert_eq!(r.pos(), 2);
}

#[test]
fn test_reader_next_skips_reserved_bytes() {
    let mut r = RaknetReader::new(vec![9, 9, 9, 7]);
    r.next(3);
    assert_eq!(r.pos(), 3);
    assert_eq!(r.read_u8().unwrap(), 7);
    assert_eq!(r.read_u8().unwrap_err(), RaknetError::NotEnoughData);
}

#[test]
fn test_writer_accumulates_and_reports_position() {
    let mut w = RaknetWriter::new();
    assert_eq!(w.pos(), 0);
    w.write_u8(0xab).unwrap();
    w.write(&[1, 2, 3]).unwrap();
    w.write_i16(-2, Endian::Big).unwrap();
    assert_eq!(w.pos(), 6);
    assert_eq!(w.get_raw_payload(), vec![0xab, 1, 2, 3, 0xff, 0xfe]);
}
