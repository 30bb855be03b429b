//! Cursor-level tests: varint encoding and decoding, zigzag, fixed-width
//! integers, slices, the field walker, and poisoning behavior.

use noproto::bounded::BoundedBytes;
use noproto::read::{ByteReader, ReadError};
use noproto::write::ByteWriter;
use noproto::WireType;

#[test]
fn varuint_canonical_bytes() {
    let cases: [(u32, &[u8]); 5] = [
        (0, &[0x00]),
        (1, &[0x01]),
        (127, &[0x7F]),
        (150, &[0x96, 0x01]),
        (300, &[0xAC, 0x02]),
    ];
    for (val, expect) in cases {
        let mut w = ByteWriter::new(16);
        w.write_varuint32(val).unwrap();
        assert_eq!(w.bytes(), expect);
    }

    let mut w = ByteWriter::new(16);
    w.write_varuint64(u64::MAX).unwrap();
    assert_eq!(
        w.bytes(),
        &[0xFF, 0xFF, 0xFF, 0xFF, 0xFF, 0xFF, 0xFF, 0xFF, 0xFF, 0x01]
    );

    let mut w = ByteWriter::new(16);
    w.write_varuint32(u32::MAX).unwrap();
    assert_eq!(w.bytes(), &[0xFF, 0xFF, 0xFF, 0xFF, 0x0F]);
}

#[test]
fn varuint_round_trip_values() {
    for val in [0u32, 1, 127, 128, 300, 0xFFFF, u32::MAX] {
        let mut w = ByteWriter::new(16);
        w.write_varuint32(val).unwrap();
        let buf = w.into_vec();
        let mut r = ByteReader::new(&buf);
        assert_eq!(r.read_varuint32().unwrap(), val);
        assert!(r.eof());
    }
    for val in [0u64, 128, 1 << 35, u64::MAX] {
        let mut w = ByteWriter::new(16);
        w.write_varuint64(val).unwrap();
        let buf = w.into_vec();
        let mut r = ByteReader::new(&buf);
        assert_eq!(r.read_varuint64().unwrap(), val);
        assert!(r.eof());
    }
}

#[test]
fn varuint_read_accepts_overlong_and_discards_overwidth() {
    // 1 encoded with a redundant continuation group.
    let overlong = [0x81, 0x00];
    let mut r = ByteReader::new(&overlong);
    assert_eq!(r.read_varuint32().unwrap(), 1);
    assert!(r.eof());

    // A 64-bit two's-complement -1 read into 32 bits: high bits discarded.
    let wide = [0xFF, 0xFF, 0xFF, 0xFF, 0xFF, 0xFF, 0xFF, 0xFF, 0xFF, 0x01];
    let mut r = ByteReader::new(&wide);
    assert_eq!(r.read_varuint32().unwrap(), u32::MAX);
    assert!(r.eof());
}

#[test]
fn varuint_truncated_fails() {
    let mut r = ByteReader::new(&[0x96]);
    assert!(r.read_varuint32().is_err());

    let mut r = ByteReader::new(&[]);
    assert!(r.read_varuint32().is_err());

    let mut r = ByteReader::new(&[0x80, 0x80, 0x80]);
    assert!(r.read_varuint64().is_err());
}

#[test]
fn zigzag_boundaries() {
    for val in [i32::MIN, i32::MIN + 1, -1, 0, 1, i32::MAX - 1, i32::MAX] {
        let mut w = ByteWriter::new(16);
        w.write_varint32(val).unwrap();
        let buf = w.into_vec();
        let mut r = ByteReader::new(&buf);
        assert_eq!(r.read_varint32().unwrap(), val);
    }
    for val in [i64::MIN, -1, 0, 1, i64::MAX] {
        let mut w = ByteWriter::new(16);
        w.write_varint64(val).unwrap();
        let buf = w.into_vec();
        let mut r = ByteReader::new(&buf);
        assert_eq!(r.read_varint64().unwrap(), val);
    }

    // Small magnitudes map to small unsigned values: -1 encodes as 1.
    let mut w = ByteWriter::new(16);
    w.write_varint32(-1).unwrap();
    assert_eq!(w.bytes(), &[0x01]);
    let mut w = ByteWriter::new(16);
    w.write_varint32(1).unwrap();
    assert_eq!(w.bytes(), &[0x02]);
}

#[test]
fn fixed_width_little_endian() {
    let mut w = ByteWriter::new(32);
    w.write_u8(0xAB).unwrap();
    w.write_u16(0x0201).unwrap();
    w.write_u32(0x04030201).unwrap();
    w.write_u64(0x0807060504030201).unwrap();
    let buf = w.into_vec();
    assert_eq!(
        buf,
        vec![
            0xAB, 0x01, 0x02, 0x01, 0x02, 0x03, 0x04, 0x01, 0x02, 0x03, 0x04, 0x05, 0x06, 0x07,
            0x08
        ]
    );
    let mut r = ByteReader::new(&buf);
    assert_eq!(r.read_u8().unwrap(), 0xAB);
    assert_eq!(r.read_u16().unwrap(), 0x0201);
    assert_eq!(r.read_u32().unwrap(), 0x04030201);
    assert_eq!(r.read_u64().unwrap(), 0x0807060504030201);
    assert!(r.eof());
}

#[test]
fn slices_and_read_to_end() {
    let data = [1u8, 2, 3, 4, 5];
    let mut r = ByteReader::new(&data);
    assert_eq!(r.inner(), &[1, 2, 3, 4, 5]);
    assert_eq!(r.read_slice(2).unwrap(), &[1, 2]);
    assert_eq!(r.read_to_end().unwrap(), &[3, 4, 5]);
    assert!(r.eof());

    let mut r = ByteReader::new(&data);
    assert!(r.read_slice(6).is_err());
}

#[test]
fn varslice_and_varuint_bytes() {
    let data = [0x03, 0x0A, 0x0B, 0x0C, 0xFF];
    let mut r = ByteReader::new(&data);
    assert_eq!(r.read_varslice().unwrap(), &[0x0A, 0x0B, 0x0C]);
    assert_eq!(r.inner(), &[0xFF]);

    // The raw bytes of one varint, terminator included.
    let data2 = [0xAC, 0x02, 0x07];
    let mut r = ByteReader::new(&data2);
    assert_eq!(r.read_varuint_bytes().unwrap(), &[0xAC, 0x02]);
    assert_eq!(r.inner(), &[0x07]);

    // Truncated length-delimited payload.
    let data3 = [0x05, 0x01];
    let mut r = ByteReader::new(&data3);
    assert!(r.read_varslice().is_err());
}

#[test]
fn field_walker_yields_fields() {
    // Two fields: tag 1 varint 150, tag 2 length-delimited "AB".
    let data = [0x08, 0x96, 0x01, 0x12, 0x02, 0x41, 0x42];
    let r = ByteReader::new(&data);
    let mut it = r.read_fields();

    let f1 = it.next().unwrap().unwrap();
    assert_eq!(f1.tag(), 1);
    assert_eq!(f1.wire_type(), WireType::Varint);

    let f2 = it.next().unwrap().unwrap();
    assert_eq!(f2.tag(), 2);
    assert_eq!(f2.wire_type(), WireType::LengthDelimited);

    assert!(it.next().is_none());
}

#[test]
fn field_walker_reports_malformed_fields() {
    // Truncated header.
    let data = [0x80];
    let r = ByteReader::new(&data);
    let mut it = r.read_fields();
    assert!(it.next().unwrap().is_err());

    // Reserved wire type 5.
    let data2 = [0x0D, 0x00, 0x00, 0x00, 0x00];
    let r2 = ByteReader::new(&data2);
    let mut it2 = r2.read_fields();
    assert!(it2.next().unwrap().is_err());
}

#[test]
fn writer_overflow_keeps_earlier_bytes() {
    let mut w = ByteWriter::new(2);
    w.write_u8(0x01).unwrap();
    assert!(w.write(&[0x02, 0x03]).is_err());
    // The failed write changed nothing.
    assert_eq!(w.bytes(), &[0x01]);
    assert_eq!(w.pos(), 1);

    // A varint that overflows mid-way leaves its emitted groups in place:
    // the cursor is poisoned and must not be shipped.
    let mut w = ByteWriter::new(1);
    assert!(w.write_varuint32(300).is_err());
    assert_eq!(w.pos(), 1);
}

#[test]
fn length_delimited_frame_bytes() {
    // Framing a three-byte body: the cursor advances by the body plus the
    // one-byte length prefix.
    let mut w = ByteWriter::new(16);
    let body: BoundedBytes<8> = BoundedBytes::from_bytes(vec![0xAA, 0xBB, 0xCC]).unwrap();
    w.write_length_delimited(&body).unwrap();
    assert_eq!(w.bytes(), &[0x03, 0xAA, 0xBB, 0xCC]);
    assert_eq!(w.pos(), 4);

    // The frame must fit the buffer, prefix included.
    let mut w = ByteWriter::new(3);
    assert!(w.write_length_delimited(&body).is_err());
}

#[test]
fn strict_narrowing_on_small_scalars() {
    // 256 does not fit a u8 field; over-width silence applies only to the
    // 32- and 64-bit reads.
    let bytes = [0x80, 0x02];
    let res: Result<u8, ReadError> = noproto::read(&bytes);
    assert!(res.is_err());

    let ok: u8 = noproto::read(&[0xFF, 0x01]).unwrap();
    assert_eq!(ok, 255);

    let res16: Result<u16, ReadError> = noproto::read(&[0x80, 0x80, 0x04]);
    assert!(res16.is_err());

    let i8_min: i8 = noproto::read(&[0xFF, 0x01]).unwrap();
    assert_eq!(i8_min, -128);
    let res8: Result<i8, ReadError> = noproto::read(&[0x81, 0x02]);
    assert!(res8.is_err());
}

#[test]
fn scalar_top_level_round_trips() {
    let b: bool = noproto::read(&noproto::write(&true, 8).unwrap()).unwrap();
    assert!(b);
    let bad_bool: Result<bool, ReadError> = noproto::read(&[0x02]);
    assert!(bad_bool.is_err());

    let u: u64 = noproto::read(&noproto::write(&u64::MAX, 16).unwrap()).unwrap();
    assert_eq!(u, u64::MAX);
    let i: i64 = noproto::read(&noproto::write(&i64::MIN, 16).unwrap()).unwrap();
    assert_eq!(i, i64::MIN);
    let i16v: i16 = noproto::read(&noproto::write(&-12345i16, 16).unwrap()).unwrap();
    assert_eq!(i16v, -12345);
    let u16v: u16 = noproto::read(&noproto::write(&54321u16, 16).unwrap()).unwrap();
    assert_eq!(u16v, 54321);
}

#[test]
fn bounded_bytes_round_trip() {
    let blob: BoundedBytes<4> = BoundedBytes::from_bytes(vec![0x00, 0xFF]).unwrap();
    let out = noproto::write(&blob, 16).unwrap();
    assert_eq!(out, vec![0x00, 0xFF]);
    let back: BoundedBytes<4> = noproto::read(&out).unwrap();
    assert_eq!(back.as_bytes(), &[0x00, 0xFF]);

    // Five bytes into a capacity of four.
    let too_big: Result<BoundedBytes<4>, ReadError> = noproto::read(&[1, 2, 3, 4, 5]);
    assert!(too_big.is_err());

    assert!(BoundedBytes::<4>::from_bytes(vec![1, 2, 3, 4, 5]).is_none());
}

#[test]
fn fixed_size_array_read() {
    let data = [9u8, 8, 7, 6];
    let mut r = ByteReader::new(&data);
    let a: [u8; 3] = r.read().unwrap();
    assert_eq!(a, [9, 8, 7]);
    assert_eq!(r.inner(), &[6]);
    let short: Result<[u8; 2], ReadError> = r.read();
    assert!(short.is_err());
}
