//! End-to-end scenarios over the example message types: exact wire bytes
//! and parse results.

use noproto::bounded::{BoundedString, Repeated};
use noproto::sample::{Color, Counter, Delta, Drawing, Gauge, Label, Outer, Palette, Readings, Shape};
use noproto::read::ByteReader;
use noproto::{read, Oneof, RepeatedMessage};

#[test]
fn single_u32_field_bytes() {
    let msg = Counter { count: 150 };
    let out = noproto::write(&msg, 64).unwrap();
    assert_eq!(out, vec![0x08, 0x96, 0x01]);
    let back: Counter = read(&out).unwrap();
    assert_eq!(back.count, 150);
}

#[test]
fn single_signed_field_bytes() {
    let msg = Delta { step: -1 };
    let out = noproto::write(&msg, 64).unwrap();
    assert_eq!(out, vec![0x08, 0x01]);
    let back: Delta = read(&out).unwrap();
    assert_eq!(back.step, -1);
}

#[test]
fn single_string_field_bytes() {
    let text: BoundedString<8> = BoundedString::from_bytes(vec![0x41, 0x42]).unwrap();
    let msg = Label { text };
    let out = noproto::write(&msg, 64).unwrap();
    assert_eq!(out, vec![0x12, 0x02, 0x41, 0x42]);
    let back: Label = read(&out).unwrap();
    assert_eq!(back.text.as_bytes(), &[0x41, 0x42]);
}

#[test]
fn repeated_u32_field_bytes() {
    let mut values: Repeated<u32, 4> = Repeated::new();
    values.append(1).unwrap();
    values.append(300).unwrap();
    let msg = Readings { values };
    let out = noproto::write(&msg, 64).unwrap();
    assert_eq!(out, vec![0x18, 0x01, 0x18, 0xAC, 0x02]);
    let back: Readings = read(&out).unwrap();
    assert_eq!(back.values.len(), 2);
    assert_eq!(*back.values.get(0), 1);
    assert_eq!(*back.values.get(1), 300);
}

#[test]
fn nested_message_bytes() {
    let msg = Outer { inner: Counter { count: 42 } };
    let out = noproto::write(&msg, 64).unwrap();
    assert_eq!(out, vec![0x0A, 0x02, 0x08, 0x2A]);
    let back: Outer = read(&out).unwrap();
    assert_eq!(back.inner.count, 42);
}

#[test]
fn enumeration_bytes_and_unknown_discriminant() {
    let msg = Palette { color: Color::Blue };
    let out = noproto::write(&msg, 64).unwrap();
    assert_eq!(out, vec![0x38, 0x07]);
    let back: Palette = read(&out).unwrap();
    assert_eq!(back.color, Color::Blue);

    // An enumeration serializes as its bare discriminant.
    let raw = noproto::write(&Color::Blue, 8).unwrap();
    assert_eq!(raw, vec![0x07]);

    // Discriminant 4 matches no variant: the decode fails.
    let bad: Result<Palette, _> = read(&[0x38, 0x04]);
    assert!(bad.is_err());
}

#[test]
fn empty_buffer_parses_to_default() {
    let c: Counter = read(&[]).unwrap();
    assert_eq!(c.count, 0);
    let g: Gauge = read(&[]).unwrap();
    assert_eq!(g.limit, None);
    let d: Drawing = read(&[]).unwrap();
    assert_eq!(d.shape, None);
}

#[test]
fn optional_field_round_trip() {
    let msg = Gauge { limit: Some(300) };
    let out = noproto::write(&msg, 64).unwrap();
    assert_eq!(out, vec![0x10, 0xAC, 0x02]);
    let back: Gauge = read(&out).unwrap();
    assert_eq!(back.limit, Some(300));

    // An absent optional field writes nothing and reads back as absent.
    let none = Gauge { limit: None };
    let out2 = noproto::write(&none, 64).unwrap();
    assert_eq!(out2, Vec::<u8>::new());
}

#[test]
fn oneof_writes_exactly_one_field() {
    let circle = Drawing { shape: Some(Shape::Circle(5)) };
    let out = noproto::write(&circle, 64).unwrap();
    assert_eq!(out, vec![0x28, 0x05]);

    let square = Drawing { shape: Some(Shape::Square(7)) };
    let out2 = noproto::write(&square, 64).unwrap();
    assert_eq!(out2, vec![0x30, 0x07]);

    let back: Drawing = read(&out2).unwrap();
    assert_eq!(back.shape, Some(Shape::Square(7)));
}

#[test]
fn oneof_last_seen_tag_wins() {
    // One circle field followed by one square field: the square stays.
    let bytes = [0x28, 0x05, 0x30, 0x07];
    let back: Drawing = read(&bytes).unwrap();
    assert_eq!(back.shape, Some(Shape::Square(7)));
}

#[test]
fn unknown_tag_is_discarded() {
    // A counter encoding followed by an unknown varint field at tag 2.
    let bytes = [0x08, 0x96, 0x01, 0x10, 0x05];
    let back: Counter = read(&bytes).unwrap();
    assert_eq!(back.count, 150);

    // An unknown length-delimited field at tag 3 is skipped as well.
    let bytes2 = [0x08, 0x2A, 0x1A, 0x02, 0xDE, 0xAD];
    let back2: Counter = read(&bytes2).unwrap();
    assert_eq!(back2.count, 42);
}

#[test]
fn wire_type_mismatch_fails() {
    // Tag 1 as a length-delimited field cannot parse into the varint-typed
    // counter field.
    let bytes = [0x0A, 0x00];
    let res: Result<Counter, _> = read(&bytes);
    assert!(res.is_err());
}

#[test]
fn reserved_wire_types_fail() {
    // Wire-type codes 1, 3, 4 and 5 are reserved.
    for wt in [1u8, 3, 4, 5] {
        let bytes = [(1 << 3) | wt, 0x00];
        let res: Result<Counter, _> = read(&bytes);
        assert!(res.is_err(), "wire type {} must fail", wt);
    }
}

#[test]
fn repeated_overflow_fails() {
    // Five elements on the wire, capacity four: the append fails the parse.
    let bytes = [0x18, 0x01, 0x18, 0x02, 0x18, 0x03, 0x18, 0x04, 0x18, 0x05];
    let res: Result<Readings, _> = read(&bytes);
    assert!(res.is_err());

    let ok_bytes = [0x18, 0x01, 0x18, 0x02, 0x18, 0x03, 0x18, 0x04];
    let ok: Readings = read(&ok_bytes).unwrap();
    assert_eq!(ok.values.len(), 4);
}

#[test]
fn string_overflow_and_invalid_utf8_fail() {
    // Nine bytes into a capacity of eight.
    let bytes = [0x12, 0x09, 0x61, 0x61, 0x61, 0x61, 0x61, 0x61, 0x61, 0x61, 0x61];
    let res: Result<Label, _> = read(&bytes);
    assert!(res.is_err());

    // 0xFF is never valid UTF-8.
    let bad = [0x12, 0x01, 0xFF];
    let res2: Result<Label, _> = read(&bad);
    assert!(res2.is_err());
}

#[test]
fn write_overflow_reports_error() {
    let msg = Counter { count: 150 };
    assert!(noproto::write(&msg, 2).is_err());
    // The encoding is exactly three bytes, so three is enough.
    let out = noproto::write(&msg, 3).unwrap();
    assert_eq!(out.len(), 3);
}

#[test]
fn round_trip_composites() {
    let msgs = [
        Counter { count: 0 },
        Counter { count: 1 },
        Counter { count: u32::MAX },
    ];
    for m in msgs {
        let out = noproto::write(&m, 64).unwrap();
        let back: Counter = read(&out).unwrap();
        assert_eq!(back, m);
    }

    let deltas = [i32::MIN, -1, 0, 1, i32::MAX];
    for d in deltas {
        let m = Delta { step: d };
        let out = noproto::write(&m, 64).unwrap();
        let back: Delta = read(&out).unwrap();
        assert_eq!(back, m);
    }
}

#[test]
fn byte_stability_equal_values_equal_bytes() {
    let a = Outer { inner: Counter { count: 7 } };
    let b = Outer { inner: Counter { count: 7 } };
    assert_eq!(noproto::write(&a, 64).unwrap(), noproto::write(&b, 64).unwrap());
}

#[test]
fn nested_optional_oneof_is_rejected() {
    // A oneof holder nested inside another optional holder is a schema
    // misuse: the read path always fails, whatever the field carries.
    let data = [0x28, 0x05];
    let r = ByteReader::new(&data);
    let mut it = r.read_fields();
    let f = it.next().unwrap().unwrap();
    let mut holder: Option<Option<Shape>> = None;
    assert!(<Option<Shape> as Oneof>::read_raw_option(&mut holder, f).is_err());
    assert_eq!(holder, None);
}

#[test]
fn oneof_unknown_tag_fails() {
    // A field whose tag matches no variant of the oneof.
    let data = [0x48, 0x05];
    let r = ByteReader::new(&data);
    let mut it = r.read_fields();
    let f = it.next().unwrap().unwrap();
    let mut shape = Shape::Circle(0);
    assert!(f.read_oneof(&mut shape).is_err());
}
