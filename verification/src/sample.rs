//! Example message types, written the way the schema layer's generated code
//! targets the codec: fields serialized in ascending tag order through
//! [`ByteWriter::write_field`] and friends, and parsed by walking the field
//! stream, dispatching on each tag and silently discarding unrecognized
//! ones.
//!
//! Each type's parse function is a [`msg_fold`] over its field-dispatch
//! step, and each proves the round-trip obligation of [`Message`].

use vstd::prelude::*;

use crate::read::{ByteReader, FieldReader, ReadError};
use crate::wire::{
    field_enc, field_header, lemma_field_enc_dec, lemma_varuint_enc_structure, msg_fold,
    FieldView,
};
use crate::write::{ByteWriter, WriteError};
use crate::bounded::{BoundedString, Repeated};
use crate::{
    optional_field_step, repeated_enc, repeated_field_step, single_field_step, Message, Oneof,
    RepeatedMessage, WireType,
};

verus! {

/// A message with a single `u32` field at tag 1.
#[derive(Clone, Copy, Debug, PartialEq, Eq, Structural)]
pub struct Counter {
    /// Field at tag 1.
    pub count: u32,
}

impl View for Counter {
    type V = Counter;

    open spec fn view(&self) -> Counter {
        *self
    }
}

impl Counter {
    /// Field dispatch: tag 1 is the counter value; other tags are
    /// discarded.
    pub open spec fn step_spec() -> spec_fn(Counter, FieldView) -> Option<Counter> {
        |m: Counter, f: FieldView|
            if f.tag == 1 {
                match single_field_step::<u32>(m.count, f) {
                    Some(v) => Some(Counter { count: v }),
                    None => None,
                }
            } else {
                Some(m)
            }
    }
}

impl Message for Counter {
    open spec fn wire_type_spec() -> WireType {
        WireType::LengthDelimited
    }

    open spec fn default_spec() -> Counter {
        Counter { count: 0 }
    }

    open spec fn enc_spec(v: Counter) -> Seq<u8> {
        field_enc(1, WireType::Varint, <u32 as Message>::enc_spec(v.count))
    }

    open spec fn rd_spec(init: Counter, data: Seq<u8>) -> Option<(Counter, Seq<u8>)> {
        msg_fold(init, data, Counter::step_spec())
    }

    proof fn lemma_enc_wf(&self) {
        lemma_varuint_enc_structure(field_header(1, WireType::Varint) as u64);
        lemma_varuint_enc_structure(self.count as u64);
    }

    proof fn lemma_round_trip(&self) {
        let payload = <u32 as Message>::enc_spec(self.count);
        let enc = Self::enc_spec(*self);
        let fv = FieldView { tag: 1, wt: WireType::Varint, payload };
        lemma_varuint_enc_structure(self.count as u64);
        lemma_field_enc_dec(1, WireType::Varint, payload, Seq::<u8>::empty());
        assert(enc + Seq::<u8>::empty() =~= enc);
        assert(crate::wire::field_dec(enc) == Some((fv, Seq::<u8>::empty())));
        crate::wire::lemma_varuint32_round_trip(self.count, Seq::<u8>::empty());
        assert(payload + Seq::<u8>::empty() =~= payload);
        assert(single_field_step::<u32>(0u32, fv) == Some(self.count));
        assert(Counter::step_spec()(Counter { count: 0 }, fv) == Some(*self));
        lemma_varuint_enc_structure(field_header(1, WireType::Varint) as u64);
        assert(enc.len() > 0);
        assert(msg_fold(*self, Seq::<u8>::empty(), Counter::step_spec()) == Some(
            (*self, Seq::<u8>::empty()),
        ));
    }

    fn wire_type() -> WireType {
        WireType::LengthDelimited
    }

    fn default_value() -> Self {
        Counter { count: 0 }
    }

    fn write_raw(&self, w: &mut ByteWriter) -> Result<(), WriteError> {
        w.write_field(1, &self.count)
    }

    fn read_raw(&mut self, r: &mut ByteReader) -> (res: Result<(), ReadError>) {
        while !r.eof()
            invariant
                self.wf(),
                Self::rd_spec(old(self)@, old(r)@) == Self::rd_spec(self@, r@),
            decreases r@.len(),
        {
            let ghost prer = r@;
            let ghost mid = *self;
            let f = match r.next_field() {
                None => {
                    return Ok(());
                },
                Some(Ok(f)) => f,
                Some(Err(e)) => {
                    return Err(e);
                },
            };
            let ghost fv = f@;
            proof {
                crate::wire::lemma_field_dec_consumes(prer);
            }
            if f.tag() == 1 {
                match f.read(&mut self.count) {
                    Ok(()) => {
                        proof {
                            assert(Counter::step_spec()(mid, fv) == Some(*self));
                        }
                    },
                    Err(e) => {
                        proof {
                            assert(Counter::step_spec()(mid, fv) is None);
                        }
                        return Err(e);
                    },
                }
            } else {
                proof {
                    assert(Counter::step_spec()(mid, fv) == Some(mid));
                }
            }
        }
        Ok(())
    }
}

/// A message with a single zigzag-encoded `i32` field at tag 1.
#[derive(Clone, Copy, Debug, PartialEq, Eq, Structural)]
pub struct Delta {
    /// Field at tag 1.
    pub step: i32,
}

impl View for Delta {
    type V = Delta;

    open spec fn view(&self) -> Delta {
        *self
    }
}

impl Delta {
    /// Field dispatch: tag 1 is the step value; other tags are discarded.
    pub open spec fn step_spec() -> spec_fn(Delta, FieldView) -> Option<Delta> {
        |m: Delta, f: FieldView|
            if f.tag == 1 {
                match single_field_step::<i32>(m.step, f) {
                    Some(v) => Some(Delta { step: v }),
                    None => None,
                }
            } else {
                Some(m)
            }
    }
}

impl Message for Delta {
    open spec fn wire_type_spec() -> WireType {
        WireType::LengthDelimited
    }

    open spec fn default_spec() -> Delta {
        Delta { step: 0 }
    }

    open spec fn enc_spec(v: Delta) -> Seq<u8> {
        field_enc(1, WireType::Varint, <i32 as Message>::enc_spec(v.step))
    }

    open spec fn rd_spec(init: Delta, data: Seq<u8>) -> Option<(Delta, Seq<u8>)> {
        msg_fold(init, data, Delta::step_spec())
    }

    proof fn lemma_enc_wf(&self) {
        lemma_varuint_enc_structure(field_header(1, WireType::Varint) as u64);
        lemma_varuint_enc_structure(crate::wire::zigzag32(self.step) as u64);
    }

    proof fn lemma_round_trip(&self) {
        let payload = <i32 as Message>::enc_spec(self.step);
        let enc = Self::enc_spec(*self);
        let fv = FieldView { tag: 1, wt: WireType::Varint, payload };
        let z = crate::wire::zigzag32(self.step);
        lemma_varuint_enc_structure(z as u64);
        lemma_field_enc_dec(1, WireType::Varint, payload, Seq::<u8>::empty());
        assert(enc + Seq::<u8>::empty() =~= enc);
        assert(crate::wire::field_dec(enc) == Some((fv, Seq::<u8>::empty())));
        crate::wire::lemma_varuint32_round_trip(z, Seq::<u8>::empty());
        crate::wire::lemma_zigzag32_round_trip(self.step);
        assert(payload + Seq::<u8>::empty() =~= payload);
        assert(single_field_step::<i32>(0i32, fv) == Some(self.step));
        assert(Delta::step_spec()(Delta { step: 0 }, fv) == Some(*self));
        lemma_varuint_enc_structure(field_header(1, WireType::Varint) as u64);
        assert(enc.len() > 0);
        assert(msg_fold(*self, Seq::<u8>::empty(), Delta::step_spec()) == Some(
            (*self, Seq::<u8>::empty()),
        ));
    }

    fn wire_type() -> WireType {
        WireType::LengthDelimited
    }

    fn default_value() -> Self {
        Delta { step: 0 }
    }

    fn write_raw(&self, w: &mut ByteWriter) -> Result<(), WriteError> {
        w.write_field(1, &self.step)
    }

    fn read_raw(&mut self, r: &mut ByteReader) -> (res: Result<(), ReadError>) {
        while !r.eof()
            invariant
                self.wf(),
                Self::rd_spec(old(self)@, old(r)@) == Self::rd_spec(self@, r@),
            decreases r@.len(),
        {
            let ghost prer = r@;
            let ghost mid = *self;
            let f = match r.next_field() {
                None => {
                    return Ok(());
                },
                Some(Ok(f)) => f,
                Some(Err(e)) => {
                    return Err(e);
                },
            };
            let ghost fv = f@;
            proof {
                crate::wire::lemma_field_dec_consumes(prer);
            }
            if f.tag() == 1 {
                match f.read(&mut self.step) {
                    Ok(()) => {
                        proof {
                            assert(Delta::step_spec()(mid, fv) == Some(*self));
                        }
                    },
                    Err(e) => {
                        proof {
                            assert(Delta::step_spec()(mid, fv) is None);
                        }
                        return Err(e);
                    },
                }
            } else {
                proof {
                    assert(Delta::step_spec()(mid, fv) == Some(mid));
                }
            }
        }
        Ok(())
    }
}

/// The view of a [`Label`]: the text field's UTF-8 bytes.
pub struct LabelV {
    /// View of the field at tag 2.
    pub text: Seq<u8>,
}

/// A message with a single bounded string field at tag 2.
pub struct Label {
    /// Field at tag 2.
    pub text: BoundedString<8>,
}

impl View for Label {
    type V = LabelV;

    open spec fn view(&self) -> LabelV {
        LabelV { text: self.text@ }
    }
}

impl Label {
    /// Field dispatch: tag 2 is the text; other tags are discarded.
    pub open spec fn step_spec() -> spec_fn(LabelV, FieldView) -> Option<LabelV> {
        |m: LabelV, f: FieldView|
            if f.tag == 2 {
                match single_field_step::<BoundedString<8>>(m.text, f) {
                    Some(v) => Some(LabelV { text: v }),
                    None => None,
                }
            } else {
                Some(m)
            }
    }
}

impl Message for Label {
    open spec fn wire_type_spec() -> WireType {
        WireType::LengthDelimited
    }

    open spec fn wf(&self) -> bool {
        self.text.wf()
    }

    open spec fn default_spec() -> LabelV {
        LabelV { text: Seq::<u8>::empty() }
    }

    open spec fn enc_spec(v: LabelV) -> Seq<u8> {
        field_enc(2, WireType::LengthDelimited, v.text)
    }

    open spec fn rd_spec(init: LabelV, data: Seq<u8>) -> Option<(LabelV, Seq<u8>)> {
        msg_fold(init, data, Label::step_spec())
    }

    proof fn lemma_enc_wf(&self) {
        lemma_varuint_enc_structure(field_header(2, WireType::LengthDelimited) as u64);
        lemma_varuint_enc_structure(self.text@.len() as u64);
    }

    proof fn lemma_round_trip(&self) {
        let payload = self.text@;
        let enc = Self::enc_spec(self@);
        let fv = FieldView { tag: 2, wt: WireType::LengthDelimited, payload };
        lemma_field_enc_dec(2, WireType::LengthDelimited, payload, Seq::<u8>::empty());
        assert(enc + Seq::<u8>::empty() =~= enc);
        assert(crate::wire::field_dec(enc) == Some((fv, Seq::<u8>::empty())));
        assert(single_field_step::<BoundedString<8>>(Seq::<u8>::empty(), fv) == Some(payload));
        assert(Label::step_spec()(Self::default_spec(), fv) == Some(self@));
        lemma_varuint_enc_structure(field_header(2, WireType::LengthDelimited) as u64);
        assert(enc.len() > 0);
        assert(msg_fold(self@, Seq::<u8>::empty(), Label::step_spec()) == Some(
            (self@, Seq::<u8>::empty()),
        ));
    }

    fn wire_type() -> WireType {
        WireType::LengthDelimited
    }

    fn default_value() -> Self {
        Label { text: <BoundedString<8> as Message>::default_value() }
    }

    fn write_raw(&self, w: &mut ByteWriter) -> Result<(), WriteError> {
        w.write_field(2, &self.text)
    }

    fn read_raw(&mut self, r: &mut ByteReader) -> (res: Result<(), ReadError>) {
        while !r.eof()
            invariant
                self.wf(),
                Self::rd_spec(old(self)@, old(r)@) == Self::rd_spec(self@, r@),
            decreases r@.len(),
        {
            let ghost prer = r@;
            let ghost mid = self@;
            let f = match r.next_field() {
                None => {
                    return Ok(());
                },
                Some(Ok(f)) => f,
                Some(Err(e)) => {
                    return Err(e);
                },
            };
            let ghost fv = f@;
            proof {
                crate::wire::lemma_field_dec_consumes(prer);
            }
            if f.tag() == 2 {
                match f.read(&mut self.text) {
                    Ok(()) => {
                        proof {
                            assert(Label::step_spec()(mid, fv) == Some(self@));
                        }
                    },
                    Err(e) => {
                        proof {
                            assert(Label::step_spec()(mid, fv) is None);
                        }
                        return Err(e);
                    },
                }
            } else {
                proof {
                    assert(Label::step_spec()(mid, fv) == Some(mid));
                }
            }
        }
        Ok(())
    }
}


/// A message with a repeated `u32` field at tag 3, holding at most four
/// elements. Its view is the sequence of element values.
pub struct Readings {
    /// Field at tag 3.
    pub values: Repeated<u32, 4>,
}

impl View for Readings {
    type V = Seq<u32>;

    open spec fn view(&self) -> Seq<u32> {
        self.values.elems()
    }
}

impl Readings {
    /// Field dispatch: tag 3 appends one element; other tags are discarded.
    pub open spec fn step_spec() -> spec_fn(Seq<u32>, FieldView) -> Option<Seq<u32>> {
        |m: Seq<u32>, f: FieldView|
            if f.tag == 3 {
                repeated_field_step::<u32>(m, 4, f)
            } else {
                Some(m)
            }
    }
}

/// Parsing the encoding of `rest` element by element appends them, in
/// order, to the elements already parsed.
proof fn lemma_readings_parse(cur: Seq<u32>, rest: Seq<u32>)
    requires
        cur.len() + rest.len() <= 4,
    ensures
        msg_fold(cur, repeated_enc::<u32>(3, rest), Readings::step_spec()) == Some(
            (cur + rest, Seq::<u8>::empty()),
        ),
    decreases rest.len(),
{
    if rest.len() == 0 {
        assert(cur + rest =~= cur);
        assert(repeated_enc::<u32>(3, rest) == Seq::<u8>::empty());
    } else {
        let e = rest[0];
        let payload = <u32 as Message>::enc_spec(e);
        let fv = FieldView { tag: 3, wt: WireType::Varint, payload };
        let tail_enc = repeated_enc::<u32>(3, rest.drop_first());
        lemma_varuint_enc_structure(e as u64);
        lemma_field_enc_dec(3, WireType::Varint, payload, tail_enc);
        assert(repeated_enc::<u32>(3, rest) == field_enc(3, WireType::Varint, payload) + tail_enc);
        crate::wire::lemma_varuint32_round_trip(e, Seq::<u8>::empty());
        assert(payload + Seq::<u8>::empty() =~= payload);
        assert(repeated_field_step::<u32>(cur, 4, fv) == Some(cur.push(e)));
        lemma_readings_parse(cur.push(e), rest.drop_first());
        assert(cur.push(e) + rest.drop_first() =~= cur + rest);
        lemma_varuint_enc_structure(field_header(3, WireType::Varint) as u64);
        assert(repeated_enc::<u32>(3, rest).len() > 0);
    }
}

/// The encoding of `n` repeated `u32` elements takes at most six bytes per
/// element.
proof fn lemma_readings_enc_len(elems: Seq<u32>)
    ensures
        repeated_enc::<u32>(3, elems).len() <= 6 * elems.len(),
    decreases elems.len(),
{
    if elems.len() > 0 {
        crate::wire::lemma_field_header_val(3, WireType::Varint);
        lemma_varuint_enc_structure(field_header(3, WireType::Varint) as u64);
        lemma_varuint_enc_structure(elems[0] as u64);
        lemma_readings_enc_len(elems.drop_first());
    }
}

impl Message for Readings {
    open spec fn wire_type_spec() -> WireType {
        WireType::LengthDelimited
    }

    open spec fn wf(&self) -> bool {
        self.values.wf()
    }

    open spec fn default_spec() -> Seq<u32> {
        Seq::<u32>::empty()
    }

    open spec fn enc_spec(v: Seq<u32>) -> Seq<u8> {
        repeated_enc::<u32>(3, v)
    }

    open spec fn rd_spec(init: Seq<u32>, data: Seq<u8>) -> Option<(Seq<u32>, Seq<u8>)> {
        msg_fold(init, data, Readings::step_spec())
    }

    proof fn lemma_enc_wf(&self) {
        self.values.lemma_wf();
        lemma_readings_enc_len(self@);
        assert(repeated_enc::<u32>(3, self@).len() <= 24);
    }

    proof fn lemma_round_trip(&self) {
        self.values.lemma_wf();
        lemma_readings_parse(Seq::<u32>::empty(), self@);
        assert(Seq::<u32>::empty() + self@ =~= self@);
    }

    fn wire_type() -> WireType {
        WireType::LengthDelimited
    }

    fn default_value() -> Self {
        Readings { values: Repeated::new() }
    }

    fn write_raw(&self, w: &mut ByteWriter) -> Result<(), WriteError> {
        w.write_repeated(3, &self.values)
    }

    fn read_raw(&mut self, r: &mut ByteReader) -> (res: Result<(), ReadError>) {
        while !r.eof()
            invariant
                self.wf(),
                Self::rd_spec(old(self)@, old(r)@) == Self::rd_spec(self@, r@),
            decreases r@.len(),
        {
            let ghost prer = r@;
            let ghost mid = self@;
            let f = match r.next_field() {
                None => {
                    return Ok(());
                },
                Some(Ok(f)) => f,
                Some(Err(e)) => {
                    return Err(e);
                },
            };
            let ghost fv = f@;
            proof {
                crate::wire::lemma_field_dec_consumes(prer);
            }
            if f.tag() == 3 {
                match f.read_repeated(&mut self.values) {
                    Ok(()) => {
                        proof {
                            assert(Readings::step_spec()(mid, fv) == Some(self@));
                        }
                    },
                    Err(e) => {
                        proof {
                            assert(Readings::step_spec()(mid, fv) is None);
                        }
                        return Err(e);
                    },
                }
            } else {
                proof {
                    assert(Readings::step_spec()(mid, fv) == Some(mid));
                }
            }
        }
        Ok(())
    }
}

/// A message with a single nested [`Counter`] submessage at tag 1.
#[derive(Clone, Copy, Debug, PartialEq, Eq, Structural)]
pub struct Outer {
    /// Field at tag 1: a whole submessage, length-delimited on the wire.
    pub inner: Counter,
}

impl View for Outer {
    type V = Outer;

    open spec fn view(&self) -> Outer {
        *self
    }
}

impl Outer {
    /// Field dispatch: tag 1 merges into the submessage; other tags are
    /// discarded.
    pub open spec fn step_spec() -> spec_fn(Outer, FieldView) -> Option<Outer> {
        |m: Outer, f: FieldView|
            if f.tag == 1 {
                match single_field_step::<Counter>(m.inner, f) {
                    Some(v) => Some(Outer { inner: v }),
                    None => None,
                }
            } else {
                Some(m)
            }
    }
}

impl Message for Outer {
    open spec fn wire_type_spec() -> WireType {
        WireType::LengthDelimited
    }

    open spec fn default_spec() -> Outer {
        Outer { inner: Counter { count: 0 } }
    }

    open spec fn enc_spec(v: Outer) -> Seq<u8> {
        field_enc(1, WireType::LengthDelimited, <Counter as Message>::enc_spec(v.inner))
    }

    open spec fn rd_spec(init: Outer, data: Seq<u8>) -> Option<(Outer, Seq<u8>)> {
        msg_fold(init, data, Outer::step_spec())
    }

    proof fn lemma_enc_wf(&self) {
        lemma_varuint_enc_structure(field_header(1, WireType::Varint) as u64);
        lemma_varuint_enc_structure(self.inner.count as u64);
        assert(<Counter as Message>::enc_spec(self.inner).len() <= 20);
        lemma_varuint_enc_structure(field_header(1, WireType::LengthDelimited) as u64);
        lemma_varuint_enc_structure(<Counter as Message>::enc_spec(self.inner).len() as u64);
    }

    proof fn lemma_round_trip(&self) {
        let payload = <Counter as Message>::enc_spec(self.inner);
        let enc = Self::enc_spec(*self);
        let fv = FieldView { tag: 1, wt: WireType::LengthDelimited, payload };
        self.inner.lemma_enc_wf();
        lemma_field_enc_dec(1, WireType::LengthDelimited, payload, Seq::<u8>::empty());
        assert(enc + Seq::<u8>::empty() =~= enc);
        assert(crate::wire::field_dec(enc) == Some((fv, Seq::<u8>::empty())));
        self.inner.lemma_round_trip();
        assert(single_field_step::<Counter>(Counter { count: 0 }, fv) == Some(self.inner));
        assert(Outer::step_spec()(Self::default_spec(), fv) == Some(*self));
        lemma_varuint_enc_structure(field_header(1, WireType::LengthDelimited) as u64);
        assert(enc.len() > 0);
        assert(msg_fold(*self, Seq::<u8>::empty(), Outer::step_spec()) == Some(
            (*self, Seq::<u8>::empty()),
        ));
    }

    fn wire_type() -> WireType {
        WireType::LengthDelimited
    }

    fn default_value() -> Self {
        Outer { inner: Counter { count: 0 } }
    }

    fn write_raw(&self, w: &mut ByteWriter) -> Result<(), WriteError> {
        w.write_field(1, &self.inner)
    }

    fn read_raw(&mut self, r: &mut ByteReader) -> (res: Result<(), ReadError>) {
        while !r.eof()
            invariant
                self.wf(),
                Self::rd_spec(old(self)@, old(r)@) == Self::rd_spec(self@, r@),
            decreases r@.len(),
        {
            let ghost prer = r@;
            let ghost mid = *self;
            let f = match r.next_field() {
                None => {
                    return Ok(());
                },
                Some(Ok(f)) => f,
                Some(Err(e)) => {
                    return Err(e);
                },
            };
            let ghost fv = f@;
            proof {
                crate::wire::lemma_field_dec_consumes(prer);
            }
            if f.tag() == 1 {
                match f.read(&mut self.inner) {
                    Ok(()) => {
                        proof {
                            assert(Outer::step_spec()(mid, fv) == Some(*self));
                        }
                    },
                    Err(e) => {
                        proof {
                            assert(Outer::step_spec()(mid, fv) is None);
                        }
                        return Err(e);
                    },
                }
            } else {
                proof {
                    assert(Outer::step_spec()(mid, fv) == Some(mid));
                }
            }
        }
        Ok(())
    }
}

/// An enumeration with two variants, carried on the wire as its unsigned
/// discriminant: `Red` is 0 and `Blue` is 7. An unknown discriminant fails
/// the decode; there is no fallback to a default variant.
#[derive(Clone, Copy, Debug, PartialEq, Eq, Structural)]
pub enum Color {
    /// Discriminant 0; the semantic default.
    Red,
    /// Discriminant 7.
    Blue,
}

impl View for Color {
    type V = Color;

    open spec fn view(&self) -> Color {
        *self
    }
}

/// The wire discriminant of a color.
pub open spec fn color_disc(c: Color) -> u32 {
    match c {
        Color::Red => 0,
        Color::Blue => 7,
    }
}

/// The color a wire discriminant stands for, if any.
pub open spec fn color_of(d: u32) -> Option<Color> {
    if d == 0 {
        Some(Color::Red)
    } else if d == 7 {
        Some(Color::Blue)
    } else {
        None
    }
}

impl Message for Color {
    open spec fn wire_type_spec() -> WireType {
        WireType::Varint
    }

    open spec fn default_spec() -> Color {
        Color::Red
    }

    open spec fn enc_spec(v: Color) -> Seq<u8> {
        crate::wire::varuint_enc(color_disc(v) as u64)
    }

    open spec fn rd_spec(init: Color, data: Seq<u8>) -> Option<(Color, Seq<u8>)> {
        match crate::wire::vdec32(data) {
            Some((d, rest)) => match color_of(d) {
                Some(c) => Some((c, rest)),
                None => None,
            },
            None => None,
        }
    }

    proof fn lemma_enc_wf(&self) {
        lemma_varuint_enc_structure(color_disc(*self) as u64);
    }

    proof fn lemma_round_trip(&self) {
        let d = color_disc(*self);
        crate::wire::lemma_varuint32_round_trip(d, Seq::<u8>::empty());
        assert(crate::wire::varuint_enc(d as u64) + Seq::<u8>::empty() =~= crate::wire::varuint_enc(
            d as u64,
        ));
    }

    fn wire_type() -> WireType {
        WireType::Varint
    }

    fn default_value() -> Self {
        Color::Red
    }

    fn write_raw(&self, w: &mut ByteWriter) -> Result<(), WriteError> {
        match self {
            Color::Red => w.write_varuint32(0),
            Color::Blue => w.write_varuint32(7),
        }
    }

    fn read_raw(&mut self, r: &mut ByteReader) -> Result<(), ReadError> {
        let d = r.read_varuint32()?;
        *self = match d {
            0u32 => Color::Red,
            7u32 => Color::Blue,
            _ => {
                return Err(ReadError);
            },
        };
        Ok(())
    }
}

/// A message with a single enumeration field at tag 7.
#[derive(Clone, Copy, Debug, PartialEq, Eq, Structural)]
pub struct Palette {
    /// Field at tag 7.
    pub color: Color,
}

impl View for Palette {
    type V = Palette;

    open spec fn view(&self) -> Palette {
        *self
    }
}

impl Palette {
    /// Field dispatch: tag 7 is the color; other tags are discarded.
    pub open spec fn step_spec() -> spec_fn(Palette, FieldView) -> Option<Palette> {
        |m: Palette, f: FieldView|
            if f.tag == 7 {
                match single_field_step::<Color>(m.color, f) {
                    Some(v) => Some(Palette { color: v }),
                    None => None,
                }
            } else {
                Some(m)
            }
    }
}

impl Message for Palette {
    open spec fn wire_type_spec() -> WireType {
        WireType::LengthDelimited
    }

    open spec fn default_spec() -> Palette {
        Palette { color: Color::Red }
    }

    open spec fn enc_spec(v: Palette) -> Seq<u8> {
        field_enc(7, WireType::Varint, <Color as Message>::enc_spec(v.color))
    }

    open spec fn rd_spec(init: Palette, data: Seq<u8>) -> Option<(Palette, Seq<u8>)> {
        msg_fold(init, data, Palette::step_spec())
    }

    proof fn lemma_enc_wf(&self) {
        lemma_varuint_enc_structure(field_header(7, WireType::Varint) as u64);
        lemma_varuint_enc_structure(color_disc(self.color) as u64);
    }

    proof fn lemma_round_trip(&self) {
        let payload = <Color as Message>::enc_spec(self.color);
        let enc = Self::enc_spec(*self);
        let fv = FieldView { tag: 7, wt: WireType::Varint, payload };
        lemma_varuint_enc_structure(color_disc(self.color) as u64);
        lemma_field_enc_dec(7, WireType::Varint, payload, Seq::<u8>::empty());
        assert(enc + Seq::<u8>::empty() =~= enc);
        assert(crate::wire::field_dec(enc) == Some((fv, Seq::<u8>::empty())));
        self.color.lemma_round_trip();
        assert(single_field_step::<Color>(Color::Red, fv) == Some(self.color));
        assert(Palette::step_spec()(Self::default_spec(), fv) == Some(*self));
        lemma_varuint_enc_structure(field_header(7, WireType::Varint) as u64);
        assert(enc.len() > 0);
        assert(msg_fold(*self, Seq::<u8>::empty(), Palette::step_spec()) == Some(
            (*self, Seq::<u8>::empty()),
        ));
    }

    fn wire_type() -> WireType {
        WireType::LengthDelimited
    }

    fn default_value() -> Self {
        Palette { color: Color::Red }
    }

    fn write_raw(&self, w: &mut ByteWriter) -> Result<(), WriteError> {
        w.write_field(7, &self.color)
    }

    fn read_raw(&mut self, r: &mut ByteReader) -> (res: Result<(), ReadError>) {
        while !r.eof()
            invariant
                self.wf(),
                Self::rd_spec(old(self)@, old(r)@) == Self::rd_spec(self@, r@),
            decreases r@.len(),
        {
            let ghost prer = r@;
            let ghost mid = *self;
            let f = match r.next_field() {
                None => {
                    return Ok(());
                },
                Some(Ok(f)) => f,
                Some(Err(e)) => {
                    return Err(e);
                },
            };
            let ghost fv = f@;
            proof {
                crate::wire::lemma_field_dec_consumes(prer);
            }
            if f.tag() == 7 {
                match f.read(&mut self.color) {
                    Ok(()) => {
                        proof {
                            assert(Palette::step_spec()(mid, fv) == Some(*self));
                        }
                    },
                    Err(e) => {
                        proof {
                            assert(Palette::step_spec()(mid, fv) is None);
                        }
                        return Err(e);
                    },
                }
            } else {
                proof {
                    assert(Palette::step_spec()(mid, fv) == Some(mid));
                }
            }
        }
        Ok(())
    }
}

/// A oneof with two variants: a `u32` circle radius at tag 5, or a `u64`
/// square side at tag 6. Writing emits exactly the active variant's field.
#[derive(Clone, Copy, Debug, PartialEq, Eq, Structural)]
pub enum Shape {
    /// Variant at tag 5.
    Circle(u32),
    /// Variant at tag 6.
    Square(u64),
}

impl Oneof for Shape {
    type Model = Shape;

    open spec fn model(&self) -> Shape {
        *self
    }

    open spec fn enc_spec(v: Shape) -> Seq<u8> {
        match v {
            Shape::Circle(x) => field_enc(5, WireType::Varint, <u32 as Message>::enc_spec(x)),
            Shape::Square(x) => field_enc(6, WireType::Varint, <u64 as Message>::enc_spec(x)),
        }
    }

    open spec fn variant_of(f: FieldView) -> Option<Shape> {
        if f.tag == 5 {
            match optional_field_step::<u32>(f) {
                Some(x) => Some(Shape::Circle(x)),
                None => None,
            }
        } else if f.tag == 6 {
            match optional_field_step::<u64>(f) {
                Some(x) => Some(Shape::Square(x)),
                None => None,
            }
        } else {
            None
        }
    }

    open spec fn variant_opt_of(f: FieldView) -> Option<Shape> {
        Self::variant_of(f)
    }

    fn write_raw(&self, w: &mut ByteWriter) -> Result<(), WriteError> {
        match self {
            Shape::Circle(x) => w.write_field(5, x),
            Shape::Square(x) => w.write_field(6, x),
        }
    }

    fn read_raw(&mut self, f: FieldReader<'_>) -> Result<(), ReadError> {
        if f.tag() == 5 {
            let x = f.read_oneof_variant::<u32>()?;
            *self = Shape::Circle(x);
            Ok(())
        } else if f.tag() == 6 {
            let x = f.read_oneof_variant::<u64>()?;
            *self = Shape::Square(x);
            Ok(())
        } else {
            Err(ReadError)
        }
    }

    fn read_raw_option(this: &mut Option<Shape>, f: FieldReader<'_>) -> Result<(), ReadError> {
        if f.tag() == 5 {
            let x = f.read_oneof_variant::<u32>()?;
            *this = Some(Shape::Circle(x));
            Ok(())
        } else if f.tag() == 6 {
            let x = f.read_oneof_variant::<u64>()?;
            *this = Some(Shape::Square(x));
            Ok(())
        } else {
            Err(ReadError)
        }
    }
}

/// A message with a oneof field over tags 5 and 6, held behind an optional
/// oneof holder: absent until a matching field arrives, and overwritten by
/// each later one (the last seen tag wins).
#[derive(Clone, Copy, Debug, PartialEq, Eq, Structural)]
pub struct Drawing {
    /// Oneof field over tags 5 and 6.
    pub shape: Option<Shape>,
}

impl View for Drawing {
    type V = Drawing;

    open spec fn view(&self) -> Drawing {
        *self
    }
}

impl Drawing {
    /// Field dispatch: tags 5 and 6 select a oneof variant; other tags are
    /// discarded.
    pub open spec fn step_spec() -> spec_fn(Drawing, FieldView) -> Option<Drawing> {
        |m: Drawing, f: FieldView|
            if f.tag == 5 || f.tag == 6 {
                match <Option<Shape> as Oneof>::variant_of(f) {
                    Some(v) => Some(Drawing { shape: v }),
                    None => None,
                }
            } else {
                Some(m)
            }
    }
}

impl Message for Drawing {
    open spec fn wire_type_spec() -> WireType {
        WireType::LengthDelimited
    }

    open spec fn default_spec() -> Drawing {
        Drawing { shape: None }
    }

    open spec fn enc_spec(v: Drawing) -> Seq<u8> {
        <Option<Shape> as Oneof>::enc_spec(v.shape)
    }

    open spec fn rd_spec(init: Drawing, data: Seq<u8>) -> Option<(Drawing, Seq<u8>)> {
        msg_fold(init, data, Drawing::step_spec())
    }

    proof fn lemma_enc_wf(&self) {
        match self.shape {
            None => {},
            Some(Shape::Circle(x)) => {
                lemma_varuint_enc_structure(field_header(5, WireType::Varint) as u64);
                lemma_varuint_enc_structure(x as u64);
            },
            Some(Shape::Square(x)) => {
                lemma_varuint_enc_structure(field_header(6, WireType::Varint) as u64);
                lemma_varuint_enc_structure(x);
            },
        }
    }

    proof fn lemma_round_trip(&self) {
        lemma_drawing_parse_one(Self::default_spec(), self.shape);
    }

    fn wire_type() -> WireType {
        WireType::LengthDelimited
    }

    fn default_value() -> Self {
        Drawing { shape: None }
    }

    fn write_raw(&self, w: &mut ByteWriter) -> Result<(), WriteError> {
        proof {
            assert(self.shape.model() == self.shape);
        }
        w.write_oneof(&self.shape)
    }

    fn read_raw(&mut self, r: &mut ByteReader) -> (res: Result<(), ReadError>) {
        while !r.eof()
            invariant
                self.wf(),
                Self::rd_spec(old(self)@, old(r)@) == Self::rd_spec(self@, r@),
            decreases r@.len(),
        {
            let ghost prer = r@;
            let ghost mid = *self;
            let f = match r.next_field() {
                None => {
                    return Ok(());
                },
                Some(Ok(f)) => f,
                Some(Err(e)) => {
                    return Err(e);
                },
            };
            let ghost fv = f@;
            proof {
                crate::wire::lemma_field_dec_consumes(prer);
            }
            let tag = f.tag();
            if tag == 5 || tag == 6 {
                match f.read_oneof(&mut self.shape) {
                    Ok(()) => {
                        proof {
                            assert(self.shape.model() == self.shape);
                            assert(Drawing::step_spec()(mid, fv) == Some(*self));
                        }
                    },
                    Err(e) => {
                        proof {
                            assert(Drawing::step_spec()(mid, fv) is None);
                        }
                        return Err(e);
                    },
                }
            } else {
                proof {
                    assert(Drawing::step_spec()(mid, fv) == Some(mid));
                }
            }
        }
        Ok(())
    }
}

/// A message with one optional `u32` field at tag 2: zero or one occurrence
/// on the wire; zero occurrences leave the holder empty.
#[derive(Clone, Copy, Debug, PartialEq, Eq, Structural)]
pub struct Gauge {
    /// Optional field at tag 2.
    pub limit: Option<u32>,
}

impl View for Gauge {
    type V = Gauge;

    open spec fn view(&self) -> Gauge {
        *self
    }
}

impl Gauge {
    /// Field dispatch: tag 2 stores the limit; other tags are discarded.
    pub open spec fn step_spec() -> spec_fn(Gauge, FieldView) -> Option<Gauge> {
        |m: Gauge, f: FieldView|
            if f.tag == 2 {
                match optional_field_step::<u32>(f) {
                    Some(v) => Some(Gauge { limit: Some(v) }),
                    None => None,
                }
            } else {
                Some(m)
            }
    }
}

impl Message for Gauge {
    open spec fn wire_type_spec() -> WireType {
        WireType::LengthDelimited
    }

    open spec fn default_spec() -> Gauge {
        Gauge { limit: None }
    }

    open spec fn enc_spec(v: Gauge) -> Seq<u8> {
        crate::optional_enc::<u32>(2, v.limit)
    }

    open spec fn rd_spec(init: Gauge, data: Seq<u8>) -> Option<(Gauge, Seq<u8>)> {
        msg_fold(init, data, Gauge::step_spec())
    }

    proof fn lemma_enc_wf(&self) {
        match self.limit {
            None => {},
            Some(x) => {
                lemma_varuint_enc_structure(field_header(2, WireType::Varint) as u64);
                lemma_varuint_enc_structure(x as u64);
            },
        }
    }

    proof fn lemma_round_trip(&self) {
        match self.limit {
            None => {},
            Some(x) => {
                let payload = <u32 as Message>::enc_spec(x);
                let enc = Self::enc_spec(*self);
                let fv = FieldView { tag: 2, wt: WireType::Varint, payload };
                lemma_varuint_enc_structure(x as u64);
                lemma_field_enc_dec(2, WireType::Varint, payload, Seq::<u8>::empty());
                assert(enc + Seq::<u8>::empty() =~= enc);
                assert(crate::wire::field_dec(enc) == Some((fv, Seq::<u8>::empty())));
                crate::wire::lemma_varuint32_round_trip(x, Seq::<u8>::empty());
                assert(payload + Seq::<u8>::empty() =~= payload);
                assert(Gauge::step_spec()(Self::default_spec(), fv) == Some(*self));
                lemma_varuint_enc_structure(field_header(2, WireType::Varint) as u64);
                assert(enc.len() > 0);
                assert(msg_fold(*self, Seq::<u8>::empty(), Gauge::step_spec()) == Some(
                    (*self, Seq::<u8>::empty()),
                ));
            },
        }
    }

    fn wire_type() -> WireType {
        WireType::LengthDelimited
    }

    fn default_value() -> Self {
        Gauge { limit: None }
    }

    fn write_raw(&self, w: &mut ByteWriter) -> Result<(), WriteError> {
        w.write_optional(2, &self.limit)
    }

    fn read_raw(&mut self, r: &mut ByteReader) -> (res: Result<(), ReadError>) {
        while !r.eof()
            invariant
                self.wf(),
                Self::rd_spec(old(self)@, old(r)@) == Self::rd_spec(self@, r@),
            decreases r@.len(),
        {
            let ghost prer = r@;
            let ghost mid = *self;
            let f = match r.next_field() {
                None => {
                    return Ok(());
                },
                Some(Ok(f)) => f,
                Some(Err(e)) => {
                    return Err(e);
                },
            };
            let ghost fv = f@;
            proof {
                crate::wire::lemma_field_dec_consumes(prer);
            }
            if f.tag() == 2 {
                match f.read_optional(&mut self.limit) {
                    Ok(()) => {
                        proof {
                            assert(Gauge::step_spec()(mid, fv) == Some(*self));
                        }
                    },
                    Err(e) => {
                        proof {
                            assert(Gauge::step_spec()(mid, fv) is None);
                        }
                        return Err(e);
                    },
                }
            } else {
                proof {
                    assert(Gauge::step_spec()(mid, fv) == Some(mid));
                }
            }
        }
        Ok(())
    }
}

/// Parsing the oneof encoding of `shape` from any starting value selects
/// exactly that variant — or, when no variant is active, leaves the start
/// value untouched.
pub proof fn lemma_drawing_parse_one(init: Drawing, shape: Option<Shape>)
    ensures
        msg_fold(init, <Option<Shape> as Oneof>::enc_spec(shape), Drawing::step_spec()) == Some(
            (
                match shape {
                    Some(s) => Drawing { shape: Some(s) },
                    None => init,
                },
                Seq::<u8>::empty(),
            ),
        ),
{
    match shape {
        None => {},
        Some(Shape::Circle(x)) => {
            let payload = <u32 as Message>::enc_spec(x);
            let enc = field_enc(5, WireType::Varint, payload);
            let fv = FieldView { tag: 5, wt: WireType::Varint, payload };
            lemma_varuint_enc_structure(x as u64);
            lemma_field_enc_dec(5, WireType::Varint, payload, Seq::<u8>::empty());
            assert(enc + Seq::<u8>::empty() =~= enc);
            assert(crate::wire::field_dec(enc) == Some((fv, Seq::<u8>::empty())));
            crate::wire::lemma_varuint32_round_trip(x, Seq::<u8>::empty());
            assert(payload + Seq::<u8>::empty() =~= payload);
            assert(<Option<Shape> as Oneof>::variant_of(fv) == Some(Some(Shape::Circle(x))));
            assert(Drawing::step_spec()(init, fv) == Some(Drawing { shape: Some(Shape::Circle(x)) }));
            lemma_varuint_enc_structure(field_header(5, WireType::Varint) as u64);
            assert(enc.len() > 0);
            assert(msg_fold(
                Drawing { shape: Some(Shape::Circle(x)) },
                Seq::<u8>::empty(),
                Drawing::step_spec(),
            ) == Some((Drawing { shape: Some(Shape::Circle(x)) }, Seq::<u8>::empty())));
        },
        Some(Shape::Square(x)) => {
            let payload = <u64 as Message>::enc_spec(x);
            let enc = field_enc(6, WireType::Varint, payload);
            let fv = FieldView { tag: 6, wt: WireType::Varint, payload };
            lemma_varuint_enc_structure(x);
            lemma_field_enc_dec(6, WireType::Varint, payload, Seq::<u8>::empty());
            assert(enc + Seq::<u8>::empty() =~= enc);
            assert(crate::wire::field_dec(enc) == Some((fv, Seq::<u8>::empty())));
            crate::wire::lemma_varuint64_round_trip(x, Seq::<u8>::empty());
            assert(payload + Seq::<u8>::empty() =~= payload);
            assert(<Option<Shape> as Oneof>::variant_of(fv) == Some(Some(Shape::Square(x))));
            assert(Drawing::step_spec()(init, fv) == Some(Drawing { shape: Some(Shape::Square(x)) }));
            lemma_varuint_enc_structure(field_header(6, WireType::Varint) as u64);
            assert(enc.len() > 0);
            assert(msg_fold(
                Drawing { shape: Some(Shape::Square(x)) },
                Seq::<u8>::empty(),
                Drawing::step_spec(),
            ) == Some((Drawing { shape: Some(Shape::Square(x)) }, Seq::<u8>::empty())));
        },
    }
}

} // verus!
