//! Message implementations for the built-in scalar types, and the holder
//! implementations for `Option`.
//!
//! Unsigned integers serialize as plain varints, signed integers as zigzag
//! varints. Reads into 32- and 64-bit types discard over-width bits
//! silently (to accept peers that sign-extend on the wire); reads into the
//! narrower types then check the range strictly and fail when the value
//! does not fit.

use vstd::prelude::*;

use crate::read::{ByteReader, FieldReader, ReadError};
use crate::wire::{
    lemma_varuint32_round_trip, lemma_varuint64_round_trip, lemma_varuint_enc_structure,
    lemma_zigzag32_round_trip, lemma_zigzag64_round_trip, unzigzag32, unzigzag64, varuint_enc,
    vdec32, vdec64, zigzag32, zigzag64, FieldView,
};
use crate::write::{ByteWriter, WriteError};
use crate::{Message, Oneof, OptionalMessage, WireType};

verus! {

impl Message for bool {
    open spec fn wire_type_spec() -> WireType {
        WireType::Varint
    }

    open spec fn default_spec() -> Self::V {
        false
    }

    open spec fn enc_spec(v: Self::V) -> Seq<u8> {
        varuint_enc(
            if v {
                1u64
            } else {
                0u64
            },
        )
    }

    open spec fn rd_spec(init: Self::V, data: Seq<u8>) -> Option<(Self::V, Seq<u8>)> {
        match vdec32(data) {
            Some((v, rest)) => if v == 0 {
                Some((false, rest))
            } else if v == 1 {
                Some((true, rest))
            } else {
                None
            },
            None => None,
        }
    }

    proof fn lemma_enc_wf(&self) {
        lemma_varuint_enc_structure(
            if *self {
                1u64
            } else {
                0u64
            },
        );
    }

    proof fn lemma_round_trip(&self) {
        let v = if *self {
            1u32
        } else {
            0u32
        };
        lemma_varuint32_round_trip(v, Seq::<u8>::empty());
        assert(varuint_enc(v as u64) + Seq::<u8>::empty() =~= varuint_enc(v as u64));
    }

    fn wire_type() -> WireType {
        WireType::Varint
    }

    fn default_value() -> Self {
        false
    }

    fn write_raw(&self, w: &mut ByteWriter) -> Result<(), WriteError> {
        if *self {
            w.write_varuint32(1)
        } else {
            w.write_varuint32(0)
        }
    }

    fn read_raw(&mut self, r: &mut ByteReader) -> Result<(), ReadError> {
        let val = r.read_varuint32()?;
        *self = match val {
            0u32 => false,
            1u32 => true,
            _ => {
                return Err(ReadError);
            },
        };
        Ok(())
    }
}

impl Message for u8 {
    open spec fn wire_type_spec() -> WireType {
        WireType::Varint
    }

    open spec fn default_spec() -> Self::V {
        0u8
    }

    open spec fn enc_spec(v: Self::V) -> Seq<u8> {
        varuint_enc(v as u64)
    }

    open spec fn rd_spec(init: Self::V, data: Seq<u8>) -> Option<(Self::V, Seq<u8>)> {
        match vdec32(data) {
            Some((v, rest)) => if v <= 0xff {
                Some((v as u8, rest))
            } else {
                None
            },
            None => None,
        }
    }

    proof fn lemma_enc_wf(&self) {
        lemma_varuint_enc_structure(*self as u64);
    }

    proof fn lemma_round_trip(&self) {
        lemma_varuint32_round_trip(*self as u32, Seq::<u8>::empty());
        assert(varuint_enc(*self as u64) + Seq::<u8>::empty() =~= varuint_enc(*self as u64));
    }

    fn wire_type() -> WireType {
        WireType::Varint
    }

    fn default_value() -> Self {
        0
    }

    fn write_raw(&self, w: &mut ByteWriter) -> Result<(), WriteError> {
        w.write_varuint32(*self as u32)
    }

    fn read_raw(&mut self, r: &mut ByteReader) -> Result<(), ReadError> {
        let val = r.read_varuint32()?;
        if val > 0xff {
            return Err(ReadError);
        }
        *self = val as u8;
        Ok(())
    }
}

impl Message for u16 {
    open spec fn wire_type_spec() -> WireType {
        WireType::Varint
    }

    open spec fn default_spec() -> Self::V {
        0u16
    }

    open spec fn enc_spec(v: Self::V) -> Seq<u8> {
        varuint_enc(v as u64)
    }

    open spec fn rd_spec(init: Self::V, data: Seq<u8>) -> Option<(Self::V, Seq<u8>)> {
        match vdec32(data) {
            Some((v, rest)) => if v <= 0xffff {
                Some((v as u16, rest))
            } else {
                None
            },
            None => None,
        }
    }

    proof fn lemma_enc_wf(&self) {
        lemma_varuint_enc_structure(*self as u64);
    }

    proof fn lemma_round_trip(&self) {
        lemma_varuint32_round_trip(*self as u32, Seq::<u8>::empty());
        assert(varuint_enc(*self as u64) + Seq::<u8>::empty() =~= varuint_enc(*self as u64));
    }

    fn wire_type() -> WireType {
        WireType::Varint
    }

    fn default_value() -> Self {
        0
    }

    fn write_raw(&self, w: &mut ByteWriter) -> Result<(), WriteError> {
        w.write_varuint32(*self as u32)
    }

    fn read_raw(&mut self, r: &mut ByteReader) -> Result<(), ReadError> {
        let val = r.read_varuint32()?;
        if val > 0xffff {
            return Err(ReadError);
        }
        *self = val as u16;
        Ok(())
    }
}

impl Message for u32 {
    open spec fn wire_type_spec() -> WireType {
        WireType::Varint
    }

    open spec fn default_spec() -> Self::V {
        0u32
    }

    open spec fn enc_spec(v: Self::V) -> Seq<u8> {
        varuint_enc(v as u64)
    }

    open spec fn rd_spec(init: Self::V, data: Seq<u8>) -> Option<(Self::V, Seq<u8>)> {
        vdec32(data)
    }

    proof fn lemma_enc_wf(&self) {
        lemma_varuint_enc_structure(*self as u64);
    }

    proof fn lemma_round_trip(&self) {
        lemma_varuint32_round_trip(*self, Seq::<u8>::empty());
        assert(varuint_enc(*self as u64) + Seq::<u8>::empty() =~= varuint_enc(*self as u64));
    }

    fn wire_type() -> WireType {
        WireType::Varint
    }

    fn default_value() -> Self {
        0
    }

    fn write_raw(&self, w: &mut ByteWriter) -> Result<(), WriteError> {
        w.write_varuint32(*self)
    }

    fn read_raw(&mut self, r: &mut ByteReader) -> Result<(), ReadError> {
        let val = r.read_varuint32()?;
        *self = val;
        Ok(())
    }
}

impl Message for u64 {
    open spec fn wire_type_spec() -> WireType {
        WireType::Varint
    }

    open spec fn default_spec() -> Self::V {
        0u64
    }

    open spec fn enc_spec(v: Self::V) -> Seq<u8> {
        varuint_enc(v)
    }

    open spec fn rd_spec(init: Self::V, data: Seq<u8>) -> Option<(Self::V, Seq<u8>)> {
        vdec64(data)
    }

    proof fn lemma_enc_wf(&self) {
        lemma_varuint_enc_structure(*self);
    }

    proof fn lemma_round_trip(&self) {
        lemma_varuint64_round_trip(*self, Seq::<u8>::empty());
        assert(varuint_enc(*self) + Seq::<u8>::empty() =~= varuint_enc(*self));
    }

    fn wire_type() -> WireType {
        WireType::Varint
    }

    fn default_value() -> Self {
        0
    }

    fn write_raw(&self, w: &mut ByteWriter) -> Result<(), WriteError> {
        w.write_varuint64(*self)
    }

    fn read_raw(&mut self, r: &mut ByteReader) -> Result<(), ReadError> {
        let val = r.read_varuint64()?;
        *self = val;
        Ok(())
    }
}

impl Message for i8 {
    open spec fn wire_type_spec() -> WireType {
        WireType::Varint
    }

    open spec fn default_spec() -> Self::V {
        0i8
    }

    open spec fn enc_spec(v: Self::V) -> Seq<u8> {
        varuint_enc(zigzag32(v as i32) as u64)
    }

    open spec fn rd_spec(init: Self::V, data: Seq<u8>) -> Option<(Self::V, Seq<u8>)> {
        match vdec32(data) {
            Some((u, rest)) => {
                let v = unzigzag32(u);
                if -128 <= v <= 127 {
                    Some((v as i8, rest))
                } else {
                    None
                }
            },
            None => None,
        }
    }

    proof fn lemma_enc_wf(&self) {
        lemma_varuint_enc_structure(zigzag32(*self as i32) as u64);
    }

    proof fn lemma_round_trip(&self) {
        let z = zigzag32(*self as i32);
        lemma_varuint32_round_trip(z, Seq::<u8>::empty());
        lemma_zigzag32_round_trip(*self as i32);
        assert(varuint_enc(z as u64) + Seq::<u8>::empty() =~= varuint_enc(z as u64));
    }

    fn wire_type() -> WireType {
        WireType::Varint
    }

    fn default_value() -> Self {
        0
    }

    fn write_raw(&self, w: &mut ByteWriter) -> Result<(), WriteError> {
        w.write_varint32(*self as i32)
    }

    fn read_raw(&mut self, r: &mut ByteReader) -> Result<(), ReadError> {
        let val = r.read_varint32()?;
        if val < -128 || val > 127 {
            return Err(ReadError);
        }
        *self = val as i8;
        Ok(())
    }
}

impl Message for i16 {
    open spec fn wire_type_spec() -> WireType {
        WireType::Varint
    }

    open spec fn default_spec() -> Self::V {
        0i16
    }

    open spec fn enc_spec(v: Self::V) -> Seq<u8> {
        varuint_enc(zigzag32(v as i32) as u64)
    }

    open spec fn rd_spec(init: Self::V, data: Seq<u8>) -> Option<(Self::V, Seq<u8>)> {
        match vdec32(data) {
            Some((u, rest)) => {
                let v = unzigzag32(u);
                if -0x8000 <= v <= 0x7fff {
                    Some((v as i16, rest))
                } else {
                    None
                }
            },
            None => None,
        }
    }

    proof fn lemma_enc_wf(&self) {
        lemma_varuint_enc_structure(zigzag32(*self as i32) as u64);
    }

    proof fn lemma_round_trip(&self) {
        let z = zigzag32(*self as i32);
        lemma_varuint32_round_trip(z, Seq::<u8>::empty());
        lemma_zigzag32_round_trip(*self as i32);
        assert(varuint_enc(z as u64) + Seq::<u8>::empty() =~= varuint_enc(z as u64));
    }

    fn wire_type() -> WireType {
        WireType::Varint
    }

    fn default_value() -> Self {
        0
    }

    fn write_raw(&self, w: &mut ByteWriter) -> Result<(), WriteError> {
        w.write_varint32(*self as i32)
    }

    fn read_raw(&mut self, r: &mut ByteReader) -> Result<(), ReadError> {
        let val = r.read_varint32()?;
        if val < -0x8000 || val > 0x7fff {
            return Err(ReadError);
        }
        *self = val as i16;
        Ok(())
    }
}

impl Message for i32 {
    open spec fn wire_type_spec() -> WireType {
        WireType::Varint
    }

    open spec fn default_spec() -> Self::V {
        0i32
    }

    open spec fn enc_spec(v: Self::V) -> Seq<u8> {
        varuint_enc(zigzag32(v) as u64)
    }

    open spec fn rd_spec(init: Self::V, data: Seq<u8>) -> Option<(Self::V, Seq<u8>)> {
        match vdec32(data) {
            Some((u, rest)) => Some((unzigzag32(u), rest)),
            None => None,
        }
    }

    proof fn lemma_enc_wf(&self) {
        lemma_varuint_enc_structure(zigzag32(*self) as u64);
    }

    proof fn lemma_round_trip(&self) {
        let z = zigzag32(*self);
        lemma_varuint32_round_trip(z, Seq::<u8>::empty());
        lemma_zigzag32_round_trip(*self);
        assert(varuint_enc(z as u64) + Seq::<u8>::empty() =~= varuint_enc(z as u64));
    }

    fn wire_type() -> WireType {
        WireType::Varint
    }

    fn default_value() -> Self {
        0
    }

    fn write_raw(&self, w: &mut ByteWriter) -> Result<(), WriteError> {
        w.write_varint32(*self)
    }

    fn read_raw(&mut self, r: &mut ByteReader) -> Result<(), ReadError> {
        let val = r.read_varint32()?;
        *self = val;
        Ok(())
    }
}

impl Message for i64 {
    open spec fn wire_type_spec() -> WireType {
        WireType::Varint
    }

    open spec fn default_spec() -> Self::V {
        0i64
    }

    open spec fn enc_spec(v: Self::V) -> Seq<u8> {
        varuint_enc(zigzag64(v))
    }

    open spec fn rd_spec(init: Self::V, data: Seq<u8>) -> Option<(Self::V, Seq<u8>)> {
        match vdec64(data) {
            Some((u, rest)) => Some((unzigzag64(u), rest)),
            None => None,
        }
    }

    proof fn lemma_enc_wf(&self) {
        lemma_varuint_enc_structure(zigzag64(*self));
    }

    proof fn lemma_round_trip(&self) {
        let z = zigzag64(*self);
        lemma_varuint64_round_trip(z, Seq::<u8>::empty());
        lemma_zigzag64_round_trip(*self);
        assert(varuint_enc(z) + Seq::<u8>::empty() =~= varuint_enc(z));
    }

    fn wire_type() -> WireType {
        WireType::Varint
    }

    fn default_value() -> Self {
        0
    }

    fn write_raw(&self, w: &mut ByteWriter) -> Result<(), WriteError> {
        w.write_varint64(*self)
    }

    fn read_raw(&mut self, r: &mut ByteReader) -> Result<(), ReadError> {
        let val = r.read_varint64()?;
        *self = val;
        Ok(())
    }
}

impl<M: Message> OptionalMessage for Option<M> {
    type Message = M;

    open spec fn get_spec(&self) -> Option<M::V> {
        match *self {
            Some(m) => Some(m@),
            None => None,
        }
    }

    open spec fn wf(&self) -> bool {
        match *self {
            Some(m) => m.wf(),
            None => true,
        }
    }

    fn get(&self) -> Option<&M> {
        self.as_ref()
    }

    fn set(&mut self, m: M) -> Result<(), ReadError> {
        *self = Some(m);
        Ok(())
    }
}

impl<M: Oneof> Oneof for Option<M> {
    type Model = Option<M::Model>;

    open spec fn model(&self) -> Option<M::Model> {
        match *self {
            Some(x) => Some(x.model()),
            None => None,
        }
    }

    open spec fn wf(&self) -> bool {
        match *self {
            Some(x) => x.wf(),
            None => true,
        }
    }

    open spec fn enc_spec(v: Option<M::Model>) -> Seq<u8> {
        match v {
            Some(x) => M::enc_spec(x),
            None => Seq::<u8>::empty(),
        }
    }

    open spec fn variant_of(f: FieldView) -> Option<Option<M::Model>> {
        match M::variant_opt_of(f) {
            Some(v) => Some(Some(v)),
            None => None,
        }
    }

    open spec fn variant_opt_of(f: FieldView) -> Option<Option<M::Model>> {
        None
    }

    fn write_raw(&self, w: &mut ByteWriter) -> Result<(), WriteError> {
        match self {
            Some(x) => x.write_raw(w),
            None => {
                proof {
                    assert(old(w)@ + Seq::<u8>::empty() =~= old(w)@);
                }
                Ok(())
            },
        }
    }

    fn read_raw(&mut self, f: FieldReader<'_>) -> Result<(), ReadError> {
        M::read_raw_option(self, f)
    }

    /// A oneof holder nested inside another optional holder is a schema
    /// misuse; parsing into it always fails.
    fn read_raw_option(this: &mut Option<Self>, f: FieldReader<'_>) -> Result<(), ReadError> {
        Err(ReadError)
    }
}

} // verus!