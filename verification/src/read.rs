//! The read cursor: an immutable byte range consumed from the front.

use vstd::prelude::*;
use vstd::slice::{slice_index_get, slice_subrange};

use crate::{Message, Oneof, OptionalMessage, RepeatedMessage, WireType};
use crate::wire::{
    field_dec, is_varint_bytes, lemma_varint_len_bounds, lemma_varint_len_none,
    lemma_varint_len_scan, unzigzag32, unzigzag64, varint_len, vdec32, vdec32_rec, vdec64,
    vdec64_rec, vmerge32, vmerge64, FieldView,
};

verus! {

/// Error returned by [`ByteReader`]: the input is malformed or truncated.
#[derive(Copy, Clone, PartialEq, Eq, Debug, Structural)]
pub struct ReadError;

/// Reader over an immutable byte range.
///
/// The view `r@` is the remaining, unconsumed suffix; every successful read
/// advances it by exactly the bytes consumed. After a failed read the cursor
/// is poisoned and must not be reused: part of the input may already have
/// been consumed.
#[derive(Clone, Copy)]
pub struct ByteReader<'a> {
    data: &'a [u8],
}

impl<'a> View for ByteReader<'a> {
    type V = Seq<u8>;

    closed spec fn view(&self) -> Seq<u8> {
        self.data@
    }
}

impl<'a> ByteReader<'a> {
    /// Create a reader over `data`.
    pub fn new(data: &'a [u8]) -> (r: ByteReader<'a>)
        ensures
            r@ == data@,
    {
        ByteReader { data }
    }

    /// The remaining bytes.
    pub fn inner(&self) -> (r: &'a [u8])
        ensures
            r@ == self@,
    {
        self.data
    }

    /// Whether the reader has consumed its whole range.
    pub fn eof(&self) -> (r: bool)
        ensures
            r == (self@.len() == 0),
    {
        self.data.len() == 0
    }

    /// Read one byte.
    pub fn read_u8(&mut self) -> (res: Result<u8, ReadError>)
        ensures
            res is Ok <==> old(self)@.len() >= 1,
            res matches Ok(b) ==> b == old(self)@[0] && final(self)@ == old(self)@.skip(1),
            res is Err ==> final(self)@ == old(self)@,
    {
        if self.data.len() < 1 {
            return Err(ReadError);
        }
        let b = *slice_index_get(self.data, 0);
        self.data = slice_subrange(self.data, 1, self.data.len());
        Ok(b)
    }

    /// Read exactly `N` bytes into a fixed-size array.
    pub fn read<const N: usize>(&mut self) -> (res: Result<[u8; N], ReadError>)
        ensures
            res is Ok <==> N <= old(self)@.len(),
            res matches Ok(a) ==> a@ == old(self)@.take(N as int) && final(self)@ == old(
                self,
            )@.skip(N as int),
            res is Err ==> final(self)@ == old(self)@,
    {
        broadcast use vstd::array::group_array_axioms;

        let s = self.read_slice(N)?;
        let mut arr: [u8; N] = vstd::array::array_fill_for_copy_types(0u8);
        let mut i: usize = 0;
        while i < N
            invariant
                i <= N,
                s@.len() == N,
                arr@.len() == N,
                forall|j: int| 0 <= j < i ==> arr@[j] == s@[j],
            decreases N - i,
        {
            arr[i] = *slice_index_get(s, i);
            i = i + 1;
        }
        proof {
            assert(arr@ =~= s@);
        }
        Ok(arr)
    }

    /// Read a slice of exactly `len` bytes.
    pub fn read_slice(&mut self, len: usize) -> (res: Result<&'a [u8], ReadError>)
        ensures
            res is Ok <==> len <= old(self)@.len(),
            res matches Ok(s) ==> s@ == old(self)@.take(len as int) && final(self)@ == old(
                self,
            )@.skip(len as int),
            res is Err ==> final(self)@ == old(self)@,
    {
        if self.data.len() < len {
            return Err(ReadError);
        }
        let s = slice_subrange(self.data, 0, len);
        self.data = slice_subrange(self.data, len, self.data.len());
        Ok(s)
    }

    /// Read all remaining bytes, leaving the reader empty.
    pub fn read_to_end(&mut self) -> (res: Result<&'a [u8], ReadError>)
        ensures
            res matches Ok(s) && s@ == old(self)@ && final(self)@ == Seq::<u8>::empty(),
    {
        let s = self.data;
        self.data = slice_subrange(self.data, self.data.len(), self.data.len());
        proof {
            assert(final(self)@ =~= Seq::<u8>::empty());
        }
        Ok(s)
    }

    /// Read a `u16` from two little-endian bytes.
    pub fn read_u16(&mut self) -> (res: Result<u16, ReadError>)
        ensures
            res is Ok <==> old(self)@.len() >= 2,
            res matches Ok(v) ==> v == vstd::bytes::spec_u16_from_le_bytes(old(self)@.take(2))
                && final(self)@ == old(self)@.skip(2),
            res is Err ==> final(self)@ == old(self)@,
    {
        let s = self.read_slice(2)?;
        Ok(vstd::bytes::u16_from_le_bytes(s))
    }

    /// Read a `u32` from four little-endian bytes.
    pub fn read_u32(&mut self) -> (res: Result<u32, ReadError>)
        ensures
            res is Ok <==> old(self)@.len() >= 4,
            res matches Ok(v) ==> v == vstd::bytes::spec_u32_from_le_bytes(old(self)@.take(4))
                && final(self)@ == old(self)@.skip(4),
            res is Err ==> final(self)@ == old(self)@,
    {
        let s = self.read_slice(4)?;
        Ok(vstd::bytes::u32_from_le_bytes(s))
    }

    /// Read a `u64` from eight little-endian bytes.
    pub fn read_u64(&mut self) -> (res: Result<u64, ReadError>)
        ensures
            res is Ok <==> old(self)@.len() >= 8,
            res matches Ok(v) ==> v == vstd::bytes::spec_u64_from_le_bytes(old(self)@.take(8))
                && final(self)@ == old(self)@.skip(8),
            res is Err ==> final(self)@ == old(self)@,
    {
        let s = self.read_slice(8)?;
        Ok(vstd::bytes::u64_from_le_bytes(s))
    }

    /// Read one whole varint without decoding it: the returned slice holds
    /// every byte of the varint, terminator included.
    pub fn read_varuint_bytes(&mut self) -> (res: Result<&'a [u8], ReadError>)
        ensures
            res is Ok <==> varint_len(old(self)@) is Some,
            res matches Ok(s) ==> varint_len(old(self)@) == Some(s@.len() as int) && s@ == old(
                self,
            )@.take(s@.len() as int) && final(self)@ == old(self)@.skip(s@.len() as int)
                && is_varint_bytes(s@),
    {
        let mut i: usize = 0;
        loop
            invariant
                self@ == old(self)@,
                0 <= i <= self@.len(),
                forall|j: int| 0 <= j < i ==> self@[j] & 0x80 != 0,
            decreases self@.len() - i,
        {
            if i >= self.data.len() {
                proof {
                    lemma_varint_len_none(self@);
                }
                return Err(ReadError);
            }
            if *slice_index_get(self.data, i) & 0x80 == 0 {
                let s = slice_subrange(self.data, 0, i + 1);
                self.data = slice_subrange(self.data, i + 1, self.data.len());
                proof {
                    lemma_varint_len_scan(old(self)@, i as int);
                    assert(forall|j: int| 0 <= j < i ==> s@[j] == old(self)@[j]);
                    lemma_varint_len_scan(s@, i as int);
                }
                return Ok(s);
            }
            i = i + 1;
        }
    }

    /// Read an unsigned varint into 32 bits. Value bits at offsets past 32
    /// are discarded silently; all continuation bytes are still consumed.
    pub fn read_varuint32(&mut self) -> (res: Result<u32, ReadError>)
        ensures
            res is Ok <==> vdec32(old(self)@) is Some,
            res matches Ok(v) ==> vdec32(old(self)@) == Some((v, final(self)@)),
    {
        let mut acc: u32 = 0;
        let mut shift: u32 = 0;
        loop
            invariant
                vdec32(old(self)@) == vdec32_rec(self@, shift, acc),
                shift < 40,
            decreases self@.len(),
        {
            let ghost pre = self@;
            let x = match self.read_u8() {
                Ok(x) => x,
                Err(e) => {
                    return Err(e);
                },
            };
            proof {
                assert(((x as u32) & 0x7f) == ((x & 0x7f) as u32)) by (bit_vector);
                assert(vmerge32(acc, x, shift) == if shift < 32 {
                    acc | (((x as u32) & 0x7f) << shift)
                } else {
                    acc
                });
            }
            if shift < 32 {
                acc = acc | (((x as u32) & 0x7f) << shift);
            }
            if x & 0x80 == 0 {
                return Ok(acc);
            }
            if shift < 32 {
                shift = shift + 7;
            }
        }
    }

    /// Read an unsigned varint into 64 bits. Value bits at offsets past 64
    /// are discarded silently; all continuation bytes are still consumed.
    pub fn read_varuint64(&mut self) -> (res: Result<u64, ReadError>)
        ensures
            res is Ok <==> vdec64(old(self)@) is Some,
            res matches Ok(v) ==> vdec64(old(self)@) == Some((v, final(self)@)),
    {
        let mut acc: u64 = 0;
        let mut shift: u32 = 0;
        loop
            invariant
                vdec64(old(self)@) == vdec64_rec(self@, shift, acc),
                shift < 72,
            decreases self@.len(),
        {
            let x = match self.read_u8() {
                Ok(x) => x,
                Err(e) => {
                    return Err(e);
                },
            };
            proof {
                assert(((x as u64) & 0x7f) == ((x & 0x7f) as u64)) by (bit_vector);
                assert(vmerge64(acc, x, shift) == if shift < 64 {
                    acc | (((x as u64) & 0x7f) << shift)
                } else {
                    acc
                });
            }
            if shift < 64 {
                acc = acc | (((x as u64) & 0x7f) << shift);
            }
            if x & 0x80 == 0 {
                return Ok(acc);
            }
            if shift < 64 {
                shift = shift + 7;
            }
        }
    }

    /// Read a zigzag-encoded signed 32-bit varint.
    pub fn read_varint32(&mut self) -> (res: Result<i32, ReadError>)
        ensures
            res is Ok <==> vdec32(old(self)@) is Some,
            res matches Ok(v) ==> vdec32(old(self)@) matches Some((u, rest)) && v == unzigzag32(u)
                && final(self)@ == rest,
    {
        let u = self.read_varuint32()?;
        proof {
            assert(u >> 1 < 0x8000_0000) by (bit_vector);
        }
        let mask: i32 = if u & 1 == 1 {
            -1
        } else {
            0
        };
        Ok(((u >> 1) as i32) ^ mask)
    }

    /// Read a zigzag-encoded signed 64-bit varint.
    pub fn read_varint64(&mut self) -> (res: Result<i64, ReadError>)
        ensures
            res is Ok <==> vdec64(old(self)@) is Some,
            res matches Ok(v) ==> vdec64(old(self)@) matches Some((u, rest)) && v == unzigzag64(u)
                && final(self)@ == rest,
    {
        let u = self.read_varuint64()?;
        proof {
            assert(u >> 1 < 0x8000_0000_0000_0000) by (bit_vector);
        }
        let mask: i64 = if u & 1 == 1 {
            -1
        } else {
            0
        };
        Ok(((u >> 1) as i64) ^ mask)
    }

    /// Read a length-delimited slice: a varint length, then that many bytes.
    pub fn read_varslice(&mut self) -> (res: Result<&'a [u8], ReadError>)
        ensures
            res is Ok <==> (vdec32(old(self)@) matches Some((len, rest)) && len <= rest.len()),
            res matches Ok(s) ==> vdec32(old(self)@) matches Some((len, rest)) && s@ == rest.take(
                len as int,
            ) && final(self)@ == rest.skip(len as int),
    {
        let len = self.read_varuint32()?;
        self.read_slice(len as usize)
    }

    /// Read the next field of a message: header varint, then the payload
    /// dictated by the wire type. Returns `None` at the end of the buffer,
    /// and an error item on a malformed field; decoding must stop at the
    /// first error, as the cursor is then poisoned.
    pub fn next_field(&mut self) -> (res: Option<Result<FieldReader<'a>, ReadError>>)
        ensures
            res is None <==> old(self)@.len() == 0,
            res is None ==> final(self)@ == old(self)@,
            res matches Some(r) ==> match field_dec(old(self)@) {
                Some((fv, rest)) => r matches Ok(f) && f@ == fv && final(self)@ == rest,
                None => r is Err,
            },
    {
        if self.eof() {
            return None;
        }
        let header = match self.read_varuint32() {
            Ok(x) => x,
            Err(e) => {
                return Some(Err(e));
            },
        };
        let tag: u32 = header >> 3;
        let wire_type = match header & 0b111 {
            0u32 => WireType::Varint,
            2u32 => WireType::LengthDelimited,
            _ => {
                return Some(Err(ReadError));
            },
        };
        let data = match wire_type {
            WireType::Varint => match self.read_varuint_bytes() {
                Ok(x) => x,
                Err(e) => {
                    return Some(Err(e));
                },
            },
            WireType::LengthDelimited => match self.read_varslice() {
                Ok(x) => x,
                Err(e) => {
                    return Some(Err(e));
                },
            },
        };
        Some(Ok(FieldReader { tag, data, wire_type }))
    }

    /// An iterator-style walk over the fields remaining in this reader.
    pub fn read_fields(self) -> (it: FieldIter<'a>)
        ensures
            it@ == self@,
    {
        FieldIter { r: self }
    }
}

/// Walks the fields of a buffer, one [`FieldReader`] at a time.
pub struct FieldIter<'a> {
    r: ByteReader<'a>,
}

impl<'a> View for FieldIter<'a> {
    type V = Seq<u8>;

    closed spec fn view(&self) -> Seq<u8> {
        self.r@
    }
}

impl<'a> FieldIter<'a> {
    /// The next field, an error item on a malformed field, or `None` at the
    /// end of the buffer.
    pub fn next(&mut self) -> (res: Option<Result<FieldReader<'a>, ReadError>>)
        ensures
            res is None <==> old(self)@.len() == 0,
            res is None ==> final(self)@ == old(self)@,
            res matches Some(r) ==> match field_dec(old(self)@) {
                Some((fv, rest)) => r matches Ok(f) && f@ == fv && final(self)@ == rest,
                None => r is Err,
            },
    {
        self.r.next_field()
    }
}

/// One decoded field: its tag, its wire type, and a reader positioned over
/// exactly its payload bytes.
pub struct FieldReader<'a> {
    tag: u32,
    data: &'a [u8],
    wire_type: WireType,
}

impl<'a> View for FieldReader<'a> {
    type V = FieldView;

    closed spec fn view(&self) -> FieldView {
        FieldView { tag: self.tag, wt: self.wire_type, payload: self.data@ }
    }
}

impl<'a> FieldReader<'a> {
    /// The field's tag.
    pub fn tag(&self) -> (t: u32)
        ensures
            t == self@.tag,
    {
        self.tag
    }

    /// The field's wire type.
    pub fn wire_type(&self) -> (wt: WireType)
        ensures
            wt == self@.wt,
    {
        self.wire_type
    }

    /// Parse this field's payload into `msg`, merging into its current
    /// value. Fails on a wire-type mismatch against the message's declared
    /// wire type, or when the payload is malformed.
    pub fn read<M: Message>(self, msg: &mut M) -> (res: Result<(), ReadError>)
        requires
            old(msg).wf(),
        ensures
            res is Ok <==> (self@.wt == M::wire_type_spec() && M::rd_spec(
                old(msg)@,
                self@.payload,
            ) is Some),
            res is Ok ==> (M::rd_spec(old(msg)@, self@.payload) matches Some((v, rest))
                && final(msg)@ == v && final(msg).wf()),
    {
        let wt = M::wire_type();
        if self.wire_type != wt {
            return Err(ReadError);
        }
        let mut r = ByteReader::new(self.data);
        msg.read_raw(&mut r)
    }

    /// Parse this field as one element of a repeated field: parse a fresh
    /// element from the payload, then append it to the holder. A full
    /// holder fails with a read error and keeps its elements.
    pub fn read_repeated<M: RepeatedMessage>(self, msg: &mut M) -> (res: Result<(), ReadError>)
        requires
            old(msg).wf(),
        ensures
            res is Ok <==> (self@.wt == <M::Message as Message>::wire_type_spec()
                && <M::Message as Message>::rd_spec(
                <M::Message as Message>::default_spec(),
                self@.payload,
            ) is Some && old(msg).elems().len() < M::capacity_spec()),
            res is Ok ==> (<M::Message as Message>::rd_spec(
                <M::Message as Message>::default_spec(),
                self@.payload,
            ) matches Some((v, rest)) && final(msg).elems() == old(msg).elems().push(v)
                && final(msg).wf()),
            res is Err ==> final(msg).elems() == old(msg).elems() && final(msg).wf(),
    {
        let wt = <M::Message as Message>::wire_type();
        if self.wire_type() != wt {
            return Err(ReadError);
        }
        let mut m = <M::Message as Message>::default_value();
        match self.read(&mut m) {
            Ok(()) => {},
            Err(e) => {
                return Err(e);
            },
        }
        msg.append(m)
    }

    /// Parse this field as an optional field: parse a fresh value from the
    /// payload and store it in the holder, replacing any present value.
    pub fn read_optional<M: OptionalMessage>(self, msg: &mut M) -> (res: Result<(), ReadError>)
        requires
            old(msg).wf(),
        ensures
            res is Ok <==> (self@.wt == <M::Message as Message>::wire_type_spec()
                && <M::Message as Message>::rd_spec(
                <M::Message as Message>::default_spec(),
                self@.payload,
            ) is Some),
            res is Ok ==> (<M::Message as Message>::rd_spec(
                <M::Message as Message>::default_spec(),
                self@.payload,
            ) matches Some((v, rest)) && final(msg).get_spec() == Some(v) && final(msg).wf()),
    {
        let wt = <M::Message as Message>::wire_type();
        if self.wire_type() != wt {
            return Err(ReadError);
        }
        let mut m = <M::Message as Message>::default_value();
        match self.read(&mut m) {
            Ok(()) => {},
            Err(e) => {
                return Err(e);
            },
        }
        msg.set(m)
    }

    /// Parse this field into a oneof: select the variant whose tag this
    /// field carries. Fails when the tag matches no variant or the payload
    /// is malformed.
    pub fn read_oneof<M: Oneof>(self, msg: &mut M) -> (res: Result<(), ReadError>)
        ensures
            res is Ok <==> M::variant_of(self@) is Some,
            res is Ok ==> M::variant_of(self@) == Some(final(msg).model()) && final(msg).wf(),
    {
        msg.read_raw(self)
    }

    /// Parse this field's payload into a fresh, default-initialized value
    /// of the variant type. Fails on a wire-type mismatch or a malformed
    /// payload.
    pub fn read_oneof_variant<M: Message>(self) -> (res: Result<M, ReadError>)
        ensures
            res is Ok <==> (self@.wt == M::wire_type_spec() && M::rd_spec(
                M::default_spec(),
                self@.payload,
            ) is Some),
            res matches Ok(m) ==> M::rd_spec(M::default_spec(), self@.payload) matches Some(
                (v, rest),
            ) && m@ == v && m.wf(),
    {
        let mut m = M::default_value();
        match self.read(&mut m) {
            Ok(()) => Ok(m),
            Err(e) => Err(e),
        }
    }
}

} // verus!
