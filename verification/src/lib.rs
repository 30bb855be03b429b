//! A minimal codec for a subset of the Protocol Buffers wire format, aimed at
//! small, allocation-conscious messages.
//!
//! The codec supports the two wire shapes needed for common embedded traffic:
//! varints (unsigned base-128 integers, with zigzag for signed values) and
//! length-delimited byte ranges. Messages serialize themselves into a bounded
//! byte buffer through [`ByteWriter`] and parse themselves from a byte slice
//! through [`ByteReader`]; every operation carries a contract that pins the
//! bytes written or the value parsed to the wire-format model in [`wire`].

use vstd::prelude::*;

pub mod bounded;
pub mod impls;
pub mod laws;
pub mod wire;
pub mod read;
pub mod sample;
pub mod write;

use crate::read::{ByteReader, FieldReader, ReadError};
use crate::wire::{field_enc, FieldView};
use crate::write::{ByteWriter, WriteError};

verus! {

/// Wire type of a field: the payload shape that follows the field header.
///
/// Only the varint and length-delimited shapes are supported; the reserved
/// wire-type codes 1, 3, 4 and 5 fail decoding.
#[derive(Clone, Copy, Debug, PartialEq, Eq, Structural)]
pub enum WireType {
    /// Payload is one varint.
    Varint,
    /// Payload is a varint-encoded length followed by that many bytes.
    LengthDelimited,
}

/// A message: a value with a fixed wire type that can serialize its body
/// into a [`ByteWriter`] and parse its body from a [`ByteReader`].
///
/// Scalar messages use the varint wire type and their body is one varint;
/// composite messages, strings and byte blobs use the length-delimited wire
/// type and their body is read to the end of the reader.
///
/// Contracts are stated over each message type's view `Self::V`, its
/// mathematical model. The spec functions pin both directions: `write_raw`
/// appends exactly [`Message::enc_spec`] of the value's view, and
/// `read_raw` consumes and produces exactly what [`Message::rd_spec`] says.
/// Every implementation also proves [`Message::lemma_round_trip`]: parsing
/// an encoded body from the default value yields the value back.
pub trait Message: View + Sized {
    /// The wire type every value of this message type uses on the wire.
    spec fn wire_type_spec() -> WireType;

    /// The schema constraints a value must meet to serialize: bounded
    /// containers within capacity, strings valid UTF-8, enumerations in
    /// range. `true` for plain scalars.
    open spec fn wf(&self) -> bool {
        true
    }

    /// The view of the value a fresh parse starts from.
    spec fn default_spec() -> Self::V;

    /// The body bytes of a value whose view is `v`.
    spec fn enc_spec(v: Self::V) -> Seq<u8>;

    /// Parse a body from the front of `data`, merging into a value viewed
    /// as `init`: returns the view of the resulting value and the
    /// unconsumed remainder, or `None` when the body is malformed or
    /// violates the schema constraints.
    spec fn rd_spec(init: Self::V, data: Seq<u8>) -> Option<(Self::V, Seq<u8>)>;

    /// The encoding respects the declared wire type: a varint-typed body is
    /// one complete varint, and any body is short enough for a 32-bit
    /// length prefix.
    proof fn lemma_enc_wf(&self)
        requires
            self.wf(),
        ensures
            Self::wire_type_spec() == WireType::Varint ==> crate::wire::is_varint_bytes(
                Self::enc_spec(self@),
            ),
            Self::enc_spec(self@).len() < 0x1_0000_0000,
    ;

    /// Round trip: parsing the encoded body of any well-formed value from
    /// the default value yields the value back, with nothing left over.
    proof fn lemma_round_trip(&self)
        requires
            self.wf(),
        ensures
            Self::rd_spec(Self::default_spec(), Self::enc_spec(self@)) == Some(
                (self@, Seq::<u8>::empty()),
            ),
    ;

    /// The wire type, as a runtime value.
    fn wire_type() -> (wt: WireType)
        ensures
            wt == Self::wire_type_spec(),
    ;

    /// The default value a fresh parse starts from.
    fn default_value() -> (m: Self)
        ensures
            m@ == Self::default_spec(),
            m.wf(),
    ;

    /// Append this value's body to the writer. Succeeds exactly when the
    /// body fits the writer's remaining capacity; on failure the writer is
    /// poisoned but never loses bytes already written.
    fn write_raw(&self, w: &mut ByteWriter) -> (res: Result<(), WriteError>)
        requires
            old(w).wf(),
            self.wf(),
        ensures
            final(w).wf(),
            final(w).spec_cap() == old(w).spec_cap(),
            old(w)@.is_prefix_of(final(w)@),
            res is Ok <==> old(w)@.len() + Self::enc_spec(self@).len() <= old(w).spec_cap(),
            res is Ok ==> final(w)@ == old(w)@ + Self::enc_spec(self@),
    ;

    /// Parse a body from the reader, merging into `self`. Succeeds exactly
    /// when [`Message::rd_spec`] does; on failure the reader is poisoned and
    /// `self` is unspecified.
    fn read_raw(&mut self, r: &mut ByteReader) -> (res: Result<(), ReadError>)
        requires
            old(self).wf(),
        ensures
            res is Ok <==> Self::rd_spec(old(self)@, old(r)@) is Some,
            res is Ok ==> Self::rd_spec(old(self)@, old(r)@) == Some((final(self)@, final(r)@))
                && final(self).wf(),
    ;
}

/// A holder for at most one message: the wire form of an `optional` field.
pub trait OptionalMessage {
    /// The message type held.
    type Message: Message;

    /// The view of the held value, if any.
    spec fn get_spec(&self) -> Option<<Self::Message as View>::V>;

    /// A holder is well-formed when the value it holds is.
    spec fn wf(&self) -> bool;

    /// The held value, if any.
    fn get(&self) -> (m: Option<&Self::Message>)
        requires
            self.wf(),
        ensures
            match m {
                Some(x) => self.get_spec() == Some(x@) && x.wf(),
                None => self.get_spec() is None,
            },
    ;

    /// Store a parsed value, replacing any present one. A holder always has
    /// room for one value, so this never fails.
    fn set(&mut self, m: Self::Message) -> (res: Result<(), ReadError>)
        requires
            m.wf(),
        ensures
            res is Ok,
            final(self).get_spec() == Some(m@),
            final(self).wf(),
    ;
}

/// A holder for zero or more messages: the wire form of a `repeated` field.
/// Appending past the holder's fixed capacity fails, which surfaces as a
/// read error during parsing.
pub trait RepeatedMessage {
    /// The element type held.
    type Message: Message;

    /// The views of the elements currently held, in insertion order.
    spec fn elems(&self) -> Seq<<Self::Message as View>::V>;

    /// The most elements the holder can take.
    spec fn capacity_spec() -> nat;

    /// A holder is well-formed when it is within capacity and every element
    /// is well-formed.
    spec fn wf(&self) -> bool;

    /// What well-formedness gives: the holder is within its capacity.
    proof fn lemma_wf(&self)
        requires
            self.wf(),
        ensures
            self.elems().len() <= Self::capacity_spec(),
    ;

    /// Number of elements held.
    fn len(&self) -> (n: usize)
        ensures
            n == self.elems().len(),
    ;

    /// The element at index `i`.
    fn get(&self, i: usize) -> (m: &Self::Message)
        requires
            self.wf(),
            i < self.elems().len(),
        ensures
            m@ == self.elems()[i as int],
            m.wf(),
    ;

    /// Append one element. Succeeds exactly when the holder is below its
    /// capacity; a full holder fails and keeps its elements.
    fn append(&mut self, m: Self::Message) -> (res: Result<(), ReadError>)
        requires
            old(self).wf(),
            m.wf(),
        ensures
            res is Ok <==> old(self).elems().len() < Self::capacity_spec(),
            res is Ok ==> final(self).elems() == old(self).elems().push(m@) && final(self).wf(),
            res is Err ==> final(self).elems() == old(self).elems() && final(self).wf(),
    ;
}

/// A tagged union of typed variants, each carrying a distinct field tag:
/// the wire form of a `oneof` field.
///
/// On the wire a oneof is one tag-prefixed field, that of the active
/// variant. `Option<O>` of a oneof `O` is itself a oneof (an optional
/// oneof holder); nesting such holders further is a schema misuse, and
/// parsing into it always fails.
pub trait Oneof: Sized {
    /// The mathematical model of this oneof: which variant is active, with
    /// the view of its value.
    type Model;

    /// The model of this value.
    spec fn model(&self) -> Self::Model;

    /// The schema constraints of the active variant's value.
    open spec fn wf(&self) -> bool {
        true
    }

    /// The bytes a oneof whose model is `v` writes: one whole tag-prefixed
    /// field.
    spec fn enc_spec(v: Self::Model) -> Seq<u8>;

    /// The variant a single field view parses to, or `None` when the tag
    /// matches no variant or the payload is malformed. This is what
    /// [`Oneof::read_raw`] follows.
    spec fn variant_of(f: FieldView) -> Option<Self::Model>;

    /// The value [`Oneof::read_raw_option`] stores into an optional oneof
    /// holder, or `None` when that path must fail. For a plain oneof this
    /// agrees with [`Oneof::variant_of`]; for an `Option`-wrapped oneof it
    /// is always `None` (nesting misuse).
    spec fn variant_opt_of(f: FieldView) -> Option<Self::Model>;

    /// Append the active variant's field (header and payload) to the
    /// writer.
    fn write_raw(&self, w: &mut ByteWriter) -> (res: Result<(), WriteError>)
        requires
            old(w).wf(),
            self.wf(),
        ensures
            final(w).wf(),
            final(w).spec_cap() == old(w).spec_cap(),
            old(w)@.is_prefix_of(final(w)@),
            res is Ok <==> old(w)@.len() + Self::enc_spec(self.model()).len() <= old(
                w,
            ).spec_cap(),
            res is Ok ==> final(w)@ == old(w)@ + Self::enc_spec(self.model()),
    ;

    /// Set this oneof to the variant the field view carries; fail when the
    /// tag matches no variant or the payload is malformed.
    fn read_raw(&mut self, f: FieldReader<'_>) -> (res: Result<(), ReadError>)
        ensures
            res is Ok <==> Self::variant_of(f@) is Some,
            res is Ok ==> Self::variant_of(f@) == Some(final(self).model()) && final(self).wf(),
    ;

    /// Store the variant the field view carries into an optional oneof
    /// holder; fail when the tag matches no variant, the payload is
    /// malformed, or the holder nesting is a schema misuse.
    fn read_raw_option(this: &mut Option<Self>, f: FieldReader<'_>) -> (res: Result<
        (),
        ReadError,
    >)
        ensures
            res is Ok <==> Self::variant_opt_of(f@) is Some,
            res is Ok ==> (Self::variant_opt_of(f@) matches Some(vv) && *final(this) matches Some(
                v,
            ) && v.model() == vv && v.wf()),
    ;
}

/// The bytes of a repeated field: one independent tag-prefixed field per
/// element, in order.
pub open spec fn repeated_enc<M: Message>(tag: u32, elems: Seq<M::V>) -> Seq<u8>
    decreases elems.len(),
{
    if elems.len() == 0 {
        Seq::<u8>::empty()
    } else {
        field_enc(tag, M::wire_type_spec(), M::enc_spec(elems[0])) + repeated_enc::<M>(
            tag,
            elems.drop_first(),
        )
    }
}

/// The bytes of an optional field: nothing, or one tag-prefixed field.
pub open spec fn optional_enc<M: Message>(tag: u32, o: Option<M::V>) -> Seq<u8> {
    match o {
        None => Seq::<u8>::empty(),
        Some(v) => field_enc(tag, M::wire_type_spec(), M::enc_spec(v)),
    }
}

/// The step a composite message's parse takes on a field that holds a
/// single (or optional-with-value) message of type `F`: check the wire
/// type, then parse the payload, merging into the field's current value.
/// Mirrors [`FieldReader::read`].
pub open spec fn single_field_step<F: Message>(cur: F::V, f: FieldView) -> Option<F::V> {
    if f.wt == F::wire_type_spec() {
        match F::rd_spec(cur, f.payload) {
            Some((v, rest)) => Some(v),
            None => None,
        }
    } else {
        None
    }
}

/// The step a composite message's parse takes on a repeated field of
/// element type `F` with capacity `cap`: parse a fresh element from the
/// payload and append it. Mirrors [`FieldReader::read_repeated`].
pub open spec fn repeated_field_step<F: Message>(elems: Seq<F::V>, cap: nat, f: FieldView) -> Option<
    Seq<F::V>,
> {
    if f.wt == F::wire_type_spec() {
        match F::rd_spec(F::default_spec(), f.payload) {
            Some((v, rest)) => if elems.len() < cap {
                Some(elems.push(v))
            } else {
                None
            },
            None => None,
        }
    } else {
        None
    }
}

/// The step a composite message's parse takes on an optional field of
/// message type `F`: parse a fresh value from the payload and store it.
/// Mirrors [`FieldReader::read_optional`].
pub open spec fn optional_field_step<F: Message>(f: FieldView) -> Option<F::V> {
    if f.wt == F::wire_type_spec() {
        match F::rd_spec(F::default_spec(), f.payload) {
            Some((v, rest)) => Some(v),
            None => None,
        }
    } else {
        None
    }
}

/// Serialize a message body into a fresh buffer of the given capacity.
/// Returns the written bytes — exactly the message's encoding — or fails
/// exactly when the encoding does not fit the capacity.
pub fn write<M: Message>(msg: &M, buf_size: usize) -> (res: Result<Vec<u8>, WriteError>)
    requires
        msg.wf(),
        buf_size <= 0xffff_ffff,
    ensures
        res is Ok <==> M::enc_spec(msg@).len() <= buf_size,
        res matches Ok(out) ==> out@ == M::enc_spec(msg@),
{
    let mut w = ByteWriter::new(buf_size);
    match msg.write_raw(&mut w) {
        Ok(()) => Ok(w.into_vec()),
        Err(e) => Err(e),
    }
}

/// Parse a message from a buffer, starting from the default value and
/// merging every field in. Succeeds exactly when the message's parse
/// function accepts the buffer.
pub fn read<M: Message>(buf: &[u8]) -> (res: Result<M, ReadError>)
    ensures
        res is Ok <==> M::rd_spec(M::default_spec(), buf@) is Some,
        res matches Ok(m) ==> M::rd_spec(M::default_spec(), buf@) matches Some((v, rest)) && m@ == v
            && m.wf(),
{
    let mut msg = M::default_value();
    let mut r = ByteReader::new(buf);
    match msg.read_raw(&mut r) {
        Ok(()) => Ok(msg),
        Err(e) => Err(e),
    }
}

} // verus!
