//! Bounded containers: a fixed-capacity UTF-8 string, a fixed-capacity byte
//! blob, and a fixed-capacity repeated-field holder.
//!
//! These stand in for heap-free storage in constrained environments: each
//! carries its capacity in its type, and parsing into one fails — with a
//! read error, not a panic — when the wire data does not fit.

use vstd::prelude::*;
use vstd::slice::slice_to_vec;
use vstd::utf8::valid_utf8;

use crate::read::{ByteReader, ReadError};
use crate::write::{ByteWriter, WriteError};
use crate::{Message, RepeatedMessage, WireType};

verus! {

/// Relies on core::str::from_utf8: it returns `Ok` exactly when the bytes
/// are valid UTF-8, which vstd's `valid_utf8` spells out.
#[verifier::external_body]
fn utf8_check(b: &[u8]) -> (r: bool)
    ensures
        r == valid_utf8(b@),
{
    core::str::from_utf8(b).is_ok()
}

/// A UTF-8 string holding at most `N` bytes. Its view is its byte sequence.
///
/// On the wire it is a length-delimited field whose payload is the raw
/// UTF-8 bytes. Parsing fails on invalid UTF-8 or when the payload does not
/// fit the capacity.
pub struct BoundedString<const N: usize> {
    bytes: Vec<u8>,
}

impl<const N: usize> View for BoundedString<N> {
    type V = Seq<u8>;

    closed spec fn view(&self) -> Seq<u8> {
        self.bytes@
    }
}

impl<const N: usize> BoundedString<N> {
    /// The constraints a byte sequence must meet to live in this type:
    /// within capacity, expressible in a 32-bit length prefix, and valid
    /// UTF-8.
    pub open spec fn spec_wf(v: Seq<u8>) -> bool {
        v.len() <= N && v.len() < 0x1_0000_0000 && valid_utf8(v)
    }

    /// Build a string from its UTF-8 bytes; `None` when the bytes are not
    /// valid UTF-8 or do not fit the capacity.
    pub fn from_bytes(bytes: Vec<u8>) -> (r: Option<BoundedString<N>>)
        ensures
            r matches Some(s) ==> s@ == bytes@ && s.wf(),
            r is None <==> !Self::spec_wf(bytes@),
    {
        if bytes.len() > N || bytes.len() > 0xffff_ffffusize {
            return None;
        }
        if !utf8_check(bytes.as_slice()) {
            return None;
        }
        Some(BoundedString { bytes })
    }

    /// The string's UTF-8 bytes.
    pub fn as_bytes(&self) -> (r: &[u8])
        ensures
            r@ == self@,
    {
        self.bytes.as_slice()
    }

    /// Length of the string in bytes.
    pub fn len(&self) -> (n: usize)
        ensures
            n == self@.len(),
    {
        self.bytes.len()
    }
}

impl<const N: usize> Message for BoundedString<N> {
    open spec fn wire_type_spec() -> WireType {
        WireType::LengthDelimited
    }

    open spec fn wf(&self) -> bool {
        Self::spec_wf(self@)
    }

    open spec fn default_spec() -> Seq<u8> {
        Seq::<u8>::empty()
    }

    open spec fn enc_spec(v: Seq<u8>) -> Seq<u8> {
        v
    }

    open spec fn rd_spec(init: Seq<u8>, data: Seq<u8>) -> Option<(Seq<u8>, Seq<u8>)> {
        if Self::spec_wf(data) {
            Some((data, Seq::<u8>::empty()))
        } else {
            None
        }
    }

    proof fn lemma_enc_wf(&self) {
    }

    proof fn lemma_round_trip(&self) {
    }

    fn wire_type() -> WireType {
        WireType::LengthDelimited
    }

    fn default_value() -> Self {
        let bytes = Vec::new();
        proof {
            assert(valid_utf8(bytes@));
        }
        BoundedString { bytes }
    }

    fn write_raw(&self, w: &mut ByteWriter) -> Result<(), WriteError> {
        w.write(self.bytes.as_slice())
    }

    fn read_raw(&mut self, r: &mut ByteReader) -> Result<(), ReadError> {
        let data = match r.read_to_end() {
            Ok(d) => d,
            Err(_) => {
                return Err(ReadError);
            },
        };
        if data.len() > N || data.len() > 0xffff_ffffusize {
            return Err(ReadError);
        }
        if !utf8_check(data) {
            return Err(ReadError);
        }
        self.bytes = slice_to_vec(data);
        Ok(())
    }
}

/// An opaque byte blob holding at most `N` bytes. Its view is its byte
/// sequence.
///
/// On the wire it is a length-delimited field whose payload is the bytes
/// themselves. Parsing fails when the payload does not fit the capacity.
pub struct BoundedBytes<const N: usize> {
    bytes: Vec<u8>,
}

impl<const N: usize> View for BoundedBytes<N> {
    type V = Seq<u8>;

    closed spec fn view(&self) -> Seq<u8> {
        self.bytes@
    }
}

impl<const N: usize> BoundedBytes<N> {
    /// The constraints a byte sequence must meet to live in this type:
    /// within capacity and expressible in a 32-bit length prefix.
    pub open spec fn spec_wf(v: Seq<u8>) -> bool {
        v.len() <= N && v.len() < 0x1_0000_0000
    }

    /// Build a blob from its bytes; `None` when they do not fit the
    /// capacity.
    pub fn from_bytes(bytes: Vec<u8>) -> (r: Option<BoundedBytes<N>>)
        ensures
            r matches Some(s) ==> s@ == bytes@ && s.wf(),
            r is None <==> !Self::spec_wf(bytes@),
    {
        if bytes.len() > N || bytes.len() > 0xffff_ffffusize {
            return None;
        }
        Some(BoundedBytes { bytes })
    }

    /// The blob's bytes.
    pub fn as_bytes(&self) -> (r: &[u8])
        ensures
            r@ == self@,
    {
        self.bytes.as_slice()
    }

    /// Length of the blob in bytes.
    pub fn len(&self) -> (n: usize)
        ensures
            n == self@.len(),
    {
        self.bytes.len()
    }
}

impl<const N: usize> Message for BoundedBytes<N> {
    open spec fn wire_type_spec() -> WireType {
        WireType::LengthDelimited
    }

    open spec fn wf(&self) -> bool {
        Self::spec_wf(self@)
    }

    open spec fn default_spec() -> Seq<u8> {
        Seq::<u8>::empty()
    }

    open spec fn enc_spec(v: Seq<u8>) -> Seq<u8> {
        v
    }

    open spec fn rd_spec(init: Seq<u8>, data: Seq<u8>) -> Option<(Seq<u8>, Seq<u8>)> {
        if Self::spec_wf(data) {
            Some((data, Seq::<u8>::empty()))
        } else {
            None
        }
    }

    proof fn lemma_enc_wf(&self) {
    }

    proof fn lemma_round_trip(&self) {
    }

    fn wire_type() -> WireType {
        WireType::LengthDelimited
    }

    fn default_value() -> Self {
        BoundedBytes { bytes: Vec::new() }
    }

    fn write_raw(&self, w: &mut ByteWriter) -> Result<(), WriteError> {
        w.write(self.bytes.as_slice())
    }

    fn read_raw(&mut self, r: &mut ByteReader) -> Result<(), ReadError> {
        let data = match r.read_to_end() {
            Ok(d) => d,
            Err(_) => {
                return Err(ReadError);
            },
        };
        if data.len() > N || data.len() > 0xffff_ffffusize {
            return Err(ReadError);
        }
        self.bytes = slice_to_vec(data);
        Ok(())
    }
}

/// A repeated-field holder with a fixed capacity of `N` elements.
///
/// Elements keep their insertion order; appending past the capacity fails,
/// which a parse surfaces as a read error.
pub struct Repeated<M, const N: usize> {
    items: Vec<M>,
}

impl<M: Message, const N: usize> Repeated<M, N> {
    /// An empty holder.
    pub fn new() -> (r: Repeated<M, N>)
        ensures
            r.elems() == Seq::<M::V>::empty(),
            r.wf(),
    {
        let r = Repeated { items: Vec::new() };
        proof {
            assert(r.elems() =~= Seq::<M::V>::empty());
        }
        r
    }
}

impl<M: Message, const N: usize> RepeatedMessage for Repeated<M, N> {
    type Message = M;

    closed spec fn elems(&self) -> Seq<M::V> {
        self.items@.map_values(|m: M| m@)
    }

    open spec fn capacity_spec() -> nat {
        N as nat
    }

    closed spec fn wf(&self) -> bool {
        self.items@.len() <= N && forall|i: int|
            0 <= i < self.items@.len() ==> self.items@[i].wf()
    }

    proof fn lemma_wf(&self) {
    }

    fn len(&self) -> (n: usize)
        ensures
            n == self.elems().len(),
    {
        self.items.len()
    }

    fn get(&self, i: usize) -> (m: &M) {
        &self.items[i]
    }

    fn append(&mut self, m: M) -> (res: Result<(), ReadError>) {
        if self.items.len() >= N {
            return Err(ReadError);
        }
        let ghost before = self.items@;
        self.items.push(m);
        proof {
            assert(self.elems() =~= before.map_values(|x: M| x@).push(m@));
        }
        Ok(())
    }
}

} // verus!
