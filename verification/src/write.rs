//! The write cursor: a bounded byte buffer that messages serialize into.

use vstd::prelude::*;

use crate::wire::{
    field_enc, field_header, lemma_varuint_enc_structure, max_tag, varuint_enc, varuint_size,
    zigzag32, zigzag64,
};
use crate::{optional_enc, repeated_enc, Message, Oneof, OptionalMessage, RepeatedMessage, WireType};

verus! {

/// Error returned by [`ByteWriter`]: the output buffer is exhausted.
#[derive(Copy, Clone, PartialEq, Eq, Debug, Structural)]
pub struct WriteError;

/// Writer over a bounded byte buffer.
///
/// The buffer grows by appending, up to the fixed capacity chosen when the
/// writer is created; a write that would pass the capacity fails with
/// [`WriteError`]. The view `w@` is the sequence of bytes written so far.
/// After a failed write the cursor is poisoned: some prefix of the rejected
/// data may already be in place, and the only guarantee kept is that earlier
/// bytes are untouched.
pub struct ByteWriter {
    buf: Vec<u8>,
    cap: usize,
}

impl View for ByteWriter {
    type V = Seq<u8>;

    closed spec fn view(&self) -> Seq<u8> {
        self.buf@
    }
}

impl ByteWriter {
    /// Capacity of the buffer: the most bytes the writer will ever hold.
    pub closed spec fn spec_cap(&self) -> int {
        self.cap as int
    }

    /// The writer's invariant: within capacity, and the capacity small
    /// enough that any buffer length fits a 32-bit length prefix.
    pub open spec fn wf(&self) -> bool {
        self@.len() <= self.spec_cap() && self.spec_cap() <= 0xffff_ffff
    }

    /// Create a writer over a fresh buffer of the given capacity.
    ///
    /// The capacity is capped at the largest 32-bit value so that any
    /// length-delimited frame written here has a length expressible in the
    /// 32-bit length prefix.
    pub fn new(cap: usize) -> (w: ByteWriter)
        requires
            cap <= 0xffff_ffff,
        ensures
            w@ == Seq::<u8>::empty(),
            w.spec_cap() == cap,
            w.wf(),
    {
        ByteWriter { buf: Vec::new(), cap }
    }

    /// The bytes written so far.
    pub fn bytes(&self) -> (r: &[u8])
        ensures
            r@ == self@,
    {
        self.buf.as_slice()
    }

    /// Number of bytes written so far.
    pub fn pos(&self) -> (n: usize)
        ensures
            n == self@.len(),
    {
        self.buf.len()
    }

    /// Consume the writer and return the written bytes.
    pub fn into_vec(self) -> (v: Vec<u8>)
        ensures
            v@ == self@,
    {
        self.buf
    }

    /// Append `bytes` to the buffer; fail, leaving the buffer unchanged,
    /// when they do not fit.
    pub fn write(&mut self, bytes: &[u8]) -> (res: Result<(), WriteError>)
        requires
            old(self).wf(),
        ensures
            final(self).wf(),
            final(self).spec_cap() == old(self).spec_cap(),
            res is Ok <==> old(self)@.len() + bytes@.len() <= old(self).spec_cap(),
            res is Ok ==> final(self)@ == old(self)@ + bytes@,
            res is Err ==> final(self)@ == old(self)@,
    {
        if self.cap - self.buf.len() < bytes.len() {
            return Err(WriteError);
        }
        self.buf.extend_from_slice(bytes);
        Ok(())
    }

    /// Append a single byte.
    pub fn write_u8(&mut self, val: u8) -> (res: Result<(), WriteError>)
        requires
            old(self).wf(),
        ensures
            final(self).wf(),
            final(self).spec_cap() == old(self).spec_cap(),
            res is Ok <==> old(self)@.len() + 1 <= old(self).spec_cap(),
            res is Ok ==> final(self)@ == old(self)@.push(val),
            res is Err ==> final(self)@ == old(self)@,
    {
        if self.cap - self.buf.len() < 1 {
            return Err(WriteError);
        }
        self.buf.push(val);
        Ok(())
    }

    /// Append a `u16` as two little-endian bytes.
    pub fn write_u16(&mut self, val: u16) -> (res: Result<(), WriteError>)
        requires
            old(self).wf(),
        ensures
            final(self).wf(),
            final(self).spec_cap() == old(self).spec_cap(),
            res is Ok <==> old(self)@.len() + 2 <= old(self).spec_cap(),
            res is Ok ==> final(self)@ == old(self)@ + vstd::bytes::spec_u16_to_le_bytes(val),
            res is Err ==> final(self)@ == old(self)@,
    {
        let b = vstd::bytes::u16_to_le_bytes(val);
        self.write(b.as_slice())
    }

    /// Append a `u32` as four little-endian bytes.
    pub fn write_u32(&mut self, val: u32) -> (res: Result<(), WriteError>)
        requires
            old(self).wf(),
        ensures
            final(self).wf(),
            final(self).spec_cap() == old(self).spec_cap(),
            res is Ok <==> old(self)@.len() + 4 <= old(self).spec_cap(),
            res is Ok ==> final(self)@ == old(self)@ + vstd::bytes::spec_u32_to_le_bytes(val),
            res is Err ==> final(self)@ == old(self)@,
    {
        let b = vstd::bytes::u32_to_le_bytes(val);
        self.write(b.as_slice())
    }

    /// Append a `u64` as eight little-endian bytes.
    pub fn write_u64(&mut self, val: u64) -> (res: Result<(), WriteError>)
        requires
            old(self).wf(),
        ensures
            final(self).wf(),
            final(self).spec_cap() == old(self).spec_cap(),
            res is Ok <==> old(self)@.len() + 8 <= old(self).spec_cap(),
            res is Ok ==> final(self)@ == old(self)@ + vstd::bytes::spec_u64_to_le_bytes(val),
            res is Err ==> final(self)@ == old(self)@,
    {
        let b = vstd::bytes::u64_to_le_bytes(val);
        self.write(b.as_slice())
    }

    /// Append the canonical varint encoding of `val`.
    ///
    /// Emits low-order 7-bit groups first, setting the high bit on every
    /// byte but the last. On overflow the cursor is poisoned: the groups
    /// already emitted stay in the buffer.
    pub fn write_varuint64(&mut self, val: u64) -> (res: Result<(), WriteError>)
        requires
            old(self).wf(),
        ensures
            final(self).wf(),
            final(self).spec_cap() == old(self).spec_cap(),
            old(self)@.is_prefix_of(final(self)@),
            res is Ok <==> old(self)@.len() + varuint_enc(val).len() <= old(self).spec_cap(),
            res is Ok ==> final(self)@ == old(self)@ + varuint_enc(val),
    {
        let ghost start = self@.len() as int;
        let mut v: u64 = val;
        loop
            invariant
                self.wf(),
                self.spec_cap() == old(self).spec_cap(),
                old(self)@.is_prefix_of(self@),
                start == old(self)@.len(),
                varuint_enc(val) == self@.skip(start) + varuint_enc(v),
                varuint_size(val) == (self@.len() - start) + varuint_size(v),
            decreases v,
        {
            proof {
                lemma_varuint_enc_structure(v);
                lemma_varuint_enc_structure(val);
                assert((v >> 7 == 0 <==> v < 0x80) && (v < 0x80 ==> (v & 0x7f) as u8 == v as u8)
                    && ((v & 0x7f) | (if v >> 7 != 0 { 0x80u64 } else { 0u64 })) as u8 == (if v
                    >= 0x80 { ((v & 0x7f) | 0x80) as u8 } else { v as u8 }) && (v >= 0x80 ==> v >> 7
                    < v)) by (bit_vector);
            }
            let mut part: u64 = v & 0x7f;
            let rest: u64 = v >> 7;
            if rest != 0 {
                part |= 0x80;
            }
            let ghost pre = self@;
            match self.write_u8(part as u8) {
                Ok(()) => {},
                Err(e) => {
                    proof {
                        assert(pre.skip(start).len() >= 0);
                    }
                    return Err(e);
                },
            }
            proof {
                assert(self@.skip(start) =~= pre.skip(start).push((part as u8)));
                if rest != 0 {
                    assert(varuint_enc(v) == seq![((v & 0x7f) | 0x80) as u8] + varuint_enc(v >> 7));
                    assert(pre.skip(start).push((part as u8)) + varuint_enc(rest) =~= pre.skip(
                        start,
                    ) + varuint_enc(v));
                } else {
                    assert(varuint_enc(v) == seq![v as u8]);
                    assert(pre.skip(start).push((part as u8)) =~= pre.skip(start) + varuint_enc(v));
                }
            }
            if rest == 0 {
                proof {
                    assert(final(self)@ =~= old(self)@ + final(self)@.skip(start));
                }
                return Ok(());
            }
            v = rest;
        }
    }

    /// Append the canonical varint encoding of a 32-bit value.
    pub fn write_varuint32(&mut self, val: u32) -> (res: Result<(), WriteError>)
        requires
            old(self).wf(),
        ensures
            final(self).wf(),
            final(self).spec_cap() == old(self).spec_cap(),
            old(self)@.is_prefix_of(final(self)@),
            res is Ok <==> old(self)@.len() + varuint_enc(val as u64).len() <= old(self).spec_cap(),
            res is Ok ==> final(self)@ == old(self)@ + varuint_enc(val as u64),
    {
        self.write_varuint64(val as u64)
    }

    /// Append the zigzag varint encoding of a signed 32-bit value.
    pub fn write_varint32(&mut self, val: i32) -> (res: Result<(), WriteError>)
        requires
            old(self).wf(),
        ensures
            final(self).wf(),
            final(self).spec_cap() == old(self).spec_cap(),
            old(self)@.is_prefix_of(final(self)@),
            res is Ok <==> old(self)@.len() + varuint_enc(zigzag32(val) as u64).len() <= old(
                self,
            ).spec_cap(),
            res is Ok ==> final(self)@ == old(self)@ + varuint_enc(zigzag32(val) as u64),
    {
        let z: u32 = #[verifier::truncate] (((val >> 31) ^ (val << 1)) as u32);
        self.write_varuint32(z)
    }

    /// Append the zigzag varint encoding of a signed 64-bit value.
    pub fn write_varint64(&mut self, val: i64) -> (res: Result<(), WriteError>)
        requires
            old(self).wf(),
        ensures
            final(self).wf(),
            final(self).spec_cap() == old(self).spec_cap(),
            old(self)@.is_prefix_of(final(self)@),
            res is Ok <==> old(self)@.len() + varuint_enc(zigzag64(val)).len() <= old(self).spec_cap(),
            res is Ok ==> final(self)@ == old(self)@ + varuint_enc(zigzag64(val)),
    {
        let z: u64 = #[verifier::truncate] (((val >> 63) ^ (val << 1)) as u64);
        self.write_varuint64(z)
    }
}

impl ByteWriter {
    /// Append a length-delimited frame: the varint-encoded length of the
    /// message body, then the body itself.
    ///
    /// The body length is not known in advance, so the body is written
    /// first, starting at the current position, and the length prefix is
    /// spliced in front of it afterwards. Succeeds exactly when body and
    /// prefix together fit the remaining capacity; on failure the cursor is
    /// poisoned and a partial body may remain past the old position.
    pub fn write_length_delimited<M: Message>(&mut self, msg: &M) -> (res: Result<(), WriteError>)
        requires
            old(self).wf(),
            msg.wf(),
        ensures
            final(self).wf(),
            final(self).spec_cap() == old(self).spec_cap(),
            old(self)@.is_prefix_of(final(self)@),
            res is Ok <==> old(self)@.len() + varuint_enc(M::enc_spec(msg@).len() as u64).len()
                + M::enc_spec(msg@).len() <= old(self).spec_cap(),
            res is Ok ==> final(self)@ == old(self)@ + varuint_enc(M::enc_spec(msg@).len() as u64)
                + M::enc_spec(msg@),
    {
        proof {
            lemma_varuint_enc_structure(M::enc_spec(msg@).len() as u64);
        }
        let start = self.buf.len();
        match msg.write_raw(self) {
            Ok(()) => {},
            Err(e) => {
                return Err(e);
            },
        }
        let len = self.buf.len() - start;
        proof {
            lemma_varuint_enc_structure((len as u32) as u64);
        }
        let mut header = ByteWriter::new(5);
        match header.write_varuint32(len as u32) {
            Ok(()) => {},
            Err(_) => {
                return Err(WriteError);
            },
        }
        let hv = header.into_vec();
        if self.cap - self.buf.len() < hv.len() {
            return Err(WriteError);
        }
        let ghost with_body = self.buf@;
        let mut tail = self.buf.split_off(start);
        proof {
            assert(self.buf@ =~= old(self)@);
            assert(tail@ =~= M::enc_spec(msg@));
        }
        self.buf.extend_from_slice(hv.as_slice());
        self.buf.append(&mut tail);
        proof {
            assert(self.buf@ =~= old(self)@ + varuint_enc(M::enc_spec(msg@).len() as u64)
                + M::enc_spec(msg@));
        }
        Ok(())
    }

    /// Append one whole field: the header varint carrying tag and wire
    /// type, then the message body — framed behind a length prefix when the
    /// message is length-delimited, bare when it is a varint.
    pub fn write_field<M: Message>(&mut self, tag: u32, msg: &M) -> (res: Result<(), WriteError>)
        requires
            old(self).wf(),
            msg.wf(),
            1 <= tag <= max_tag(),
        ensures
            final(self).wf(),
            final(self).spec_cap() == old(self).spec_cap(),
            old(self)@.is_prefix_of(final(self)@),
            res is Ok <==> old(self)@.len() + field_enc(tag, M::wire_type_spec(), M::enc_spec(msg@)).len()
                <= old(self).spec_cap(),
            res is Ok ==> final(self)@ == old(self)@ + field_enc(
                tag,
                M::wire_type_spec(),
                M::enc_spec(msg@),
            ),
    {
        let wt = M::wire_type();
        let wn: u32 = match wt {
            WireType::Varint => 0,
            WireType::LengthDelimited => 2,
        };
        let header: u32 = (tag << 3) | wn;
        proof {
            assert(header == field_header(tag, M::wire_type_spec()));
        }
        match self.write_varuint32(header) {
            Ok(()) => {},
            Err(e) => {
                return Err(e);
            },
        }
        match wt {
            WireType::LengthDelimited => self.write_length_delimited(msg),
            WireType::Varint => msg.write_raw(self),
        }
    }

    /// Append a repeated field: one independent tag-prefixed field per
    /// element, in order. An empty holder appends nothing.
    pub fn write_repeated<M: RepeatedMessage>(&mut self, tag: u32, msg: &M) -> (res: Result<
        (),
        WriteError,
    >)
        requires
            old(self).wf(),
            msg.wf(),
            1 <= tag <= max_tag(),
        ensures
            final(self).wf(),
            final(self).spec_cap() == old(self).spec_cap(),
            old(self)@.is_prefix_of(final(self)@),
            res is Ok <==> old(self)@.len() + repeated_enc::<M::Message>(tag, msg.elems()).len() <= old(
                self,
            ).spec_cap(),
            res is Ok ==> final(self)@ == old(self)@ + repeated_enc::<M::Message>(tag, msg.elems()),
    {
        proof {
            assert(msg.elems().skip(0) =~= msg.elems());
        }
        let n = msg.len();
        let mut i: usize = 0;
        while i < n
            invariant
                i <= n,
                n == msg.elems().len(),
                msg.wf(),
                1 <= tag <= max_tag(),
                self.wf(),
                self.spec_cap() == old(self).spec_cap(),
                old(self)@.is_prefix_of(self@),
                old(self)@ + repeated_enc::<M::Message>(tag, msg.elems()) == self@
                    + repeated_enc::<M::Message>(tag, msg.elems().skip(i as int)),
            decreases n - i,
        {
            let m = msg.get(i);
            proof {
                assert(msg.elems().skip(i as int).drop_first() =~= msg.elems().skip(i + 1));
                assert(msg.elems().skip(i as int)[0] == msg.elems()[i as int]);
            }
            let ghost pre = self@;
            let ghost felem = field_enc(
                tag,
                <M::Message as Message>::wire_type_spec(),
                <M::Message as Message>::enc_spec(msg.elems()[i as int]),
            );
            proof {
                assert(repeated_enc::<M::Message>(tag, msg.elems().skip(i as int)) == felem
                    + repeated_enc::<M::Message>(tag, msg.elems().skip(i + 1)));
            }
            match self.write_field(tag, m) {
                Ok(()) => {},
                Err(e) => {
                    proof {
                        assert((old(self)@ + repeated_enc::<M::Message>(tag, msg.elems())).len() == (pre
                            + repeated_enc::<M::Message>(tag, msg.elems().skip(i as int))).len());
                        assert((felem + repeated_enc::<M::Message>(tag, msg.elems().skip(i + 1))).len()
                            == felem.len() + repeated_enc::<M::Message>(
                            tag,
                            msg.elems().skip(i + 1),
                        ).len());
                        assert(old(self)@.len() + repeated_enc::<M::Message>(tag, msg.elems()).len() == pre.len()
                            + felem.len() + repeated_enc::<M::Message>(tag, msg.elems().skip(i + 1)).len());
                        assert(pre.len() + felem.len() > old(self).spec_cap());
                    }
                    return Err(e);
                },
            }
            i = i + 1;
        }
        proof {
            assert(msg.elems().skip(n as int) =~= Seq::<<M::Message as View>::V>::empty());
            assert(old(self)@ + repeated_enc::<M::Message>(tag, msg.elems()) =~= self@);
        }
        Ok(())
    }

    /// Append an optional field: one tag-prefixed field when a value is
    /// present, nothing otherwise.
    pub fn write_optional<M: OptionalMessage>(&mut self, tag: u32, msg: &M) -> (res: Result<
        (),
        WriteError,
    >)
        requires
            old(self).wf(),
            msg.wf(),
            1 <= tag <= max_tag(),
        ensures
            final(self).wf(),
            final(self).spec_cap() == old(self).spec_cap(),
            old(self)@.is_prefix_of(final(self)@),
            res is Ok <==> old(self)@.len() + optional_enc::<M::Message>(tag, msg.get_spec()).len()
                <= old(self).spec_cap(),
            res is Ok ==> final(self)@ == old(self)@ + optional_enc::<M::Message>(
                tag,
                msg.get_spec(),
            ),
    {
        match msg.get() {
            Some(m) => self.write_field(tag, m),
            None => {
                proof {
                    assert(old(self)@ + Seq::<u8>::empty() =~= old(self)@);
                }
                Ok(())
            },
        }
    }

    /// Append a oneof field: exactly one tag-prefixed field, that of the
    /// active variant.
    pub fn write_oneof<M: Oneof>(&mut self, msg: &M) -> (res: Result<(), WriteError>)
        requires
            old(self).wf(),
            msg.wf(),
        ensures
            final(self).wf(),
            final(self).spec_cap() == old(self).spec_cap(),
            old(self)@.is_prefix_of(final(self)@),
            res is Ok <==> old(self)@.len() + M::enc_spec(msg.model()).len() <= old(
                self,
            ).spec_cap(),
            res is Ok ==> final(self)@ == old(self)@ + M::enc_spec(msg.model()),
    {
        msg.write_raw(self)
    }
}

} // verus!
