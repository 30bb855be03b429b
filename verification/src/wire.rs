//! Mathematical model of the wire format.
//!
//! Everything here is specification-level: the byte sequence a varint or a
//! field occupies, and the value a byte sequence decodes to. The executable
//! cursors in the rest of the crate carry contracts phrased over these
//! functions, and the lemmas below relate encoding and decoding.

use vstd::prelude::*;

use crate::WireType;

verus! {

/// Canonical (minimum-length) varint encoding of an unsigned value:
/// little-endian 7-bit groups, high bit set on every byte but the last.
pub open spec fn varuint_enc(v: u64) -> Seq<u8>
    decreases v,
    via varuint_enc_decreases
{
    if v < 0x80 {
        seq![v as u8]
    } else {
        seq![(((v & 0x7f) | 0x80) as u8)] + varuint_enc(v >> 7)
    }
}

#[via_fn]
proof fn varuint_enc_decreases(v: u64) {
    assert(v >= 0x80 ==> (v >> 7) < v) by (bit_vector);
}

/// Length of the varint that starts at the head of `data`: the number of
/// bytes up to and including the first byte with the high bit clear.
/// `None` when the buffer ends before a terminator byte.
pub open spec fn varint_len(data: Seq<u8>) -> Option<int>
    decreases data.len(),
{
    if data.len() == 0 {
        None
    } else if data[0] & 0x80 == 0 {
        Some(1)
    } else {
        match varint_len(data.skip(1)) {
            None => None,
            Some(k) => Some(k + 1),
        }
    }
}

/// `s` is exactly one varint: a terminator byte appears at its end and
/// nowhere earlier.
pub open spec fn is_varint_bytes(s: Seq<u8>) -> bool {
    varint_len(s) == Some(s.len() as int)
}

/// One step of varint decoding: the bit groups of `b` are merged into `acc`
/// at bit offset `shift`, except that groups at or past the destination
/// width are discarded.
pub open spec fn vmerge32(acc: u32, b: u8, shift: u32) -> u32 {
    if shift < 32 {
        acc | (((b & 0x7f) as u32) << shift)
    } else {
        acc
    }
}

/// Varint decoding into 32 bits, little-endian 7-bit groups, starting from
/// accumulator `acc` at bit offset `shift`. Value bits at offsets past 32
/// are discarded silently; the terminator is still consumed. `None` when the
/// buffer ends before a terminator byte.
pub open spec fn vdec32_rec(data: Seq<u8>, shift: u32, acc: u32) -> Option<(u32, Seq<u8>)>
    decreases data.len(),
{
    if data.len() == 0 {
        None
    } else {
        let b = data[0];
        let acc2 = vmerge32(acc, b, shift);
        if b & 0x80 == 0 {
            Some((acc2, data.skip(1)))
        } else {
            vdec32_rec(data.skip(1), if shift < 32 { (shift + 7) as u32 } else { shift }, acc2)
        }
    }
}

/// Decode one unsigned varint from the head of `data` into 32 bits.
pub open spec fn vdec32(data: Seq<u8>) -> Option<(u32, Seq<u8>)> {
    vdec32_rec(data, 0, 0)
}

/// One step of varint decoding into 64 bits.
pub open spec fn vmerge64(acc: u64, b: u8, shift: u32) -> u64 {
    if shift < 64 {
        acc | (((b & 0x7f) as u64) << shift)
    } else {
        acc
    }
}

/// Varint decoding into 64 bits; see [`vdec32_rec`].
pub open spec fn vdec64_rec(data: Seq<u8>, shift: u32, acc: u64) -> Option<(u64, Seq<u8>)>
    decreases data.len(),
{
    if data.len() == 0 {
        None
    } else {
        let b = data[0];
        let acc2 = vmerge64(acc, b, shift);
        if b & 0x80 == 0 {
            Some((acc2, data.skip(1)))
        } else {
            vdec64_rec(data.skip(1), if shift < 64 { (shift + 7) as u32 } else { shift }, acc2)
        }
    }
}

/// Decode one unsigned varint from the head of `data` into 64 bits.
pub open spec fn vdec64(data: Seq<u8>) -> Option<(u64, Seq<u8>)> {
    vdec64_rec(data, 0, 0)
}

/// Zigzag encoding of a signed 32-bit value: small magnitudes map to small
/// unsigned values.
pub open spec fn zigzag32(n: i32) -> u32 {
    ((n >> 31) ^ (n << 1)) as u32
}

/// Inverse of [`zigzag32`].
pub open spec fn unzigzag32(u: u32) -> i32 {
    ((u >> 1) as i32) ^ (if u & 1 == 1 { -1i32 } else { 0i32 })
}

/// Zigzag encoding of a signed 64-bit value.
pub open spec fn zigzag64(n: i64) -> u64 {
    ((n >> 63) ^ (n << 1)) as u64
}

/// Inverse of [`zigzag64`].
pub open spec fn unzigzag64(u: u64) -> i64 {
    ((u >> 1) as i64) ^ (if u & 1 == 1 { -1i64 } else { 0i64 })
}

/// The 3-bit wire-type code used in field headers.
pub open spec fn wire_num(wt: WireType) -> u32 {
    match wt {
        WireType::Varint => 0,
        WireType::LengthDelimited => 2,
    }
}

/// The field header value: tag in the high bits, wire-type code in the low
/// three bits.
pub open spec fn field_header(tag: u32, wt: WireType) -> u32 {
    (tag << 3) | wire_num(wt)
}

/// Largest tag that fits a 32-bit field header.
pub open spec fn max_tag() -> u32 {
    0x1fff_ffff
}

/// One decoded field: its tag, its wire type, and exactly its payload bytes
/// (the varint bytes, or the contents after the length prefix).
pub struct FieldView {
    /// Field tag from the header.
    pub tag: u32,
    /// Wire type from the header.
    pub wt: WireType,
    /// The field's payload bytes.
    pub payload: Seq<u8>,
}

/// The bytes of one encoded field: the header varint, then the payload —
/// framed behind a varint length prefix when the wire type is
/// length-delimited, bare when it is a varint.
pub open spec fn field_enc(tag: u32, wt: WireType, payload: Seq<u8>) -> Seq<u8> {
    match wt {
        WireType::Varint => varuint_enc(field_header(tag, wt) as u64) + payload,
        WireType::LengthDelimited => varuint_enc(field_header(tag, wt) as u64) + varuint_enc(
            payload.len() as u64,
        ) + payload,
    }
}

/// Decode one field from the head of `data`: header varint, then the
/// payload as dictated by the wire type. `None` on a truncated header,
/// a reserved wire-type code, or a truncated payload.
pub open spec fn field_dec(data: Seq<u8>) -> Option<(FieldView, Seq<u8>)> {
    match vdec32(data) {
        None => None,
        Some((header, rest1)) => {
            let tag = header >> 3;
            let wtn = header & 7;
            if wtn == 0 {
                match varint_len(rest1) {
                    None => None,
                    Some(k) => Some(
                        (
                            FieldView { tag, wt: WireType::Varint, payload: rest1.take(k) },
                            rest1.skip(k),
                        ),
                    ),
                }
            } else if wtn == 2 {
                match vdec32(rest1) {
                    None => None,
                    Some((len, rest2)) => {
                        if len <= rest2.len() {
                            Some(
                                (
                                    FieldView {
                                        tag,
                                        wt: WireType::LengthDelimited,
                                        payload: rest2.take(len as int),
                                    },
                                    rest2.skip(len as int),
                                ),
                            )
                        } else {
                            None
                        }
                    },
                }
            } else {
                None
            }
        },
    }
}

/// Number of bytes in the canonical varint encoding of `v`.
pub open spec fn varuint_size(v: u64) -> int
    decreases v,
    via varuint_size_decreases
{
    if v < 0x80 {
        1
    } else {
        1 + varuint_size(v >> 7)
    }
}

#[via_fn]
proof fn varuint_size_decreases(v: u64) {
    assert(v >= 0x80 ==> (v >> 7) < v) by (bit_vector);
}

/// Structure of the canonical encoding: it is one complete varint, its
/// length is [`varuint_size`] and never exceeds ten bytes (five for values
/// below 2^32), and it carries no redundant padding: a multi-byte encoding
/// never ends in a zero group.
pub proof fn lemma_varuint_enc_structure(v: u64)
    ensures
        varuint_enc(v).len() == varuint_size(v),
        1 <= varuint_size(v) <= 10,
        v < 0x80 ==> varuint_size(v) == 1,
        v < 0x4000 ==> varuint_size(v) <= 2,
        v < 0x20_0000 ==> varuint_size(v) <= 3,
        v < 0x1000_0000 ==> varuint_size(v) <= 4,
        v < 0x8_0000_0000 ==> varuint_size(v) <= 5,
        is_varint_bytes(varuint_enc(v)),
        varuint_enc(v).len() > 1 ==> varuint_enc(v).last() != 0,
        v >= 1 ==> varuint_enc(v).last() != 0,
        v < 0x400_0000_0000 ==> varuint_size(v) <= 6,
        v < 0x2_0000_0000_0000 ==> varuint_size(v) <= 7,
        v < 0x100_0000_0000_0000 ==> varuint_size(v) <= 8,
        v < 0x8000_0000_0000_0000 ==> varuint_size(v) <= 9,
    decreases v,
{
    if v < 0x80 {
        assert(v < 0x80 ==> (v as u8) & 0x80 == 0 && ((v as u8) != 0 <==> v >= 1))
            by (bit_vector);
        assert(varuint_enc(v) == seq![v as u8]);
        assert(varuint_enc(v)[0] == v as u8);
        assert(varint_len(varuint_enc(v)) == Some(1int));
    } else {
        assert(v >= 0x80 ==> {
            &&& (v >> 7) < v
            &&& (v >> 7) >= 1
            &&& (((v & 0x7f) | 0x80) as u8) & 0x80 != 0
            &&& (v < 0x4000 ==> (v >> 7) < 0x80)
            &&& (v < 0x20_0000 ==> (v >> 7) < 0x4000)
            &&& (v < 0x1000_0000 ==> (v >> 7) < 0x20_0000)
            &&& (v < 0x8_0000_0000 ==> (v >> 7) < 0x1000_0000)
            &&& (v < 0x400_0000_0000 ==> (v >> 7) < 0x8_0000_0000)
            &&& (v < 0x2_0000_0000_0000 ==> (v >> 7) < 0x400_0000_0000)
            &&& (v < 0x100_0000_0000_0000 ==> (v >> 7) < 0x2_0000_0000_0000)
            &&& (v < 0x8000_0000_0000_0000 ==> (v >> 7) < 0x100_0000_0000_0000)
            &&& (v >> 7) < 0x8000_0000_0000_0000
        }) by (bit_vector);
        lemma_varuint_enc_structure(v >> 7);
        let b = ((v & 0x7f) | 0x80) as u8;
        let tail = varuint_enc(v >> 7);
        let whole = varuint_enc(v);
        assert(whole == seq![b] + tail);
        assert(whole.skip(1) =~= tail);
        assert(whole[0] == b);
        assert(whole.last() == tail.last());
    }
}

/// A varint occupies between one byte and the whole buffer.
pub proof fn lemma_varint_len_bounds(data: Seq<u8>)
    ensures
        varint_len(data) matches Some(k) ==> 1 <= k <= data.len(),
    decreases data.len(),
{
    if data.len() != 0 && data[0] & 0x80 != 0 {
        lemma_varint_len_bounds(data.skip(1));
    }
}

/// When the first `i` bytes are continuation bytes and byte `i` is a
/// terminator, the varint at the head of `data` is `i + 1` bytes long.
pub proof fn lemma_varint_len_scan(data: Seq<u8>, i: int)
    requires
        0 <= i < data.len(),
        forall|j: int| 0 <= j < i ==> data[j] & 0x80 != 0,
        data[i] & 0x80 == 0,
    ensures
        varint_len(data) == Some(i + 1),
    decreases i,
{
    if i > 0 {
        assert(forall|j: int| 0 <= j < i - 1 ==> data.skip(1)[j] == data[j + 1]);
        lemma_varint_len_scan(data.skip(1), i - 1);
    }
}

/// When every byte is a continuation byte, no varint terminates.
pub proof fn lemma_varint_len_none(data: Seq<u8>)
    requires
        forall|j: int| 0 <= j < data.len() ==> data[j] & 0x80 != 0,
    ensures
        varint_len(data) is None,
    decreases data.len(),
{
    if data.len() > 0 {
        assert(forall|j: int| 0 <= j < data.len() - 1 ==> data.skip(1)[j] == data[j + 1]);
        lemma_varint_len_none(data.skip(1));
    }
}

/// A varint at the head of a buffer is unaffected by bytes appended behind
/// it: same length, same leading bytes, and the remainder gains the suffix.
pub proof fn lemma_varint_len_append(data: Seq<u8>, extra: Seq<u8>)
    requires
        varint_len(data) is Some,
    ensures
        varint_len(data + extra) == varint_len(data),
        (data + extra).take(varint_len(data).unwrap()) == data.take(varint_len(data).unwrap()),
        (data + extra).skip(varint_len(data).unwrap()) == data.skip(varint_len(data).unwrap())
            + extra,
    decreases data.len(),
{
    let k = varint_len(data).unwrap();
    if data[0] & 0x80 == 0 {
        assert((data + extra).skip(1) =~= data.skip(1) + extra);
        assert((data + extra).take(1) =~= data.take(1));
    } else {
        lemma_varint_len_append(data.skip(1), extra);
        lemma_varint_len_bounds(data.skip(1));
        assert((data + extra).skip(1) =~= data.skip(1) + extra);
        let k1 = varint_len(data.skip(1)).unwrap();
        assert((data.skip(1) + extra).take(k1) == data.skip(1).take(k1));
        assert((data + extra).take(k) =~= seq![data[0]] + (data.skip(1) + extra).take(k1));
        assert(data.take(k) =~= seq![data[0]] + data.skip(1).take(k1));
        assert((data.skip(1) + extra).skip(k1) == data.skip(1).skip(k1) + extra);
        assert((data + extra).skip(k) =~= (data.skip(1) + extra).skip(k1));
        assert(data.skip(k) =~= data.skip(1).skip(k1));
    }
}

/// Decoding succeeds exactly when the buffer starts with a complete varint,
/// and it consumes exactly that varint.
pub proof fn lemma_vdec32_structure(data: Seq<u8>, shift: u32, acc: u32)
    ensures
        (vdec32_rec(data, shift, acc) is Some) <==> (varint_len(data) is Some),
        vdec32_rec(data, shift, acc) matches Some((v, rest)) ==> rest == data.skip(
            varint_len(data).unwrap(),
        ) && rest.len() + varint_len(data).unwrap() == data.len(),
    decreases data.len(),
{
    if data.len() != 0 && data[0] & 0x80 != 0 {
        lemma_vdec32_structure(
            data.skip(1),
            if shift < 32 {
                (shift + 7) as u32
            } else {
                shift
            },
            vmerge32(acc, data[0], shift),
        );
        if varint_len(data.skip(1)) is Some {
            lemma_varint_len_bounds(data.skip(1));
            let k1 = varint_len(data.skip(1)).unwrap();
            assert(data.skip(1).skip(k1) =~= data.skip(k1 + 1));
        }
    }
}

/// Decoding into 64 bits succeeds exactly when the buffer starts with a
/// complete varint, and it consumes exactly that varint.
pub proof fn lemma_vdec64_structure(data: Seq<u8>, shift: u32, acc: u64)
    ensures
        (vdec64_rec(data, shift, acc) is Some) <==> (varint_len(data) is Some),
        vdec64_rec(data, shift, acc) matches Some((v, rest)) ==> rest == data.skip(
            varint_len(data).unwrap(),
        ) && rest.len() + varint_len(data).unwrap() == data.len(),
    decreases data.len(),
{
    if data.len() != 0 && data[0] & 0x80 != 0 {
        lemma_vdec64_structure(
            data.skip(1),
            if shift < 64 {
                (shift + 7) as u32
            } else {
                shift
            },
            vmerge64(acc, data[0], shift),
        );
        if varint_len(data.skip(1)) is Some {
            lemma_varint_len_bounds(data.skip(1));
            let k1 = varint_len(data.skip(1)).unwrap();
            assert(data.skip(1).skip(k1) =~= data.skip(k1 + 1));
        }
    }
}

/// A successful decode is unaffected by bytes appended behind the varint:
/// same value, and the remainder gains the suffix.
pub proof fn lemma_vdec32_append(data: Seq<u8>, extra: Seq<u8>, shift: u32, acc: u32)
    requires
        vdec32_rec(data, shift, acc) is Some,
    ensures
        vdec32_rec(data + extra, shift, acc) matches Some((v2, rest2)) && vdec32_rec(
            data,
            shift,
            acc,
        ) matches Some((v, rest)) && v2 == v && rest2 == rest + extra,
    decreases data.len(),
{
    assert((data + extra)[0] == data[0]);
    if data[0] & 0x80 == 0 {
        assert((data + extra).skip(1) =~= data.skip(1) + extra);
    } else {
        assert((data + extra).skip(1) =~= data.skip(1) + extra);
        lemma_vdec32_append(
            data.skip(1),
            extra,
            if shift < 32 {
                (shift + 7) as u32
            } else {
                shift
            },
            vmerge32(acc, data[0], shift),
        );
    }
}

/// The value `w` contributes to a 32-bit accumulator when merged at bit
/// offset `shift`.
pub open spec fn shl_trunc32(w: u64, shift: u32) -> u32 {
    if shift >= 32 {
        0u32
    } else {
        ((w << (shift as u64)) as u32)
    }
}

/// The value `w` contributes to a 64-bit accumulator when merged at bit
/// offset `shift`.
pub open spec fn shl_trunc64(w: u64, shift: u32) -> u64 {
    if shift >= 64 {
        0u64
    } else {
        (w << (shift as u64)) as u64
    }
}

/// Decoding the canonical encoding of `w` merges `w` into the accumulator at
/// the current bit offset and leaves exactly the appended suffix.
pub proof fn lemma_vdec32_of_enc(w: u64, shift: u32, acc: u32, rest: Seq<u8>)
    ensures
        vdec32_rec(varuint_enc(w) + rest, shift, acc) == Some(
            ((acc | shl_trunc32(w, shift)), rest),
        ),
    decreases w,
{
    let data = varuint_enc(w) + rest;
    assert(acc | 0u32 == acc) by (bit_vector);
    if w < 0x80 {
        assert(data == seq![w as u8] + rest);
        assert(data[0] == w as u8);
        assert(data.skip(1) =~= rest);
        assert(w < 0x80 ==> (w as u8) & 0x80 == 0) by (bit_vector);
        assert(w < 0x80 && shift < 32 ==> acc | ((((w as u8) & 0x7f) as u32) << shift) == acc
            | ((w << (shift as u64)) as u32)) by (bit_vector);
    } else {
        assert(w >= 0x80 ==> (w >> 7) < w && (((w & 0x7f) | 0x80) as u8) & 0x80 != 0)
            by (bit_vector);
        let b = ((w & 0x7f) | 0x80) as u8;
        assert(data =~= seq![b] + (varuint_enc(w >> 7) + rest));
        assert(data[0] == b);
        assert(data.skip(1) =~= varuint_enc(w >> 7) + rest);
        let shift2 = if shift < 32 {
            (shift + 7) as u32
        } else {
            shift
        };
        let acc2 = vmerge32(acc, b, shift);
        lemma_vdec32_of_enc(w >> 7, shift2, acc2, rest);
        if shift < 32 {
            assert(w >= 0x80 && b == ((w & 0x7f) | 0x80) as u8 && shift < 32 ==> (acc | (((b
                & 0x7f) as u32) << shift)) | (if shift + 7 >= 32 {
                0u32
            } else {
                (((w >> 7) << ((shift + 7) as u64)) as u32)
            }) == acc | ((w << (shift as u64)) as u32)) by (bit_vector);
        }
    }
}

/// 64-bit counterpart of [`lemma_vdec32_of_enc`].
pub proof fn lemma_vdec64_of_enc(w: u64, shift: u32, acc: u64, rest: Seq<u8>)
    ensures
        vdec64_rec(varuint_enc(w) + rest, shift, acc) == Some(
            ((acc | shl_trunc64(w, shift)), rest),
        ),
    decreases w,
{
    let data = varuint_enc(w) + rest;
    assert(acc | 0u64 == acc) by (bit_vector);
    if w < 0x80 {
        assert(data == seq![w as u8] + rest);
        assert(data[0] == w as u8);
        assert(data.skip(1) =~= rest);
        assert(w < 0x80 ==> (w as u8) & 0x80 == 0) by (bit_vector);
        assert(w < 0x80 && shift < 64 ==> acc | ((((w as u8) & 0x7f) as u64) << shift) == acc | (
        (w << (shift as u64)) as u64)) by (bit_vector);
    } else {
        assert(w >= 0x80 ==> (w >> 7) < w && (((w & 0x7f) | 0x80) as u8) & 0x80 != 0)
            by (bit_vector);
        let b = ((w & 0x7f) | 0x80) as u8;
        assert(data =~= seq![b] + (varuint_enc(w >> 7) + rest));
        assert(data[0] == b);
        assert(data.skip(1) =~= varuint_enc(w >> 7) + rest);
        let shift2 = if shift < 64 {
            (shift + 7) as u32
        } else {
            shift
        };
        let acc2 = vmerge64(acc, b, shift);
        lemma_vdec64_of_enc(w >> 7, shift2, acc2, rest);
        if shift < 64 {
            assert(w >= 0x80 && b == ((w & 0x7f) | 0x80) as u8 && shift < 64 ==> (acc | (((b
                & 0x7f) as u64) << shift)) | (if shift + 7 >= 64 {
                0u64
            } else {
                (((w >> 7) << ((shift + 7) as u64)) as u64)
            }) == acc | ((w << (shift as u64)) as u64)) by (bit_vector);
        }
    }
}

/// Round trip at the varint level: the canonical encoding of a 32-bit value
/// decodes back to that value, leaving any appended suffix untouched.
pub proof fn lemma_varuint32_round_trip(v: u32, rest: Seq<u8>)
    ensures
        vdec32(varuint_enc(v as u64) + rest) == Some((v, rest)),
{
    lemma_vdec32_of_enc(v as u64, 0, 0, rest);
    assert(0u32 | (((v as u64) << 0u64) as u32) == v) by (bit_vector);
}

/// Round trip at the varint level for 64-bit values.
pub proof fn lemma_varuint64_round_trip(v: u64, rest: Seq<u8>)
    ensures
        vdec64(varuint_enc(v) + rest) == Some((v, rest)),
{
    lemma_vdec64_of_enc(v, 0, 0, rest);
    assert(0u64 | ((v << 0u64) as u64) == v) by (bit_vector);
}

/// Small tags make one-byte field headers, and the header value is the tag
/// in the high bits beside the wire-type code.
pub proof fn lemma_field_header_val(tag: u32, wt: WireType)
    requires
        tag < 16,
    ensures
        field_header(tag, wt) == tag * 8 + wire_num(wt),
        field_header(tag, wt) < 0x80,
{
    let wn = wire_num(wt);
    assert(wn == 0 || wn == 2);
    assert(tag < 16 && (wn == 0 || wn == 2) ==> ((tag << 3) | wn) < 0x80 && ((tag << 3) | wn)
        == tag * 8 + wn) by (bit_vector);
}

/// Decoding one field consumes at least one byte.
pub proof fn lemma_field_dec_consumes(data: Seq<u8>)
    ensures
        field_dec(data) matches Some((fv, rest)) ==> rest.len() < data.len(),
{
    if field_dec(data) is Some {
        lemma_vdec32_structure(data, 0, 0);
        lemma_varint_len_bounds(data);
        let (header, rest1) = vdec32(data).unwrap();
        if header & 7 == 0 {
            lemma_varint_len_bounds(rest1);
        } else {
            lemma_vdec32_structure(rest1, 0, 0);
            lemma_varint_len_bounds(rest1);
        }
    }
}

/// Decoding a field is unaffected by bytes appended behind it: same field
/// view, and the remainder gains the suffix.
pub proof fn lemma_field_dec_append(data: Seq<u8>, extra: Seq<u8>)
    requires
        field_dec(data) is Some,
    ensures
        field_dec(data + extra) matches Some((fv2, rest2)) && (field_dec(data) matches Some(
            (fv, rest),
        ) ==> fv2 == fv && rest2 == rest + extra),
{
    lemma_vdec32_append(data, extra, 0, 0);
    let (header, rest1) = vdec32(data).unwrap();
    if header & 7 == 0 {
        lemma_varint_len_append(rest1, extra);
    } else {
        lemma_vdec32_append(rest1, extra, 0, 0);
        let (len, rest2) = vdec32(rest1).unwrap();
        lemma_vdec32_structure(rest1, 0, 0);
        assert((rest2 + extra).take(len as int) =~= rest2.take(len as int));
        assert((rest2 + extra).skip(len as int) =~= rest2.skip(len as int) + extra);
    }
}

/// Decoding the encoding of one field yields exactly that field back, with
/// any appended suffix untouched. A varint payload must be one complete
/// varint, and a length-delimited payload must fit its 32-bit length
/// prefix.
pub proof fn lemma_field_enc_dec(tag: u32, wt: WireType, payload: Seq<u8>, rest: Seq<u8>)
    requires
        1 <= tag <= max_tag(),
        wt == WireType::Varint ==> is_varint_bytes(payload),
        wt == WireType::LengthDelimited ==> payload.len() < 0x1_0000_0000,
    ensures
        field_dec(field_enc(tag, wt, payload) + rest) == Some(
            (FieldView { tag, wt, payload }, rest),
        ),
{
    let header = field_header(tag, wt);
    let wn = wire_num(wt);
    assert(wn == 0 || wn == 2);
    assert({
        &&& 1 <= tag <= 0x1fff_ffff && (wn == 0 || wn == 2) ==> ((tag << 3) | wn) >> 3 == tag
        &&& 1 <= tag <= 0x1fff_ffff && (wn == 0 || wn == 2) ==> ((tag << 3) | wn) & 7 == wn
        &&& (((tag << 3) | wn) as u64) == ((tag << 3) | wn) as u64
    }) by (bit_vector);
    match wt {
        WireType::Varint => {
            let data = field_enc(tag, wt, payload) + rest;
            assert(data =~= varuint_enc(header as u64) + (payload + rest));
            lemma_vdec32_of_enc(header as u64, 0, 0, payload + rest);
            assert(0u32 | (((header as u64) << 0u64) as u32) == header) by (bit_vector);
            lemma_varint_len_append(payload, rest);
            assert((payload + rest).take(payload.len() as int) =~= payload);
            assert((payload + rest).skip(payload.len() as int) =~= rest);
        },
        WireType::LengthDelimited => {
            let data = field_enc(tag, wt, payload) + rest;
            let lenenc = varuint_enc(payload.len() as u64);
            assert(data =~= varuint_enc(header as u64) + (lenenc + (payload + rest)));
            lemma_vdec32_of_enc(header as u64, 0, 0, lenenc + (payload + rest));
            assert(0u32 | (((header as u64) << 0u64) as u32) == header) by (bit_vector);
            lemma_varuint32_round_trip(payload.len() as u32, payload + rest);
            assert(varuint_enc((payload.len() as u32) as u64) == lenenc);
            assert((payload + rest).take(payload.len() as int) =~= payload);
            assert((payload + rest).skip(payload.len() as int) =~= rest);
        },
    }
}

/// Fold a message parse over a field stream: decode fields from the front
/// of `data`, feeding each to `step` (which updates the message value, or
/// fails). Stops successfully at the end of the buffer; fails on the first
/// malformed field or failing step.
pub open spec fn msg_fold<M>(init: M, data: Seq<u8>, step: spec_fn(M, FieldView) -> Option<M>) -> Option<
    (M, Seq<u8>),
>
    decreases data.len(),
{
    if data.len() == 0 {
        Some((init, data))
    } else {
        match field_dec(data) {
            None => None,
            Some((fv, rest)) => match step(init, fv) {
                None => None,
                Some(m2) => {
                    proof {
                        lemma_field_dec_consumes(data);
                    }
                    msg_fold(m2, rest, step)
                },
            },
        }
    }
}

/// Folding over concatenated buffers composes: a fold that consumes `d1`
/// completely continues through `d2` from where it left off.
pub proof fn lemma_msg_fold_concat<M>(
    init: M,
    d1: Seq<u8>,
    d2: Seq<u8>,
    step: spec_fn(M, FieldView) -> Option<M>,
)
    requires
        msg_fold(init, d1, step) matches Some((m1, rest)) && rest.len() == 0,
    ensures
        msg_fold(init, d1 + d2, step) == msg_fold(
            msg_fold(init, d1, step).unwrap().0,
            d2,
            step,
        ),
    decreases d1.len(),
{
    if d1.len() == 0 {
        assert(d1 + d2 =~= d2);
    } else {
        lemma_field_dec_append(d1, d2);
        lemma_field_dec_consumes(d1);
        let (fv, rest) = field_dec(d1).unwrap();
        let m2 = step(init, fv).unwrap();
        lemma_msg_fold_concat(m2, rest, d2, step);
        assert(rest + d2 == field_dec(d1 + d2).unwrap().1);
    }
}

/// A fold over one encoded field that the step leaves unchanged (an
/// unrecognized tag) returns the message untouched.
pub proof fn lemma_msg_fold_skips_unknown<M>(
    m: M,
    tag: u32,
    wt: WireType,
    payload: Seq<u8>,
    step: spec_fn(M, FieldView) -> Option<M>,
)
    requires
        1 <= tag <= max_tag(),
        wt == WireType::Varint ==> is_varint_bytes(payload),
        wt == WireType::LengthDelimited ==> payload.len() < 0x1_0000_0000,
        step(m, FieldView { tag, wt, payload }) == Some(m),
    ensures
        msg_fold(m, field_enc(tag, wt, payload), step) matches Some((m2, rest)) && m2 == m
            && rest.len() == 0,
{
    let enc = field_enc(tag, wt, payload);
    lemma_field_enc_dec(tag, wt, payload, Seq::<u8>::empty());
    assert(enc + Seq::<u8>::empty() =~= enc);
    lemma_varuint_enc_structure(field_header(tag, wt) as u64);
    assert(enc.len() > 0);
    assert(field_dec(enc) == Some((FieldView { tag, wt, payload }, Seq::<u8>::empty())));
    assert(msg_fold(m, Seq::<u8>::empty(), step) == Some((m, Seq::<u8>::empty())));
}

/// All ones below bit `shift`, everything when `shift` reaches the width.
pub open spec fn mask64(shift: u32) -> u64 {
    if shift >= 64 {
        0xffff_ffff_ffff_ffffu64
    } else {
        (((1u64 << (shift as u64)) - 1) as u64)
    }
}

/// The bit offset reached after decoding `k` more groups from offset
/// `shift`, capped at the 64-bit width.
pub open spec fn offset_after(shift: u32, k: int) -> u32 {
    if shift + 7 * k >= 64 {
        64u32
    } else {
        ((shift + 7 * k) as u32)
    }
}

/// A decoded value only carries bits below the offset reached at the
/// terminator: `k` groups of seven bits past the starting offset.
proof fn lemma_vdec64_value_bound(data: Seq<u8>, shift: u32, acc: u64)
    requires
        acc & !mask64(shift) == 0,
    ensures
        vdec64_rec(data, shift, acc) matches Some((v, rest)) ==> v & !mask64(
            offset_after(shift, varint_len(data).unwrap()),
        ) == 0,
    decreases data.len(),
{
    if data.len() == 0 {
        return ;
    }
    let b = data[0];
    let acc2 = vmerge64(acc, b, shift);
    lemma_vdec64_structure(data, shift, acc);
    assert(shift < 64 && (acc & !mask64(shift)) == 0 ==> ((acc | (((b & 0x7f) as u64) << (
    shift as u64))) & !(if shift + 7 >= 64 {
        0xffff_ffff_ffff_ffffu64
    } else {
        (((1u64 << ((shift + 7) as u64)) - 1) as u64)
    })) == 0) by (bit_vector);
    assert(forall|x: u64| #[trigger] (x & !0xffff_ffff_ffff_ffffu64) == 0) by (bit_vector);
    let shift2 = if shift < 64 {
        (shift + 7) as u32
    } else {
        shift
    };
    assert(acc2 & !mask64(shift2) == 0);
    if b & 0x80 == 0 {
        assert(mask64(shift2) == mask64(offset_after(shift, 1)));
    } else {
        lemma_vdec64_value_bound(data.skip(1), shift2, acc2);
        if vdec64_rec(data, shift, acc) is Some {
            let k1 = varint_len(data.skip(1)).unwrap();
            lemma_varint_len_bounds(data.skip(1));
            assert(mask64(offset_after(shift2, k1)) == mask64(offset_after(shift, k1 + 1)));
        }
    }
}

/// Canonicality: no varint, over-long or not, is shorter than the canonical
/// encoding of the value it decodes to. Together with
/// [`lemma_varuint_enc_structure`] (the canonical encoding never ends in a
/// redundant zero group) this pins the writer to minimum-length varints.
pub proof fn lemma_varuint_enc_minimal(data: Seq<u8>)
    requires
        vdec64(data) is Some,
    ensures
        vdec64(data) matches Some((v, rest)) ==> varuint_enc(v).len() <= data.len() - rest.len(),
{
    let (v, rest) = vdec64(data).unwrap();
    lemma_vdec64_structure(data, 0, 0);
    let k = varint_len(data).unwrap();
    lemma_varint_len_bounds(data);
    assert(0u64 & !mask64(0) == 0) by (bit_vector);
    lemma_vdec64_value_bound(data, 0, 0);
    lemma_varuint_enc_structure(v);
    if k < 10 {
        assert(v & !mask64(offset_after(0, k)) == 0);
        assert({
            &&& (v & !(((1u64 << 7u64) - 1) as u64)) == 0 ==> v < 0x80
            &&& (v & !(((1u64 << 14u64) - 1) as u64)) == 0 ==> v < 0x4000
            &&& (v & !(((1u64 << 21u64) - 1) as u64)) == 0 ==> v < 0x20_0000
            &&& (v & !(((1u64 << 28u64) - 1) as u64)) == 0 ==> v < 0x1000_0000
            &&& (v & !(((1u64 << 35u64) - 1) as u64)) == 0 ==> v < 0x8_0000_0000
            &&& (v & !(((1u64 << 42u64) - 1) as u64)) == 0 ==> v < 0x400_0000_0000
            &&& (v & !(((1u64 << 49u64) - 1) as u64)) == 0 ==> v < 0x2_0000_0000_0000
            &&& (v & !(((1u64 << 56u64) - 1) as u64)) == 0 ==> v < 0x100_0000_0000_0000
            &&& (v & !(((1u64 << 63u64) - 1) as u64)) == 0 ==> v < 0x8000_0000_0000_0000
        }) by (bit_vector);
    }
}

/// Zigzag round trip: decoding the encoding of any signed 32-bit value
/// yields the value back.
pub proof fn lemma_zigzag32_round_trip(n: i32)
    ensures
        unzigzag32(zigzag32(n)) == n,
{
    let u = zigzag32(n);
    assert({
        let u2 = ((n >> 31) ^ (n << 1)) as u32;
        ((u2 >> 1) as i32) ^ (if u2 & 1 == 1 {
            -1i32
        } else {
            0i32
        }) == n
    }) by (bit_vector);
}

/// Zigzag round trip for signed 64-bit values.
pub proof fn lemma_zigzag64_round_trip(n: i64)
    ensures
        unzigzag64(zigzag64(n)) == n,
{
    assert({
        let u2 = ((n >> 63) ^ (n << 1)) as u64;
        ((u2 >> 1) as i64) ^ (if u2 & 1 == 1 {
            -1i64
        } else {
            0i64
        }) == n
    }) by (bit_vector);
}

} // verus!
