//! The codec's cross-cutting guarantees, stated as proof functions.
//!
//! The per-type guarantees live on the [`Message`] trait itself: every
//! implementation proves `lemma_round_trip` (parsing a value's encoding
//! from the default yields the value back) and `lemma_enc_wf` (the encoding
//! respects the declared wire type). The lemmas here state what holds
//! across types and across fields: deterministic bytes, forward
//! compatibility with unknown fields, varint canonicality, and oneof
//! exclusivity.

use vstd::prelude::*;

use crate::sample::{Drawing, Shape};
use crate::wire::{
    field_enc, is_varint_bytes, lemma_msg_fold_concat, lemma_msg_fold_skips_unknown, max_tag,
    msg_fold, FieldView,
};
use crate::{Message, Oneof, WireType};

verus! {

/// Round trip at the API level: for every message type and every value
/// meeting its schema constraints, parsing the serialized bytes from the
/// default value yields the value back. `write` emits exactly
/// `M::enc_spec(m@)` and `read` follows `M::rd_spec` from the default, so
/// this is the composition of their contracts.
pub proof fn lemma_parse_of_serialize<M: Message>(m: &M)
    requires
        m.wf(),
    ensures
        M::rd_spec(M::default_spec(), M::enc_spec(m@)) == Some((m@, Seq::<u8>::empty())),
{
    m.lemma_round_trip();
}

/// Byte stability: serialization is a function of the value alone, so two
/// equal values produce byte-identical output — `write` emits exactly
/// `enc_spec` of the value's view, and nothing else.
pub proof fn lemma_byte_stability<M: Message>(a: &M, b: &M)
    requires
        a@ == b@,
    ensures
        M::enc_spec(a@) == M::enc_spec(b@),
{
}

/// Forward compatibility: appending one field whose tag the message does
/// not recognize (its dispatch step leaves every value unchanged on that
/// field) parses successfully and leaves the parsed value untouched.
pub proof fn lemma_forward_compat<M>(
    init: M,
    data: Seq<u8>,
    step: spec_fn(M, FieldView) -> Option<M>,
    tag: u32,
    wt: WireType,
    payload: Seq<u8>,
)
    requires
        msg_fold(init, data, step) matches Some((m, rest)) && rest.len() == 0,
        1 <= tag <= max_tag(),
        wt == WireType::Varint ==> is_varint_bytes(payload),
        wt == WireType::LengthDelimited ==> payload.len() < 0x1_0000_0000,
        forall|m2: M| #[trigger] step(m2, FieldView { tag, wt, payload }) == Some(m2),
    ensures
        msg_fold(init, data + field_enc(tag, wt, payload), step) matches Some((m2, rest2))
            && (msg_fold(init, data, step) matches Some((m, rest)) ==> m2 == m) && rest2.len()
            == 0,
{
    let (m, rest) = msg_fold(init, data, step).unwrap();
    lemma_msg_fold_concat(init, data, field_enc(tag, wt, payload), step);
    lemma_msg_fold_skips_unknown(m, tag, wt, payload, step);
}

/// Forward compatibility at a concrete message type: a [`Counter`] encoding
/// followed by a field with any unrecognized tag still parses to the same
/// counter.
///
/// [`Counter`]: crate::sample::Counter
pub proof fn lemma_counter_forward_compat(
    c: crate::sample::Counter,
    tag: u32,
    wt: WireType,
    payload: Seq<u8>,
)
    requires
        c.wf(),
        tag != 1,
        1 <= tag <= max_tag(),
        wt == WireType::Varint ==> is_varint_bytes(payload),
        wt == WireType::LengthDelimited ==> payload.len() < 0x1_0000_0000,
    ensures
        crate::sample::Counter::rd_spec(
            crate::sample::Counter::default_spec(),
            crate::sample::Counter::enc_spec(c) + field_enc(tag, wt, payload),
        ) matches Some((m, rest)) && m == c && rest.len() == 0,
{
    c.lemma_round_trip();
    assert(forall|m2: crate::sample::Counter| #[trigger] crate::sample::Counter::step_spec()(
        m2,
        FieldView { tag, wt, payload },
    ) == Some(m2));
    lemma_forward_compat(
        crate::sample::Counter::default_spec(),
        crate::sample::Counter::enc_spec(c),
        crate::sample::Counter::step_spec(),
        tag,
        wt,
        payload,
    );
}

/// Oneof exclusivity, write side: a oneof writes exactly one tag-prefixed
/// field, the one of its active variant.
pub proof fn lemma_shape_one_field(s: Shape)
    ensures
        exists|t: u32, p: Seq<u8>|
            #[trigger] field_enc(t, WireType::Varint, p) == <Shape as Oneof>::enc_spec(s) && (t
                == 5 || t == 6),
{
    match s {
        Shape::Circle(x) => {
            assert(field_enc(5, WireType::Varint, <u32 as Message>::enc_spec(x)) == <Shape as Oneof>::enc_spec(s));
        },
        Shape::Square(x) => {
            assert(field_enc(6, WireType::Varint, <u64 as Message>::enc_spec(x)) == <Shape as Oneof>::enc_spec(s));
        },
    }
}

/// Oneof exclusivity, read side: when two fields of the same oneof arrive,
/// the last-seen tag wins.
pub proof fn lemma_drawing_last_wins(s1: Shape, s2: Shape)
    ensures
        Drawing::rd_spec(
            Drawing::default_spec(),
            <Shape as Oneof>::enc_spec(s1) + <Shape as Oneof>::enc_spec(s2),
        ) == Some((Drawing { shape: Some(s2) }, Seq::<u8>::empty())),
{
    let e1 = <Shape as Oneof>::enc_spec(s1);
    let e2 = <Shape as Oneof>::enc_spec(s2);
    assert(<Option<Shape> as Oneof>::enc_spec(Some(s1)) == e1);
    assert(<Option<Shape> as Oneof>::enc_spec(Some(s2)) == e2);
    crate::sample::lemma_drawing_parse_one(Drawing::default_spec(), Some(s1));
    lemma_msg_fold_concat(Drawing::default_spec(), e1, e2, Drawing::step_spec());
    crate::sample::lemma_drawing_parse_one(Drawing { shape: Some(s1) }, Some(s2));
}

/// Varint canonicality: the writer's encoding is minimal. Re-stated here
/// over the wire model: any varint byte string, over-long or not, that
/// decodes to a value is at least as long as the canonical encoding of that
/// value, and the canonical encoding never pads with a redundant zero
/// group.
pub proof fn lemma_varint_canonical(data: Seq<u8>)
    requires
        crate::wire::vdec64(data) is Some,
    ensures
        crate::wire::vdec64(data) matches Some((v, rest)) ==> {
            &&& crate::wire::varuint_enc(v).len() <= data.len() - rest.len()
            &&& (crate::wire::varuint_enc(v).len() > 1 ==> crate::wire::varuint_enc(v).last()
                != 0)
        },
{
    crate::wire::lemma_varuint_enc_minimal(data);
    let (v, rest) = crate::wire::vdec64(data).unwrap();
    crate::wire::lemma_varuint_enc_structure(v);
}

} // verus!
