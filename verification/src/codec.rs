//! The buffer codec: the binary wire format that the generated Kotlin code
//! and the native side share, modelled and verified over abstract values.
//!
//! The wire format is:
//! - scalars: fixed-width big-endian (1 byte for booleans, 4 bytes for
//!   32-bit values, 8 bytes for 64-bit values, IEEE-754 bit layouts for
//!   floating point, carried here as their bit patterns);
//! - enums: the 1-based ordinal of the value, as a 4-byte big-endian
//!   integer;
//! - `Optional`: one presence byte (0 = absent, otherwise present) followed
//!   by the encoding of the inner value iff present, mirrored exactly at
//!   every nesting level;
//! - records: the concatenation of the field encodings in declared order,
//!   with no padding and no tags — field boundaries are reconstructed from
//!   the schema, which both sides share.
//!
//! The size of an encoding is computable from the value alone, before any
//! buffer is allocated, and decoding rebuilds exactly the encoded value.

use vstd::prelude::*;
use crate::errors::CodecError;
use crate::interface::{
    ComponentInterface, EnumDefinition, FieldDefinition, TypeReference, enum_index, fields_depth,
    fields_reach, lookup_enum, lookup_record, record_reach, type_depth, wf_interface,
};

verus! {

// ---------------------------------------------------------------------------
// Big-endian byte layout of 32-bit and 64-bit scalars.
// ---------------------------------------------------------------------------

/// The 4 bytes of a 32-bit value, most significant first.
pub open spec fn be32(x: u32) -> Seq<u8> {
    seq![
        ((x >> 24) & 0xff) as u8,
        ((x >> 16) & 0xff) as u8,
        ((x >> 8) & 0xff) as u8,
        (x & 0xff) as u8,
    ]
}

/// The 32-bit value read from 4 bytes, most significant first.
pub open spec fn from_be32(s: Seq<u8>) -> u32
    recommends
        s.len() == 4,
{
    (s[0] as u32) << 24 | (s[1] as u32) << 16 | (s[2] as u32) << 8 | (s[3] as u32)
}

/// The 8 bytes of a 64-bit value, most significant first.
pub open spec fn be64(x: u64) -> Seq<u8> {
    seq![
        ((x >> 56) & 0xff) as u8,
        ((x >> 48) & 0xff) as u8,
        ((x >> 40) & 0xff) as u8,
        ((x >> 32) & 0xff) as u8,
        ((x >> 24) & 0xff) as u8,
        ((x >> 16) & 0xff) as u8,
        ((x >> 8) & 0xff) as u8,
        (x & 0xff) as u8,
    ]
}

/// The 64-bit value read from 8 bytes, most significant first.
pub open spec fn from_be64(s: Seq<u8>) -> u64
    recommends
        s.len() == 8,
{
    (s[0] as u64) << 56 | (s[1] as u64) << 48 | (s[2] as u64) << 40 | (s[3] as u64) << 32 | (
    s[4] as u64) << 24 | (s[5] as u64) << 16 | (s[6] as u64) << 8 | (s[7] as u64)
}

/// Reading back the 4 bytes of a 32-bit value yields the value.
pub proof fn lemma_be32_roundtrip(x: u32)
    ensures
        be32(x).len() == 4,
        from_be32(be32(x)) == x,
{
    let s = be32(x);
    assert((((((x >> 24) & 0xff) as u8) as u32) << 24 | ((((x >> 16) & 0xff) as u8) as u32) << 16
        | ((((x >> 8) & 0xff) as u8) as u32) << 8 | (((x & 0xff) as u8) as u32)) == x)
        by (bit_vector);
}

/// Reading back the 8 bytes of a 64-bit value yields the value.
pub proof fn lemma_be64_roundtrip(x: u64)
    ensures
        be64(x).len() == 8,
        from_be64(be64(x)) == x,
{
    let s = be64(x);
    assert((((((x >> 56) & 0xff) as u8) as u64) << 56 | ((((x >> 48) & 0xff) as u8) as u64) << 48
        | ((((x >> 40) & 0xff) as u8) as u64) << 40 | ((((x >> 32) & 0xff) as u8) as u64) << 32 | (
    (((x >> 24) & 0xff) as u8) as u64) << 24 | ((((x >> 16) & 0xff) as u8) as u64) << 16 | ((((x
        >> 8) & 0xff) as u8) as u64) << 8 | (((x & 0xff) as u8) as u64)) == x) by (bit_vector);
}

// ---------------------------------------------------------------------------
// Values crossing the buffer protocol, and their abstract model.
// ---------------------------------------------------------------------------

/// A host value that can cross the foreign-function boundary through a
/// buffer. Floating-point values are carried as their IEEE-754 bit
/// patterns, an enum value as the 0-based position of its name within the
/// enum's declared value sequence, a record as its field values in declared
/// order, and an optional as either `Absent` or `Present` around the inner
/// value.
#[derive(Debug, PartialEq, Eq)]
pub enum Value {
    Boolean(bool),
    U32(u32),
    U64(u64),
    Float(u32),
    Double(u64),
    Enum(u32),
    Record(Vec<Value>),
    Absent,
    Present(Box<Value>),
}

/// The abstract model of a `Value`: the same shape with mathematical
/// sequences for record fields.
pub enum ValueModel {
    Boolean(bool),
    U32(u32),
    U64(u64),
    Float(u32),
    Double(u64),
    Enum(u32),
    Record(Seq<ValueModel>),
    Absent,
    Present(Box<ValueModel>),
}

/// The abstract model of a value.
pub open spec fn value_model(v: Value) -> ValueModel
    decreases v, 0nat,
{
    match v {
        Value::Boolean(b) => ValueModel::Boolean(b),
        Value::U32(n) => ValueModel::U32(n),
        Value::U64(n) => ValueModel::U64(n),
        Value::Float(bits) => ValueModel::Float(bits),
        Value::Double(bits) => ValueModel::Double(bits),
        Value::Enum(m) => ValueModel::Enum(m),
        Value::Record(vs) => ValueModel::Record(seq_view(vs@)),
        Value::Absent => ValueModel::Absent,
        Value::Present(inner) => ValueModel::Present(Box::new(value_model(*inner))),
    }
}

/// The abstract models of a sequence of values, element by element.
pub open spec fn seq_view(vs: Seq<Value>) -> Seq<ValueModel>
    decreases vs, 1nat,
{
    Seq::new(
        vs.len(),
        |i: int|
            if 0 <= i < vs.len() {
                value_model(vs[i])
            } else {
                ValueModel::Absent
            },
    )
}

impl View for Value {
    type V = ValueModel;

    open spec fn view(&self) -> ValueModel {
        value_model(*self)
    }
}

// ---------------------------------------------------------------------------
// Conformance of a value to a schema type.
// ---------------------------------------------------------------------------

/// Whether each value of `vs` conforms to the type of the field at the same
/// position.
pub open spec fn conforms_fields(
    ci: ComponentInterface,
    fields: Seq<FieldDefinition>,
    vs: Seq<ValueModel>,
) -> bool
    decreases vs, 1nat,
{
    &&& vs.len() == fields.len()
    &&& forall|i: int| 0 <= i < vs.len() ==> conforms(ci, fields[i].type_, #[trigger] vs[i])
}

/// Whether the value `v` is a valid value of the schema type `t` under the
/// interface model `ci`. Only such values have a buffer encoding: `String`,
/// `Bytes` and `Object` types have none, an enum value must lie inside the
/// declared range, and a record value must carry one conforming value per
/// declared field.
pub open spec fn conforms(ci: ComponentInterface, t: TypeReference, v: ValueModel) -> bool
    decreases v, 0nat,
{
    match t {
        TypeReference::Boolean => v is Boolean,
        TypeReference::U32 => v is U32,
        TypeReference::U64 => v is U64,
        TypeReference::Float => v is Float,
        TypeReference::Double => v is Double,
        TypeReference::Enum(name) => match lookup_enum(ci, name@) {
            Some(e) => v matches ValueModel::Enum(m) && (m as int) < e.values@.len(),
            None => false,
        },
        TypeReference::Record(name) => match lookup_record(ci, name@) {
            Some(rec) => v matches ValueModel::Record(vs) && conforms_fields(
                ci,
                rec.fields@,
                vs,
            ),
            None => false,
        },
        TypeReference::Optional(inner) => match v {
            ValueModel::Absent => true,
            ValueModel::Present(b) => conforms(ci, *inner, *b),
            _ => false,
        },
        _ => false,
    }
}

// ---------------------------------------------------------------------------
// Size of an encoding, computable from the value alone.
// ---------------------------------------------------------------------------

/// The sum of the encoded sizes of a sequence of values.
pub open spec fn sizes_of(vs: Seq<ValueModel>) -> nat
    decreases vs,
{
    if vs.len() == 0 {
        0
    } else {
        size_of(vs[0]) + sizes_of(vs.drop_first())
    }
}

/// The number of bytes the encoding of `v` occupies: a pure function of the
/// value, so that exactly one allocation of exactly this size can be issued
/// before encoding begins.
pub open spec fn size_of(v: ValueModel) -> nat
    decreases v,
{
    match v {
        ValueModel::Boolean(_) => 1,
        ValueModel::U32(_) => 4,
        ValueModel::U64(_) => 8,
        ValueModel::Float(_) => 4,
        ValueModel::Double(_) => 8,
        ValueModel::Enum(_) => 4,
        ValueModel::Record(vs) => sizes_of(vs),
        ValueModel::Absent => 1,
        ValueModel::Present(b) => 1 + size_of(*b),
    }
}

// ---------------------------------------------------------------------------
// The encoding itself.
// ---------------------------------------------------------------------------

/// The concatenation of the encodings of `vs` against the types of
/// `fields`, in order. Meaningful under `conforms_fields`.
pub open spec fn fields_encoding(
    ci: ComponentInterface,
    fields: Seq<FieldDefinition>,
    vs: Seq<ValueModel>,
) -> Seq<u8>
    decreases vs,
{
    if vs.len() == 0 || fields.len() == 0 {
        Seq::empty()
    } else {
        encoding(ci, fields[0].type_, vs[0]) + fields_encoding(
            ci,
            fields.drop_first(),
            vs.drop_first(),
        )
    }
}

/// The wire encoding of the value `v` at the schema type `t`. Meaningful
/// under `conforms(ci, t, v)`.
pub open spec fn encoding(ci: ComponentInterface, t: TypeReference, v: ValueModel) -> Seq<u8>
    decreases v,
{
    match t {
        TypeReference::Boolean => match v {
            ValueModel::Boolean(b) => seq![if b { 1u8 } else { 0u8 }],
            _ => Seq::empty(),
        },
        TypeReference::U32 => match v {
            ValueModel::U32(n) => be32(n),
            _ => Seq::empty(),
        },
        TypeReference::U64 => match v {
            ValueModel::U64(n) => be64(n),
            _ => Seq::empty(),
        },
        TypeReference::Float => match v {
            ValueModel::Float(bits) => be32(bits),
            _ => Seq::empty(),
        },
        TypeReference::Double => match v {
            ValueModel::Double(bits) => be64(bits),
            _ => Seq::empty(),
        },
        TypeReference::Enum(_) => match v {
            ValueModel::Enum(m) => be32((m as int + 1) as u32),
            _ => Seq::empty(),
        },
        TypeReference::Record(name) => match lookup_record(ci, name@) {
            Some(rec) => match v {
                ValueModel::Record(vs) => fields_encoding(ci, rec.fields@, vs),
                _ => Seq::empty(),
            },
            None => Seq::empty(),
        },
        TypeReference::Optional(inner) => match v {
            ValueModel::Absent => seq![0u8],
            ValueModel::Present(b) => seq![1u8] + encoding(ci, *inner, *b),
            _ => Seq::empty(),
        },
        _ => Seq::empty(),
    }
}

// ---------------------------------------------------------------------------
// Decoding: the exact mirror of the encoding, driven by the schema.
// ---------------------------------------------------------------------------

/// Decodes the values of `fields` one after the other from `b`, starting at
/// `pos`; yields the values and the position after the last one. `None` is
/// a malformed buffer.
pub open spec fn decode_fields(
    ci: ComponentInterface,
    fields: Seq<FieldDefinition>,
    b: Seq<u8>,
    pos: int,
) -> Option<(Seq<ValueModel>, int)>
    decreases fields_reach(ci, fields), fields_depth(ci, fields) + 1nat, fields.len(),
        when wf_interface(ci)
{
    if fields.len() == 0 {
        Some((Seq::empty(), pos))
    } else {
        match decode(ci, fields[0].type_, b, pos) {
            Some((v0, p1)) => match decode_fields(ci, fields.drop_first(), b, p1) {
                Some((vrest, p2)) => Some((seq![v0] + vrest, p2)),
                None => None,
            },
            None => None,
        }
    }
}

/// Decodes one value of the schema type `t` from `b`, starting at `pos`;
/// yields the value and the position after it. `None` is a malformed
/// buffer: too few bytes, an enum ordinal outside the declared 1-based
/// range, or a name that does not resolve.
pub open spec fn decode(ci: ComponentInterface, t: TypeReference, b: Seq<u8>, pos: int) -> Option<
    (ValueModel, int),
>
    decreases record_reach(ci, t), type_depth(t), 0nat,
        when wf_interface(ci)
{
    match t {
        TypeReference::Boolean => if pos + 1 <= b.len() {
            Some((ValueModel::Boolean(b[pos] != 0), pos + 1))
        } else {
            None
        },
        TypeReference::U32 => if pos + 4 <= b.len() {
            Some((ValueModel::U32(from_be32(b.subrange(pos, pos + 4))), pos + 4))
        } else {
            None
        },
        TypeReference::U64 => if pos + 8 <= b.len() {
            Some((ValueModel::U64(from_be64(b.subrange(pos, pos + 8))), pos + 8))
        } else {
            None
        },
        TypeReference::Float => if pos + 4 <= b.len() {
            Some((ValueModel::Float(from_be32(b.subrange(pos, pos + 4))), pos + 4))
        } else {
            None
        },
        TypeReference::Double => if pos + 8 <= b.len() {
            Some((ValueModel::Double(from_be64(b.subrange(pos, pos + 8))), pos + 8))
        } else {
            None
        },
        TypeReference::Enum(name) => match lookup_enum(ci, name@) {
            Some(e) => if pos + 4 <= b.len() {
                let w = from_be32(b.subrange(pos, pos + 4));
                if 1 <= w && w as int <= e.values@.len() {
                    Some((ValueModel::Enum((w - 1) as u32), pos + 4))
                } else {
                    None
                }
            } else {
                None
            },
            None => None,
        },
        TypeReference::Record(name) => match lookup_record(ci, name@) {
            Some(rec) => match decode_fields(ci, rec.fields@, b, pos) {
                Some((vs, p)) => Some((ValueModel::Record(vs), p)),
                None => None,
            },
            None => None,
        },
        TypeReference::Optional(inner) => if pos + 1 <= b.len() {
            if b[pos] == 0 {
                Some((ValueModel::Absent, pos + 1))
            } else {
                match decode(ci, *inner, b, pos + 1) {
                    Some((v, p)) => Some((ValueModel::Present(Box::new(v)), p)),
                    None => None,
                }
            }
        } else {
            None
        },
        _ => None,
    }
}

// ---------------------------------------------------------------------------
// The laws of the codec.
// ---------------------------------------------------------------------------

/// Conformance of a field-value sequence passes to its head and its tail.
proof fn lemma_conforms_fields_rest(
    ci: ComponentInterface,
    fields: Seq<FieldDefinition>,
    vs: Seq<ValueModel>,
)
    requires
        conforms_fields(ci, fields, vs),
        vs.len() > 0,
    ensures
        conforms(ci, fields[0].type_, vs[0]),
        conforms_fields(ci, fields.drop_first(), vs.drop_first()),
{
    assert forall|i: int| 0 <= i < vs.drop_first().len() implies conforms(
        ci,
        fields.drop_first()[i].type_,
        #[trigger] vs.drop_first()[i],
    ) by {
        assert(vs.drop_first()[i] == vs[i + 1]);
        assert(fields.drop_first()[i] == fields[i + 1]);
        assert(conforms(ci, fields[i + 1].type_, vs[i + 1]));
    }
}

/// The size computed from a conforming field-value sequence equals the
/// length of its encoding.
pub proof fn lemma_fields_encoding_size(
    ci: ComponentInterface,
    fields: Seq<FieldDefinition>,
    vs: Seq<ValueModel>,
)
    requires
        wf_interface(ci),
        conforms_fields(ci, fields, vs),
    ensures
        fields_encoding(ci, fields, vs).len() == sizes_of(vs),
    decreases vs, 1nat,
{
    if vs.len() > 0 {
        lemma_conforms_fields_rest(ci, fields, vs);
        lemma_encoding_size(ci, fields[0].type_, vs[0]);
        lemma_fields_encoding_size(ci, fields.drop_first(), vs.drop_first());
    }
}

/// Size/encode consistency: the size computed from a conforming value
/// before allocation equals the exact number of bytes its encoding
/// occupies.
pub proof fn lemma_encoding_size(ci: ComponentInterface, t: TypeReference, v: ValueModel)
    requires
        wf_interface(ci),
        conforms(ci, t, v),
    ensures
        encoding(ci, t, v).len() == size_of(v),
    decreases v, 0nat,
{
    match t {
        TypeReference::Record(name) => match lookup_record(ci, name@) {
            Some(rec) => match v {
                ValueModel::Record(vs) => {
                    lemma_fields_encoding_size(ci, rec.fields@, vs);
                },
                _ => {},
            },
            None => {},
        },
        TypeReference::Optional(inner) => match v {
            ValueModel::Present(b) => {
                lemma_encoding_size(ci, *inner, *b);
            },
            _ => {},
        },
        _ => {},
    }
}

/// Decoding a conforming field-value sequence out of its encoding, wherever
/// it stands in a larger buffer, yields the sequence back and stops exactly
/// after it.
pub proof fn lemma_decode_fields_encoding(
    ci: ComponentInterface,
    fields: Seq<FieldDefinition>,
    vs: Seq<ValueModel>,
    pre: Seq<u8>,
    post: Seq<u8>,
)
    requires
        wf_interface(ci),
        conforms_fields(ci, fields, vs),
    ensures
        decode_fields(ci, fields, pre + fields_encoding(ci, fields, vs) + post, pre.len() as int)
            == Some((vs, pre.len() + fields_encoding(ci, fields, vs).len() as int)),
    decreases vs, 1nat,
{
    let enc = fields_encoding(ci, fields, vs);
    let b = pre + enc + post;
    if vs.len() == 0 {
        assert(vs =~= Seq::<ValueModel>::empty());
        assert(enc =~= Seq::<u8>::empty());
    } else {
        let t0 = fields[0].type_;
        let v0 = vs[0];
        let e0 = encoding(ci, t0, v0);
        let rest = fields.drop_first();
        let vrest = vs.drop_first();
        let erest = fields_encoding(ci, rest, vrest);
        assert(enc == e0 + erest);
        lemma_conforms_fields_rest(ci, fields, vs);
        assert(b =~= pre + e0 + (erest + post));
        lemma_decode_encoding(ci, t0, v0, pre, erest + post);
        assert(decode(ci, t0, b, pre.len() as int) == Some(
            (v0, pre.len() + e0.len() as int),
        ));
        assert(b =~= (pre + e0) + erest + post);
        lemma_decode_fields_encoding(ci, rest, vrest, pre + e0, post);
        assert(decode_fields(ci, rest, b, (pre + e0).len() as int) == Some(
            (vrest, (pre + e0).len() + erest.len() as int),
        ));
        assert((pre + e0).len() == pre.len() + e0.len());
        assert(seq![v0] + vrest =~= vs);
        assert(enc.len() == e0.len() + erest.len());
    }
}

/// Round-trip: decoding the encoding of a conforming value, wherever it
/// stands in a larger buffer, yields the value back and stops exactly after
/// its last byte.
pub proof fn lemma_decode_encoding(
    ci: ComponentInterface,
    t: TypeReference,
    v: ValueModel,
    pre: Seq<u8>,
    post: Seq<u8>,
)
    requires
        wf_interface(ci),
        conforms(ci, t, v),
    ensures
        decode(ci, t, pre + encoding(ci, t, v) + post, pre.len() as int) == Some(
            (v, pre.len() + encoding(ci, t, v).len() as int),
        ),
    decreases v, 0nat,
{
    let enc = encoding(ci, t, v);
    let b = pre + enc + post;
    let pos = pre.len() as int;
    assert(forall|i: int| 0 <= i < enc.len() ==> b[pos + i] == enc[i]);
    match t {
        TypeReference::Boolean => {
            assert(b[pos] == enc[0]);
        },
        TypeReference::U32 => match v {
            ValueModel::U32(n) => {
                lemma_be32_roundtrip(n);
                assert(b.subrange(pos, pos + 4) =~= enc);
            },
            _ => {},
        },
        TypeReference::U64 => match v {
            ValueModel::U64(n) => {
                lemma_be64_roundtrip(n);
                assert(b.subrange(pos, pos + 8) =~= enc);
            },
            _ => {},
        },
        TypeReference::Float => match v {
            ValueModel::Float(bits) => {
                lemma_be32_roundtrip(bits);
                assert(b.subrange(pos, pos + 4) =~= enc);
            },
            _ => {},
        },
        TypeReference::Double => match v {
            ValueModel::Double(bits) => {
                lemma_be64_roundtrip(bits);
                assert(b.subrange(pos, pos + 8) =~= enc);
            },
            _ => {},
        },
        TypeReference::Enum(name) => match (lookup_enum(ci, name@), v) {
            (Some(e), ValueModel::Enum(m)) => {
                assert(e == ci.enums@[enum_index(ci, name@)]);
                assert(e.values@.len() <= u32::MAX);
                let w = (m as int + 1) as u32;
                lemma_be32_roundtrip(w);
                assert(b.subrange(pos, pos + 4) =~= enc);
                assert(w as int == m as int + 1);
            },
            _ => {},
        },
        TypeReference::Record(name) => match (lookup_record(ci, name@), v) {
            (Some(rec), ValueModel::Record(vs)) => {
                lemma_decode_fields_encoding(ci, rec.fields@, vs, pre, post);
            },
            _ => {},
        },
        TypeReference::Optional(inner) => match v {
            ValueModel::Absent => {
                assert(b[pos] == 0);
            },
            ValueModel::Present(bx) => {
                let einner = encoding(ci, *inner, *bx);
                assert(b[pos] == 1);
                assert(b =~= (pre + seq![1u8]) + einner + post);
                lemma_decode_encoding(ci, *inner, *bx, pre + seq![1u8], post);
                assert(decode(ci, *inner, b, pre.len() + 1int) == Some(
                    (*bx, pre.len() + 1 + einner.len() as int),
                ));
            },
            _ => {},
        },
        _ => {},
    }
}

/// Round-trip at the buffer level: a conforming value, encoded and then
/// decoded against the same schema, comes back unchanged, and its encoding
/// is consumed whole.
pub proof fn lemma_codec_roundtrip(ci: ComponentInterface, t: TypeReference, v: ValueModel)
    requires
        wf_interface(ci),
        conforms(ci, t, v),
    ensures
        decode(ci, t, encoding(ci, t, v), 0) == Some((v, encoding(ci, t, v).len() as int)),
{
    let enc = encoding(ci, t, v);
    lemma_decode_encoding(ci, t, v, Seq::empty(), Seq::empty());
    assert(Seq::<u8>::empty() + enc + Seq::<u8>::empty() =~= enc);
}

/// A record value's model is its field models.
proof fn lemma_record_view(vs: Vec<Value>)
    ensures
        Value::Record(vs)@ == ValueModel::Record(seq_view(vs@)),
{
    assert(value_model(Value::Record(vs)) == ValueModel::Record(seq_view(vs@)));
}

// ---------------------------------------------------------------------------
// Executable byte layout helpers.
// ---------------------------------------------------------------------------

/// Appends the 4 big-endian bytes of `x` to `out`.
fn push_be32(out: &mut Vec<u8>, x: u32)
    ensures
        final(out)@ == old(out)@ + be32(x),
{
    out.push(((x >> 24) & 0xff) as u8);
    out.push(((x >> 16) & 0xff) as u8);
    out.push(((x >> 8) & 0xff) as u8);
    out.push((x & 0xff) as u8);
    proof {
        assert(out@ =~= old(out)@ + be32(x));
    }
}

/// Appends the 8 big-endian bytes of `x` to `out`.
fn push_be64(out: &mut Vec<u8>, x: u64)
    ensures
        final(out)@ == old(out)@ + be64(x),
{
    out.push(((x >> 56) & 0xff) as u8);
    out.push(((x >> 48) & 0xff) as u8);
    out.push(((x >> 40) & 0xff) as u8);
    out.push(((x >> 32) & 0xff) as u8);
    out.push(((x >> 24) & 0xff) as u8);
    out.push(((x >> 16) & 0xff) as u8);
    out.push(((x >> 8) & 0xff) as u8);
    out.push((x & 0xff) as u8);
    proof {
        assert(out@ =~= old(out)@ + be64(x));
    }
}

/// Reads the 4 big-endian bytes starting at `pos`.
fn read_be32(b: &Vec<u8>, pos: usize) -> (x: u32)
    requires
        pos + 4 <= b@.len(),
    ensures
        x == from_be32(b@.subrange(pos as int, pos as int + 4)),
{
    let n = b.len();
    proof {
        assert(pos + 4 <= n);
    }
    let x = ((b[pos] as u32) << 24) | ((b[pos + 1] as u32) << 16) | ((b[pos + 2] as u32) << 8) | (
    b[pos + 3] as u32);
    proof {
        let s = b@.subrange(pos as int, pos as int + 4);
        assert(s[0] == b@[pos as int] && s[1] == b@[pos as int + 1] && s[2] == b@[pos as int + 2]
            && s[3] == b@[pos as int + 3]);
    }
    x
}

/// Reads the 8 big-endian bytes starting at `pos`.
fn read_be64(b: &Vec<u8>, pos: usize) -> (x: u64)
    requires
        pos + 8 <= b@.len(),
    ensures
        x == from_be64(b@.subrange(pos as int, pos as int + 8)),
{
    let n = b.len();
    proof {
        assert(pos + 8 <= n);
    }
    let x = ((b[pos] as u64) << 56) | ((b[pos + 1] as u64) << 48) | ((b[pos + 2] as u64) << 40) | (
    (b[pos + 3] as u64) << 32) | ((b[pos + 4] as u64) << 24) | ((b[pos + 5] as u64) << 16) | ((b[pos
        + 6] as u64) << 8) | (b[pos + 7] as u64);
    proof {
        let s = b@.subrange(pos as int, pos as int + 8);
        assert(s[0] == b@[pos as int] && s[1] == b@[pos as int + 1] && s[2] == b@[pos as int + 2]
            && s[3] == b@[pos as int + 3] && s[4] == b@[pos as int + 4] && s[5] == b@[pos as int
            + 5] && s[6] == b@[pos as int + 6] && s[7] == b@[pos as int + 7]);
    }
    x
}

// ---------------------------------------------------------------------------
// Executable size computation.
// ---------------------------------------------------------------------------

/// The exact number of bytes the encoding of `v` will occupy, computed
/// before any buffer is allocated.
pub fn compute_size(v: &Value) -> (n: usize)
    requires
        size_of(v@) <= usize::MAX,
    ensures
        n == size_of(v@),
    decreases v, 0nat,
{
    match v {
        Value::Boolean(_) => 1,
        Value::U32(_) => 4,
        Value::U64(_) => 8,
        Value::Float(_) => 4,
        Value::Double(_) => 8,
        Value::Enum(_) => 4,
        Value::Record(vs) => {
            proof {
                lemma_record_view(*vs);
                assert(*v == Value::Record(*vs));
                assert(seq_view(vs@).skip(0) =~= seq_view(vs@));
                assert(decreases_to!(*v => v->Record_0));
                assert(decreases_to!(v->Record_0 => v->Record_0@));
                assert(v->Record_0@ == vs@);
                assert(vs@.skip(0) =~= vs@);
                assert(decreases_to!(*v => vs@.skip(0)));
            }
            compute_size_fields(vs, 0)
        },
        Value::Absent => 1,
        Value::Present(inner) => 1 + compute_size(&**inner),
    }
}

/// The sum of the encoded sizes of the values of `vs` from position `i`
/// on.
fn compute_size_fields(vs: &Vec<Value>, i: usize) -> (n: usize)
    requires
        i <= vs@.len(),
        sizes_of(seq_view(vs@).skip(i as int)) <= usize::MAX,
    ensures
        n == sizes_of(seq_view(vs@).skip(i as int)),
    decreases vs@.skip(i as int), 1nat,
{
    let ghost tail = seq_view(vs@).skip(i as int);
    if i == vs.len() {
        proof {
            assert(tail =~= Seq::<ValueModel>::empty());
        }
        0
    } else {
        proof {
            assert(tail[0] == vs@[i as int]@);
            assert(tail.drop_first() =~= seq_view(vs@).skip(i as int + 1));
            assert(vs@.skip(i as int)[0] == vs@[i as int]);
            assert(vs@.skip(i as int).drop_first() =~= vs@.skip(i as int + 1));
        }
        let first = compute_size(&vs[i]);
        let rest = compute_size_fields(vs, i + 1);
        first + rest
    }
}

// ---------------------------------------------------------------------------
// Executable encoding.
// ---------------------------------------------------------------------------

/// Encodes `v` at the schema type `t`, appending the encoding to `out`.
/// Succeeds exactly on conforming values; on a value that does not conform
/// to the schema it fails, possibly after a partial write.
pub fn encode_value(
    ci: &ComponentInterface,
    t: &TypeReference,
    v: &Value,
    out: &mut Vec<u8>,
) -> (r: Result<(), CodecError>)
    requires
        wf_interface(*ci),
    ensures
        match r {
            Ok(()) => conforms(*ci, *t, v@) && final(out)@ == old(out)@ + encoding(*ci, *t, v@),
            Err(e) => !conforms(*ci, *t, v@) && e == CodecError::Unencodable,
        },
    decreases v, 0nat,
{
    match t {
        TypeReference::Boolean => match v {
            Value::Boolean(b) => {
                out.push(if *b {
                    1u8
                } else {
                    0u8
                });
                proof {
                    assert(out@ =~= old(out)@ + encoding(*ci, *t, v@));
                }
                Ok(())
            },
            _ => Err(CodecError::Unencodable),
        },
        TypeReference::U32 => match v {
            Value::U32(n) => {
                push_be32(out, *n);
                Ok(())
            },
            _ => Err(CodecError::Unencodable),
        },
        TypeReference::U64 => match v {
            Value::U64(n) => {
                push_be64(out, *n);
                Ok(())
            },
            _ => Err(CodecError::Unencodable),
        },
        TypeReference::Float => match v {
            Value::Float(bits) => {
                push_be32(out, *bits);
                Ok(())
            },
            _ => Err(CodecError::Unencodable),
        },
        TypeReference::Double => match v {
            Value::Double(bits) => {
                push_be64(out, *bits);
                Ok(())
            },
            _ => Err(CodecError::Unencodable),
        },
        TypeReference::Enum(name) => match ci.find_enum(name) {
            Some(e) => match v {
                Value::Enum(m) => {
                    proof {
                        assert(e == ci.enums@[enum_index(*ci, name@)]);
                        assert(e.values@.len() <= u32::MAX);
                    }
                    if ((*m) as usize) < e.values.len() {
                        push_be32(out, *m + 1);
                        Ok(())
                    } else {
                        Err(CodecError::Unencodable)
                    }
                },
                _ => Err(CodecError::Unencodable),
            },
            None => Err(CodecError::Unencodable),
        },
        TypeReference::Record(name) => match ci.find_record(name) {
            Some(rec) => match v {
                Value::Record(vs) => {
                    proof {
                        lemma_record_view(*vs);
                        assert(decreases_to!(*v => v->Record_0));
                        assert(decreases_to!(v->Record_0 => v->Record_0@));
                        assert(v->Record_0@ == vs@);
                        assert(vs@.skip(0) =~= vs@);
                        assert(decreases_to!(*v => vs@.skip(0)));
                    }
                    if vs.len() == rec.fields.len() {
                        match encode_fields(ci, &rec.fields, vs, 0, out) {
                            Ok(()) => {
                                proof {
                                    assert(seq_view(vs@).skip(0) =~= seq_view(vs@));
                                    assert(rec.fields@.skip(0) =~= rec.fields@);
                                    assert(seq_view(vs@).len() == vs@.len());
                                    assert(conforms_fields(*ci, rec.fields@, seq_view(vs@)));
                                    assert(conforms(*ci, *t, v@));
                                }
                                Ok(())
                            },
                            Err(e) => {
                                proof {
                                    if conforms_fields(*ci, rec.fields@, seq_view(vs@)) {
                                        assert(forall|j: int|
                                            0 <= j < vs@.len() ==> conforms(
                                                *ci,
                                                rec.fields@[j].type_,
                                                #[trigger] seq_view(vs@)[j],
                                            ));
                                    }
                                    assert(!conforms(*ci, *t, v@));
                                }
                                Err(e)
                            },
                        }
                    } else {
                        proof {
                            assert(seq_view(vs@).len() == vs@.len());
                            assert(!conforms_fields(*ci, rec.fields@, seq_view(vs@)));
                            assert(!conforms(*ci, *t, v@));
                        }
                        Err(CodecError::Unencodable)
                    }
                },
                _ => Err(CodecError::Unencodable),
            },
            None => Err(CodecError::Unencodable),
        },
        TypeReference::Optional(inner) => match v {
            Value::Absent => {
                out.push(0u8);
                proof {
                    assert(out@ =~= old(out)@ + encoding(*ci, *t, v@));
                }
                Ok(())
            },
            Value::Present(bx) => {
                out.push(1u8);
                match encode_value(ci, &**inner, &**bx, out) {
                    Ok(()) => {
                        proof {
                            assert(out@ =~= old(out)@ + encoding(*ci, *t, v@));
                        }
                        Ok(())
                    },
                    Err(e) => Err(e),
                }
            },
            _ => Err(CodecError::Unencodable),
        },
        _ => Err(CodecError::Unencodable),
    }
}

/// Encodes the values of `vs` from position `i` on against the types of
/// `fields`, appending the encodings to `out`.
fn encode_fields(
    ci: &ComponentInterface,
    fields: &Vec<FieldDefinition>,
    vs: &Vec<Value>,
    i: usize,
    out: &mut Vec<u8>,
) -> (r: Result<(), CodecError>)
    requires
        wf_interface(*ci),
        vs@.len() == fields@.len(),
        i <= vs@.len(),
    ensures
        match r {
            Ok(()) => (forall|j: int|
                i <= j < vs@.len() ==> conforms(
                    *ci,
                    fields@[j].type_,
                    #[trigger] seq_view(vs@)[j],
                )) && final(out)@ == old(out)@ + fields_encoding(
                *ci,
                fields@.skip(i as int),
                seq_view(vs@).skip(i as int),
            ),
            Err(e) => !(forall|j: int|
                i <= j < vs@.len() ==> conforms(
                    *ci,
                    fields@[j].type_,
                    #[trigger] seq_view(vs@)[j],
                )) && e == CodecError::Unencodable,
        },
    decreases vs@.skip(i as int), 1nat,
{
    let ghost tailf = fields@.skip(i as int);
    let ghost tailv = seq_view(vs@).skip(i as int);
    if i == vs.len() {
        proof {
            assert(tailv =~= Seq::<ValueModel>::empty());
            assert(out@ =~= old(out)@ + fields_encoding(*ci, tailf, tailv));
        }
        Ok(())
    } else {
        proof {
            assert(vs@.skip(i as int)[0] == vs@[i as int]);
            assert(decreases_to!(vs@.skip(i as int) => vs@.skip(i as int)[0]));
            assert(vs@.skip(i as int).drop_first() =~= vs@.skip(i as int + 1));
            assert(decreases_to!(vs@.skip(i as int) => vs@.skip(i as int).drop_first()));
            assert(tailv[0] == vs@[i as int]@);
            assert(tailf[0] == fields@[i as int]);
            assert(tailv.drop_first() =~= seq_view(vs@).skip(i as int + 1));
            assert(tailf.drop_first() =~= fields@.skip(i as int + 1));
        }
        match encode_value(ci, &fields[i].type_, &vs[i], out) {
            Ok(()) => match encode_fields(ci, fields, vs, i + 1, out) {
                Ok(()) => {
                    proof {
                        assert(out@ =~= old(out)@ + fields_encoding(*ci, tailf, tailv));
                    }
                    Ok(())
                },
                Err(e) => Err(e),
            },
            Err(e) => {
                proof {
                    assert(seq_view(vs@)[i as int] == vs@[i as int]@);
                    assert(!conforms(*ci, fields@[i as int].type_, seq_view(vs@)[i as int]));
                }
                Err(e)
            },
        }
    }
}

// ---------------------------------------------------------------------------
// Executable decoding.
// ---------------------------------------------------------------------------

/// Decodes one value of the schema type `t` from `b`, advancing `pos` past
/// its encoding. Fails exactly where the schema-driven decoding of the
/// bytes fails.
pub fn decode_value(ci: &ComponentInterface, t: &TypeReference, b: &Vec<u8>, pos: &mut usize) -> (r:
    Result<Value, CodecError>)
    requires
        wf_interface(*ci),
        *old(pos) <= b@.len(),
    ensures
        match r {
            Ok(v) => decode(*ci, *t, b@, *old(pos) as int) == Some((v@, *final(pos) as int))
                && *old(pos) <= *final(pos) <= b@.len(),
            Err(e) => decode(*ci, *t, b@, *old(pos) as int) is None && e
                == CodecError::MalformedBuffer,
        },
    decreases record_reach(*ci, *t), type_depth(*t), 0nat,
{
    let n = b.len();
    match t {
        TypeReference::Boolean => {
            if *pos < n {
                let byte = b[*pos];
                *pos = *pos + 1;
                Ok(Value::Boolean(byte != 0))
            } else {
                Err(CodecError::MalformedBuffer)
            }
        },
        TypeReference::U32 => {
            if n - *pos >= 4 {
                let x = read_be32(b, *pos);
                *pos = *pos + 4;
                Ok(Value::U32(x))
            } else {
                Err(CodecError::MalformedBuffer)
            }
        },
        TypeReference::U64 => {
            if n - *pos >= 8 {
                let x = read_be64(b, *pos);
                *pos = *pos + 8;
                Ok(Value::U64(x))
            } else {
                Err(CodecError::MalformedBuffer)
            }
        },
        TypeReference::Float => {
            if n - *pos >= 4 {
                let x = read_be32(b, *pos);
                *pos = *pos + 4;
                Ok(Value::Float(x))
            } else {
                Err(CodecError::MalformedBuffer)
            }
        },
        TypeReference::Double => {
            if n - *pos >= 8 {
                let x = read_be64(b, *pos);
                *pos = *pos + 8;
                Ok(Value::Double(x))
            } else {
                Err(CodecError::MalformedBuffer)
            }
        },
        TypeReference::Enum(name) => match ci.find_enum(name) {
            Some(e) => {
                if n - *pos >= 4 {
                    let w = read_be32(b, *pos);
                    if 1 <= w && (w as usize) <= e.values.len() {
                        *pos = *pos + 4;
                        Ok(Value::Enum(w - 1))
                    } else {
                        Err(CodecError::MalformedBuffer)
                    }
                } else {
                    Err(CodecError::MalformedBuffer)
                }
            },
            None => Err(CodecError::MalformedBuffer),
        },
        TypeReference::Record(name) => match ci.find_record(name) {
            Some(rec) => {
                proof {
                    assert(rec.fields@.skip(0) =~= rec.fields@);
                }
                match decode_fields_exec(ci, &rec.fields, 0, b, pos) {
                    Ok(vs) => {
                        proof {
                            lemma_record_view(vs);
                        }
                        Ok(Value::Record(vs))
                    },
                    Err(e) => Err(e),
                }
            },
            None => Err(CodecError::MalformedBuffer),
        },
        TypeReference::Optional(inner) => {
            if *pos < n {
                let flag = b[*pos];
                *pos = *pos + 1;
                if flag == 0 {
                    Ok(Value::Absent)
                } else {
                    match decode_value(ci, &**inner, b, pos) {
                        Ok(v) => Ok(Value::Present(Box::new(v))),
                        Err(e) => Err(e),
                    }
                }
            } else {
                Err(CodecError::MalformedBuffer)
            }
        },
        _ => Err(CodecError::MalformedBuffer),
    }
}

/// Decodes the values of `fields` from position `i` on, advancing `pos`
/// past their encodings.
fn decode_fields_exec(
    ci: &ComponentInterface,
    fields: &Vec<FieldDefinition>,
    i: usize,
    b: &Vec<u8>,
    pos: &mut usize,
) -> (r: Result<Vec<Value>, CodecError>)
    requires
        wf_interface(*ci),
        i <= fields@.len(),
        *old(pos) <= b@.len(),
    ensures
        match r {
            Ok(vs) => decode_fields(*ci, fields@.skip(i as int), b@, *old(pos) as int) == Some(
                (seq_view(vs@), *final(pos) as int),
            ) && *old(pos) <= *final(pos) <= b@.len(),
            Err(e) => decode_fields(*ci, fields@.skip(i as int), b@, *old(pos) as int) is None && e
                == CodecError::MalformedBuffer,
        },
    decreases fields_reach(*ci, fields@.skip(i as int)),
        fields_depth(*ci, fields@.skip(i as int)) + 1nat,
        fields@.len() - i,
{
    let ghost tailf = fields@.skip(i as int);
    if i == fields.len() {
        let vs: Vec<Value> = Vec::new();
        proof {
            assert(tailf =~= Seq::<FieldDefinition>::empty());
            assert(seq_view(vs@) =~= Seq::<ValueModel>::empty());
        }
        Ok(vs)
    } else {
        proof {
            assert(tailf[0] == fields@[i as int]);
            assert(tailf.drop_first() =~= fields@.skip(i as int + 1));
        }
        match decode_value(ci, &fields[i].type_, b, pos) {
            Ok(v0) => match decode_fields_exec(ci, fields, i + 1, b, pos) {
                Ok(mut rest) => {
                    let ghost old_rest = rest@;
                    rest.insert(0, v0);
                    proof {
                        assert(seq_view(rest@) =~= seq![v0@] + seq_view(old_rest));
                    }
                    Ok(rest)
                },
                Err(e) => Err(e),
            },
            Err(e) => Err(e),
        }
    }
}

/// Encodes `v` at the schema type `t` into a fresh byte vector. Succeeds
/// exactly on conforming values.
pub fn encode_to_bytes(ci: &ComponentInterface, t: &TypeReference, v: &Value) -> (r: Result<
    Vec<u8>,
    CodecError,
>)
    requires
        wf_interface(*ci),
    ensures
        match r {
            Ok(bytes) => conforms(*ci, *t, v@) && bytes@ == encoding(*ci, *t, v@),
            Err(e) => !conforms(*ci, *t, v@) && e == CodecError::Unencodable,
        },
{
    let mut out: Vec<u8> = Vec::new();
    match encode_value(ci, t, v, &mut out) {
        Ok(()) => {
            proof {
                assert(out@ =~= encoding(*ci, *t, v@));
            }
            Ok(out)
        },
        Err(e) => Err(e),
    }
}

/// Decodes a whole buffer as one value of the schema type `t`. After the
/// value, no byte may remain: trailing bytes mean the two sides disagree
/// about the schema and are a fatal integrity failure, distinct from a
/// buffer whose bytes do not decode at all.
pub fn decode_from_bytes(ci: &ComponentInterface, t: &TypeReference, b: &Vec<u8>) -> (r: Result<
    Value,
    CodecError,
>)
    requires
        wf_interface(*ci),
    ensures
        match decode(*ci, *t, b@, 0) {
            Some(pair) => match r {
                Ok(v) => v@ == pair.0 && pair.1 == b@.len(),
                Err(e) => e == CodecError::TrailingBytes && pair.1 != b@.len(),
            },
            None => match r {
                Ok(_) => false,
                Err(e) => e == CodecError::MalformedBuffer,
            },
        },
{
    let mut pos: usize = 0;
    match decode_value(ci, t, b, &mut pos) {
        Ok(v) => {
            if pos == b.len() {
                Ok(v)
            } else {
                Err(CodecError::TrailingBytes)
            }
        },
        Err(_) => Err(CodecError::MalformedBuffer),
    }
}

// ---------------------------------------------------------------------------
// Scalar lowering and lifting across the foreign-call boundary.
// ---------------------------------------------------------------------------

/// Lowers a boolean for a foreign call: one byte, 1 for true and 0 for
/// false.
pub fn lower_boolean(value: bool) -> (r: u8)
    ensures
        r == (if value {
            1u8
        } else {
            0u8
        }),
{
    if value {
        1
    } else {
        0
    }
}

/// Lifts a foreign-call byte back into a boolean: any nonzero byte is true.
pub fn lift_boolean(raw: u8) -> (r: bool)
    ensures
        r == (raw != 0),
{
    raw != 0
}

/// Lowers an enum value for a foreign call: the 1-based ordinal of the
/// member at the given 0-based position. A position outside the declared
/// values has no wire representation.
pub fn lower_enum_value(e: &EnumDefinition, member: u32) -> (r: Result<u32, CodecError>)
    requires
        e.values@.len() <= u32::MAX,
    ensures
        match r {
            Ok(w) => (member as int) < e.values@.len() && w == member + 1,
            Err(err) => !((member as int) < e.values@.len()) && err == CodecError::Unencodable,
        },
{
    if (member as usize) < e.values.len() {
        Ok(member + 1)
    } else {
        Err(CodecError::Unencodable)
    }
}

/// Lifts a foreign-call ordinal back into the 0-based position of the enum
/// member it denotes. An ordinal outside the declared 1-based range is a
/// fatal mismatch between the generated code and the native component.
pub fn lift_enum_value(e: &EnumDefinition, ordinal: u32) -> (r: Result<u32, CodecError>)
    ensures
        match r {
            Ok(m) => 1 <= ordinal && (ordinal as int) <= e.values@.len() && m == ordinal - 1,
            Err(err) => !(1 <= ordinal && (ordinal as int) <= e.values@.len()) && err
                == CodecError::OrdinalOutOfRange,
        },
{
    if 1 <= ordinal && (ordinal as usize) <= e.values.len() {
        Ok(ordinal - 1)
    } else {
        Err(CodecError::OrdinalOutOfRange)
    }
}

} // verus!
