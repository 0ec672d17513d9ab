//! The flat field format that every record is written in: a run of fields,
//! each a 64-bit number or a byte string with a 64-bit length before it.

use crate::wire::{
    get_run, get_u64, lemma_read_run_written, lemma_read_u64_written, put_run, put_u64, read_run,
    read_u64, u64_bytes,
};
use vstd::bytes::*;
use vstd::prelude::*;

verus! {

/// The two kinds of field.
#[derive(Clone, Copy, Debug)]
pub enum FieldKind {
    /// A 64-bit number.
    Int,
    /// A byte string.
    Blob,
}

/// One field of a record.
#[derive(Debug)]
pub enum Field {
    /// A 64-bit number.
    Int(u64),
    /// A byte string.
    Blob(Vec<u8>),
}

/// What a field holds.
pub ghost enum FieldValue {
    /// A 64-bit number.
    Int(u64),
    /// A byte string.
    Blob(Seq<u8>),
}

impl View for Field {
    type V = FieldValue;

    open spec fn view(&self) -> FieldValue {
        match self {
            Field::Int(x) => FieldValue::Int(*x),
            Field::Blob(b) => FieldValue::Blob(b@),
        }
    }
}

impl FieldValue {
    /// The kind of the field.
    pub open spec fn kind(self) -> FieldKind {
        match self {
            FieldValue::Int(_) => FieldKind::Int,
            FieldValue::Blob(_) => FieldKind::Blob,
        }
    }

    /// Whether the field can be written: a byte string's length must fit 64 bits.
    pub open spec fn fits(self) -> bool {
        match self {
            FieldValue::Int(_) => true,
            FieldValue::Blob(b) => b.len() <= u64::MAX,
        }
    }

    /// The bytes of the field.
    pub open spec fn bytes(self) -> Seq<u8> {
        match self {
            FieldValue::Int(x) => u64_bytes(x),
            FieldValue::Blob(b) => u64_bytes(b.len() as u64) + b,
        }
    }
}

/// What a list of fields holds.
pub open spec fn fields_view(fields: Seq<Field>) -> Seq<FieldValue> {
    Seq::new(fields.len(), |i: int| fields[i]@)
}

/// The kinds of a list of fields.
pub open spec fn kinds_of(fields: Seq<FieldValue>) -> Seq<FieldKind> {
    Seq::new(fields.len(), |i: int| fields[i].kind())
}

/// Whether every field can be written.
pub open spec fn all_fit(fields: Seq<FieldValue>) -> bool {
    forall|i: int| 0 <= i < fields.len() ==> (#[trigger] fields[i]).fits()
}

/// The bytes of a list of fields, in order.
pub open spec fn fields_bytes(fields: Seq<FieldValue>) -> Seq<u8>
    decreases fields.len(),
{
    if fields.len() == 0 {
        Seq::empty()
    } else {
        fields_bytes(fields.drop_last()) + fields.last().bytes()
    }
}

/// The field of kind `kind` that starts at `pos`, and the place after it.
pub open spec fn parse_field(bytes: Seq<u8>, pos: int, kind: FieldKind) -> Option<
    (FieldValue, int),
> {
    match read_u64(bytes, pos) {
        None => None,
        Some(head) => match kind {
            FieldKind::Int => Some((FieldValue::Int(head), pos + 8)),
            FieldKind::Blob => match read_run(bytes, pos + 8, head as int) {
                None => None,
                Some(run) => Some((FieldValue::Blob(run), pos + 8 + head)),
            },
        },
    }
}

/// The fields of the kinds `schema` that start at `pos`, and the place after
/// them.
pub open spec fn parse_fields(bytes: Seq<u8>, pos: int, schema: Seq<FieldKind>) -> Option<
    (Seq<FieldValue>, int),
>
    decreases schema.len(),
{
    if schema.len() == 0 {
        Some((Seq::empty(), pos))
    } else {
        match parse_fields(bytes, pos, schema.drop_last()) {
            None => None,
            Some((fields, next)) => match parse_field(bytes, next, schema.last()) {
                None => None,
                Some((field, end)) => Some((fields.push(field), end)),
            },
        }
    }
}

/// The fields that `bytes` spell under `schema`: the bytes must hold exactly
/// those fields and nothing after them.
pub open spec fn decode_fields_spec(bytes: Seq<u8>, schema: Seq<FieldKind>) -> Option<
    Seq<FieldValue>,
> {
    match parse_fields(bytes, 0, schema) {
        Some((fields, end)) => if end == bytes.len() {
            Some(fields)
        } else {
            None
        },
        None => None,
    }
}

/// Writes the fields, in order.
pub fn encode_fields(fields: &Vec<Field>) -> (bytes: Vec<u8>)
    ensures
        bytes@ == fields_bytes(fields_view(fields@)),
        all_fit(fields_view(fields@)),
{
    let ghost values = fields_view(fields@);
    let mut out: Vec<u8> = Vec::new();
    let mut i: usize = 0;
    while i < fields.len()
        invariant
            i <= fields@.len(),
            values == fields_view(fields@),
            out@ == fields_bytes(values.take(i as int)),
            forall|j: int| 0 <= j < i ==> (#[trigger] values[j]).fits(),
        decreases fields@.len() - i,
    {
        proof {
            assert(values.take(i + 1).drop_last() =~= values.take(i as int));
            assert(values.take(i + 1).last() == fields@[i as int]@);
        }
        match &fields[i] {
            Field::Int(x) => {
                put_u64(&mut out, *x);
            },
            Field::Blob(b) => {
                let len: u64 = b.len() as u64;
                put_u64(&mut out, len);
                put_run(&mut out, b.as_slice());
                assert(out@ =~= fields_bytes(values.take(i as int)) + (u64_bytes(len) + b@));
            },
        }
        i += 1;
    }
    assert(values.take(i as int) =~= values);
    out
}

/// Reads the fields that `bytes` spell under `schema`.
pub fn decode_fields(bytes: &[u8], schema: &[FieldKind]) -> (fields: Option<Vec<Field>>)
    ensures
        match fields {
            Some(f) => decode_fields_spec(bytes@, schema@) == Some(fields_view(f@)),
            None => decode_fields_spec(bytes@, schema@).is_none(),
        },
{
    let total = bytes.len();
    let mut out: Vec<Field> = Vec::new();
    let mut pos: usize = 0;
    let mut i: usize = 0;
    while i < schema.len()
        invariant
            i <= schema@.len(),
            total == bytes@.len(),
            pos <= total,
            out@.len() == i,
            parse_fields(bytes@, 0, schema@.take(i as int)) == Some(
                (fields_view(out@), pos as int),
            ),
        decreases schema@.len() - i,
    {
        proof {
            assert(schema@.take(i + 1).drop_last() =~= schema@.take(i as int));
            assert(schema@.take(i + 1).last() == schema@[i as int]);
        }
        let ghost earlier = fields_view(out@);
        let head = match get_u64(bytes, pos) {
            Some(head) => head,
            None => {
                proof {
                    lemma_parse_fields_stops(bytes@, schema@, (i + 1) as nat);
                }
                return None;
            },
        };
        match schema[i] {
            FieldKind::Int => {
                out.push(Field::Int(head));
                pos = pos + 8;
            },
            FieldKind::Blob => {
                if head > (total - pos - 8) as u64 {
                    proof {
                        lemma_parse_fields_stops(bytes@, schema@, (i + 1) as nat);
                    }
                    return None;
                }
                let run = match get_run(bytes, pos + 8, head as usize) {
                    Some(run) => run,
                    None => {
                        proof {
                            lemma_parse_fields_stops(bytes@, schema@, (i + 1) as nat);
                        }
                        return None;
                    },
                };
                out.push(Field::Blob(run));
                pos = pos + 8 + head as usize;
            },
        }
        assert(fields_view(out@) =~= earlier.push(out@[i as int]@));
        i += 1;
    }
    assert(schema@.take(i as int) =~= schema@);
    if pos == total {
        Some(out)
    } else {
        None
    }
}

/// Once a prefix of the schema cannot be read, the whole schema cannot.
pub proof fn lemma_parse_fields_stops(bytes: Seq<u8>, schema: Seq<FieldKind>, reached: nat)
    requires
        reached <= schema.len(),
        parse_fields(bytes, 0, schema.take(reached as int)).is_none(),
    ensures
        parse_fields(bytes, 0, schema).is_none(),
    decreases schema.len(),
{
    if reached == schema.len() {
        assert(schema.take(reached as int) =~= schema);
    } else {
        assert(schema.drop_last().take(reached as int) =~= schema.take(reached as int));
        lemma_parse_fields_stops(bytes, schema.drop_last(), reached);
    }
}

/// A field written after `before` is read back at that place.
pub proof fn lemma_parse_field_written(before: Seq<u8>, field: FieldValue, after: Seq<u8>)
    requires
        field.fits(),
    ensures
        parse_field(before + field.bytes() + after, before.len() as int, field.kind()) == Some(
            (field, (before.len() + field.bytes().len()) as int),
        ),
{
    lemma_auto_spec_u64_to_from_le_bytes();
    match field {
        FieldValue::Int(x) => {
            lemma_read_u64_written(before, x, after);
        },
        FieldValue::Blob(b) => {
            let len = b.len() as u64;
            lemma_read_u64_written(before, len, b + after);
            assert(before + u64_bytes(len) + (b + after) =~= before + field.bytes() + after);
            lemma_read_run_written(before + u64_bytes(len), b, after);
            assert((before + u64_bytes(len)) + b + after =~= before + field.bytes() + after);
        },
    }
}

/// Fields written at the head of some bytes are read back under their own
/// kinds, whatever follows them.
pub proof fn lemma_parse_fields_written(fields: Seq<FieldValue>, after: Seq<u8>)
    requires
        all_fit(fields),
    ensures
        parse_fields(fields_bytes(fields) + after, 0, kinds_of(fields)) == Some(
            (fields, fields_bytes(fields).len() as int),
        ),
    decreases fields.len(),
{
    let schema = kinds_of(fields);
    if fields.len() > 0 {
        let init = fields.drop_last();
        let last = fields.last();
        assert(schema.drop_last() =~= kinds_of(init));
        assert(schema.last() == last.kind());
        assert(all_fit(init)) by {
            assert forall|i: int| 0 <= i < init.len() implies (#[trigger] init[i]).fits() by {
                assert(init[i] == fields[i]);
            }
        }
        assert(fields[fields.len() - 1].fits());
        lemma_parse_fields_written(init, last.bytes() + after);
        assert(fields_bytes(init) + (last.bytes() + after) =~= fields_bytes(fields) + after);
        lemma_parse_field_written(fields_bytes(init), last, after);
        assert(fields_bytes(init) + last.bytes() + after =~= fields_bytes(fields) + after);
        assert(init.push(last) =~= fields);
    } else {
        assert(fields =~= Seq::<FieldValue>::empty());
    }
}

/// Round trip of the field format: what was written is what is read.
pub proof fn law_fields_round_trip(fields: Seq<FieldValue>)
    requires
        all_fit(fields),
    ensures
        decode_fields_spec(fields_bytes(fields), kinds_of(fields)) == Some(fields),
{
    lemma_parse_fields_written(fields, Seq::empty());
    assert(fields_bytes(fields) + Seq::<u8>::empty() =~= fields_bytes(fields));
}

} // verus!
