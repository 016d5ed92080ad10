//! Metadata values of a GGUF file and their encoding.

use crate::error::GGUFWriteError;
use crate::le;
use crate::sink;
use crate::sink::ByteSink;
use vstd::prelude::*;

verus! {

/// The types that a metadata value can have, in the order of their numbers in the format.
#[derive(Debug, Clone, Copy, PartialEq, Eq, Structural)]
pub enum GGUFValueType {
    Uint8,
    Int8,
    Uint16,
    Int16,
    Uint32,
    Int32,
    Float32,
    Bool,
    String,
    Array,
    Uint64,
    Int64,
    Float64,
}

/// The number that stands for a value type in a file.
pub open spec fn value_type_code(t: GGUFValueType) -> u32 {
    match t {
        GGUFValueType::Uint8 => 0,
        GGUFValueType::Int8 => 1,
        GGUFValueType::Uint16 => 2,
        GGUFValueType::Int16 => 3,
        GGUFValueType::Uint32 => 4,
        GGUFValueType::Int32 => 5,
        GGUFValueType::Float32 => 6,
        GGUFValueType::Bool => 7,
        GGUFValueType::String => 8,
        GGUFValueType::Array => 9,
        GGUFValueType::Uint64 => 10,
        GGUFValueType::Int64 => 11,
        GGUFValueType::Float64 => 12,
    }
}

/// The number that stands for a value type in a file.
pub fn gguf_value_type_to_u32(val_type: GGUFValueType) -> (r: u32)
    ensures
        r == value_type_code(val_type),
{
    match val_type {
        GGUFValueType::Uint8 => 0,
        GGUFValueType::Int8 => 1,
        GGUFValueType::Uint16 => 2,
        GGUFValueType::Int16 => 3,
        GGUFValueType::Uint32 => 4,
        GGUFValueType::Int32 => 5,
        GGUFValueType::Float32 => 6,
        GGUFValueType::Bool => 7,
        GGUFValueType::String => 8,
        GGUFValueType::Array => 9,
        GGUFValueType::Uint64 => 10,
        GGUFValueType::Int64 => 11,
        GGUFValueType::Float64 => 12,
    }
}

/// A metadata value. A floating-point value is held as its IEEE 754 bit pattern.
#[derive(Debug)]
pub enum GGUFValue {
    Uint8(u8),
    Int8(i8),
    Uint16(u16),
    Int16(i16),
    Uint32(u32),
    Int32(i32),
    Float32(u32),
    Uint64(u64),
    Int64(i64),
    Float64(u64),
    Bool(bool),
    String(String),
    Array(Vec<GGUFValue>),
}

/// The mathematical content of a metadata value.
#[verifier::ext_equal]
pub enum ValueModel {
    Uint8(u8),
    Int8(i8),
    Uint16(u16),
    Int16(i16),
    Uint32(u32),
    Int32(i32),
    Float32(u32),
    Uint64(u64),
    Int64(i64),
    Float64(u64),
    Bool(bool),
    String(Seq<char>),
    Array(Seq<ValueModel>),
}

/// What an attempt to write something has put out, and whether it got to its end.
#[verifier::ext_equal]
pub struct Emission {
    pub bytes: Seq<u8>,
    pub complete: bool,
}

/// A string in a file: the length of its UTF-8 encoding as eight bytes, then the encoding.
pub open spec fn string_bytes(s: Seq<char>) -> Seq<u8> {
    le::le_bytes(vstd::utf8::encode_utf8(s).len(), 8) + vstd::utf8::encode_utf8(s)
}

impl ValueModel {
    /// The type of the value.
    pub open spec fn value_type(self) -> GGUFValueType {
        match self {
            ValueModel::Uint8(_) => GGUFValueType::Uint8,
            ValueModel::Int8(_) => GGUFValueType::Int8,
            ValueModel::Uint16(_) => GGUFValueType::Uint16,
            ValueModel::Int16(_) => GGUFValueType::Int16,
            ValueModel::Uint32(_) => GGUFValueType::Uint32,
            ValueModel::Int32(_) => GGUFValueType::Int32,
            ValueModel::Float32(_) => GGUFValueType::Float32,
            ValueModel::Bool(_) => GGUFValueType::Bool,
            ValueModel::String(_) => GGUFValueType::String,
            ValueModel::Array(_) => GGUFValueType::Array,
            ValueModel::Uint64(_) => GGUFValueType::Uint64,
            ValueModel::Int64(_) => GGUFValueType::Int64,
            ValueModel::Float64(_) => GGUFValueType::Float64,
        }
    }

    /// What writing the value puts out. Only an array whose elements, at some depth, differ in
    /// type is cut short: it ends before the first element of another type.
    pub open spec fn emission(self) -> Emission
        decreases self,
    {
        match self {
            ValueModel::Uint8(v) => whole(le::le_bytes(v as nat, 1)),
            ValueModel::Int8(v) => whole(le::le_bytes(le::twos_complement(v as int, 1), 1)),
            ValueModel::Uint16(v) => whole(le::le_bytes(v as nat, 2)),
            ValueModel::Int16(v) => whole(le::le_bytes(le::twos_complement(v as int, 2), 2)),
            ValueModel::Uint32(v) => whole(le::le_bytes(v as nat, 4)),
            ValueModel::Int32(v) => whole(le::le_bytes(le::twos_complement(v as int, 4), 4)),
            ValueModel::Float32(v) => whole(le::le_bytes(v as nat, 4)),
            ValueModel::Uint64(v) => whole(le::le_bytes(v as nat, 8)),
            ValueModel::Int64(v) => whole(le::le_bytes(le::twos_complement(v as int, 8), 8)),
            ValueModel::Float64(v) => whole(le::le_bytes(v as nat, 8)),
            ValueModel::Bool(v) => whole(le::le_bytes(if v { 1 } else { 0 }, 1)),
            ValueModel::String(s) => whole(string_bytes(s)),
            ValueModel::Array(items) => {
                let t = if items.len() == 0 {
                    GGUFValueType::Uint8
                } else {
                    items[0].value_type()
                };
                let head = le::le_bytes(value_type_code(t) as nat, 4) + le::le_bytes(items.len(), 8);
                let body = items_emission(items, t);
                Emission { bytes: head + body.bytes, complete: body.complete }
            },
        }
    }
}

/// Bytes put out to the end.
pub open spec fn whole(bytes: Seq<u8>) -> Emission {
    Emission { bytes, complete: true }
}

/// What writing the elements `items` of an array of type `t` puts out.
pub open spec fn items_emission(items: Seq<ValueModel>, t: GGUFValueType) -> Emission
    decreases items,
{
    if items.len() == 0 {
        whole(Seq::empty())
    } else {
        let before = items_emission(items.drop_last(), t);
        if !before.complete {
            before
        } else if items.last().value_type() != t {
            Emission { bytes: before.bytes, complete: false }
        } else {
            let last = items.last().emission();
            Emission { bytes: before.bytes + last.bytes, complete: last.complete }
        }
    }
}

impl View for GGUFValue {
    type V = ValueModel;

    open spec fn view(&self) -> ValueModel {
        self.model()
    }
}

impl GGUFValue {
    /// The content of the value.
    pub open spec fn model(self) -> ValueModel
        decreases self,
    {
        match self {
            GGUFValue::Uint8(v) => ValueModel::Uint8(v),
            GGUFValue::Int8(v) => ValueModel::Int8(v),
            GGUFValue::Uint16(v) => ValueModel::Uint16(v),
            GGUFValue::Int16(v) => ValueModel::Int16(v),
            GGUFValue::Uint32(v) => ValueModel::Uint32(v),
            GGUFValue::Int32(v) => ValueModel::Int32(v),
            GGUFValue::Float32(v) => ValueModel::Float32(v),
            GGUFValue::Uint64(v) => ValueModel::Uint64(v),
            GGUFValue::Int64(v) => ValueModel::Int64(v),
            GGUFValue::Float64(v) => ValueModel::Float64(v),
            GGUFValue::Bool(v) => ValueModel::Bool(v),
            GGUFValue::String(s) => ValueModel::String(s@),
            GGUFValue::Array(items) => ValueModel::Array(
                Seq::new(
                    items@.len(),
                    |i: int|
                        if 0 <= i < items@.len() {
                            items@[i].model()
                        } else {
                            arbitrary()
                        },
                ),
            ),
        }
    }
}

/// The contents of several values.
pub open spec fn models(items: Seq<GGUFValue>) -> Seq<ValueModel> {
    Seq::new(items.len(), |i: int| items[i]@)
}

/// The content of an array is that of its elements.
pub proof fn lemma_array_view(items: Vec<GGUFValue>)
    ensures
        GGUFValue::Array(items)@ == ValueModel::Array(models(items@)),
{
    let v = GGUFValue::Array(items);
    assert(v@->Array_0.len() == items@.len());
    assert forall|i: int| 0 <= i < items@.len() implies v@->Array_0[i] == items@[i]@ by {}
    assert(v@->Array_0 =~= models(items@));
}

impl Clone for GGUFValue {
    /// A value with the same content.
    fn clone(&self) -> (r: GGUFValue)
        ensures
            r@ == self@,
        decreases self,
    {
        match self {
            GGUFValue::Uint8(v) => GGUFValue::Uint8(*v),
            GGUFValue::Int8(v) => GGUFValue::Int8(*v),
            GGUFValue::Uint16(v) => GGUFValue::Uint16(*v),
            GGUFValue::Int16(v) => GGUFValue::Int16(*v),
            GGUFValue::Uint32(v) => GGUFValue::Uint32(*v),
            GGUFValue::Int32(v) => GGUFValue::Int32(*v),
            GGUFValue::Float32(v) => GGUFValue::Float32(*v),
            GGUFValue::Uint64(v) => GGUFValue::Uint64(*v),
            GGUFValue::Int64(v) => GGUFValue::Int64(*v),
            GGUFValue::Float64(v) => GGUFValue::Float64(*v),
            GGUFValue::Bool(v) => GGUFValue::Bool(*v),
            GGUFValue::String(s) => GGUFValue::String(s.clone()),
            GGUFValue::Array(items) => {
                let mut copy: Vec<GGUFValue> = Vec::new();
                let mut i: usize = 0;
                while i < items.len()
                    invariant
                        i <= items@.len(),
                        copy@.len() == i,
                        self matches GGUFValue::Array(v) && v == items,
                        forall|j: int| 0 <= j < i ==> #[trigger] copy@[j]@ == items@[j]@,
                    decreases items@.len() - i,
                {
                    let item = items[i].clone();
                    copy.push(item);
                    i = i + 1;
                }
                proof {
                    lemma_array_view(copy);
                    lemma_array_view(*items);
                    assert(models(copy@) =~= models(items@));
                }
                GGUFValue::Array(copy)
            },
        }
    }
}

/// Two single-precision numbers, given by their bit patterns, are equal: none is not-a-number,
/// and the patterns are the same or both are zero, of whatever sign.
pub open spec fn equal_singles(a: u32, b: u32) -> bool {
    &&& a % 0x8000_0000 <= 0x7f80_0000
    &&& b % 0x8000_0000 <= 0x7f80_0000
    &&& a == b || (a % 0x8000_0000 == 0 && b % 0x8000_0000 == 0)
}

/// Two double-precision numbers, given by their bit patterns, are equal: none is not-a-number,
/// and the patterns are the same or both are zero, of whatever sign.
pub open spec fn equal_doubles(a: u64, b: u64) -> bool {
    &&& a % 0x8000_0000_0000_0000 <= 0x7ff0_0000_0000_0000
    &&& b % 0x8000_0000_0000_0000 <= 0x7ff0_0000_0000_0000
    &&& a == b || (a % 0x8000_0000_0000_0000 == 0 && b % 0x8000_0000_0000_0000 == 0)
}

/// Two values are equal: they are of one type, and floating-point numbers in them are equal as
/// numbers.
pub open spec fn equal_values(a: ValueModel, b: ValueModel) -> bool
    decreases a,
{
    match (a, b) {
        (ValueModel::Float32(x), ValueModel::Float32(y)) => equal_singles(x, y),
        (ValueModel::Float64(x), ValueModel::Float64(y)) => equal_doubles(x, y),
        (ValueModel::Array(x), ValueModel::Array(y)) => x.len() == y.len() && forall|i: int|
            0 <= i < x.len() ==> equal_values(#[trigger] x[i], y[i]),
        (ValueModel::Array(_), _) => false,
        _ => a == b,
    }
}

impl PartialEq for GGUFValue {
    /// Whether two values are equal, floating-point numbers in them as numbers.
    fn eq(&self, other: &GGUFValue) -> (r: bool) {
        self.equals(other)
    }
}

impl vstd::std_specs::cmp::PartialEqSpecImpl for GGUFValue {
    open spec fn obeys_eq_spec() -> bool {
        true
    }

    open spec fn eq_spec(&self, other: &GGUFValue) -> bool {
        equal_values(self@, other@)
    }
}

impl GGUFValue {
    /// Whether two values are equal.
    fn equals(&self, other: &GGUFValue) -> (r: bool)
        ensures
            r == equal_values(self@, other@),
        decreases self,
    {
        match (self, other) {
            (GGUFValue::Uint8(a), GGUFValue::Uint8(b)) => *a == *b,
            (GGUFValue::Int8(a), GGUFValue::Int8(b)) => *a == *b,
            (GGUFValue::Uint16(a), GGUFValue::Uint16(b)) => *a == *b,
            (GGUFValue::Int16(a), GGUFValue::Int16(b)) => *a == *b,
            (GGUFValue::Uint32(a), GGUFValue::Uint32(b)) => *a == *b,
            (GGUFValue::Int32(a), GGUFValue::Int32(b)) => *a == *b,
            (GGUFValue::Float32(a), GGUFValue::Float32(b)) => {
                let x: u32 = *a % 0x8000_0000;
                let y: u32 = *b % 0x8000_0000;
                x <= 0x7f80_0000 && y <= 0x7f80_0000 && (*a == *b || (x == 0 && y == 0))
            },
            (GGUFValue::Uint64(a), GGUFValue::Uint64(b)) => *a == *b,
            (GGUFValue::Int64(a), GGUFValue::Int64(b)) => *a == *b,
            (GGUFValue::Float64(a), GGUFValue::Float64(b)) => {
                let x: u64 = *a % 0x8000_0000_0000_0000;
                let y: u64 = *b % 0x8000_0000_0000_0000;
                x <= 0x7ff0_0000_0000_0000 && y <= 0x7ff0_0000_0000_0000 && (*a == *b || (x == 0
                    && y == 0))
            },
            (GGUFValue::Bool(a), GGUFValue::Bool(b)) => *a == *b,
            (GGUFValue::String(a), GGUFValue::String(b)) => *a == *b,
            (GGUFValue::Array(a), GGUFValue::Array(b)) => {
                proof {
                    lemma_array_view(*a);
                    lemma_array_view(*b);
                }
                if a.len() != b.len() {
                    return false;
                }
                let mut i: usize = 0;
                while i < a.len()
                    invariant
                        i <= a@.len(),
                        a@.len() == b@.len(),
                        self matches GGUFValue::Array(v) && v == a,
                        self@ == ValueModel::Array(models(a@)),
                        other@ == ValueModel::Array(models(b@)),
                        forall|j: int|
                            0 <= j < i ==> equal_values(#[trigger] models(a@)[j], models(b@)[j]),
                    decreases a@.len() - i,
                {
                    if !a[i].equals(&b[i]) {
                        assert(!equal_values(models(a@)[i as int], models(b@)[i as int]));
                        return false;
                    }
                    i = i + 1;
                }
                true
            },
            _ => false,
        }
    }
}

impl GGUFValue {
    /// The type of the value.
    pub fn get_type(&self) -> (r: GGUFValueType)
        ensures
            r == self@.value_type(),
    {
        match self {
            GGUFValue::Uint8(_) => GGUFValueType::Uint8,
            GGUFValue::Int8(_) => GGUFValueType::Int8,
            GGUFValue::Uint16(_) => GGUFValueType::Uint16,
            GGUFValue::Int16(_) => GGUFValueType::Int16,
            GGUFValue::Uint32(_) => GGUFValueType::Uint32,
            GGUFValue::Int32(_) => GGUFValueType::Int32,
            GGUFValue::Float32(_) => GGUFValueType::Float32,
            GGUFValue::Bool(_) => GGUFValueType::Bool,
            GGUFValue::String(_) => GGUFValueType::String,
            GGUFValue::Array(_) => GGUFValueType::Array,
            GGUFValue::Uint64(_) => GGUFValueType::Uint64,
            GGUFValue::Int64(_) => GGUFValueType::Int64,
            GGUFValue::Float64(_) => GGUFValueType::Float64,
        }
    }
}

/// Once the elements of an array are cut short, nothing more of them is put out.
proof fn lemma_items_stop(items: Seq<ValueModel>, t: GGUFValueType, k: int)
    requires
        0 <= k <= items.len(),
        !items_emission(items.take(k), t).complete,
    ensures
        items_emission(items, t) == items_emission(items.take(k), t),
    decreases items.len() - k,
{
    if k == items.len() {
        assert(items.take(k) =~= items);
    } else {
        assert(items.take(k + 1).drop_last() =~= items.take(k));
        lemma_items_stop(items, t, k + 1);
    }
}

/// Writes a string: the length of its UTF-8 encoding, then the encoding.
pub fn write_string(writer: &mut ByteSink, s: &str) -> (r: Result<(), GGUFWriteError>)
    requires
        old(writer).wf(),
    ensures
        r is Ok,
        final(writer).wf(),
        final(writer)@ == old(writer)@.after_write(string_bytes(s@)),
{
    let ghost start = writer@;
    let bytes = s.as_bytes();
    writer.write_u64(bytes.len() as u64);
    writer.write_all(bytes);
    proof {
        sink::lemma_write_write(start, le::le_bytes(bytes@.len(), 8), bytes@);
    }
    Ok(())
}

/// Writes a metadata value, without its type.
pub fn write_metadata_value(writer: &mut ByteSink, value: &GGUFValue) -> (r: Result<
    (),
    GGUFWriteError,
>)
    requires
        old(writer).wf(),
    ensures
        final(writer).wf(),
        final(writer)@ == old(writer)@.after_write(value@.emission().bytes),
        r is Ok <==> value@.emission().complete,
        r matches Err(e) ==> e is InvalidMetadataValueType,
    decreases value,
{
    match value {
        GGUFValue::Uint8(v) => writer.write_u8(*v),
        GGUFValue::Int8(v) => writer.write_i8(*v),
        GGUFValue::Uint16(v) => writer.write_u16(*v),
        GGUFValue::Int16(v) => writer.write_i16(*v),
        GGUFValue::Uint32(v) => writer.write_u32(*v),
        GGUFValue::Int32(v) => writer.write_i32(*v),
        GGUFValue::Float32(v) => writer.write_u32(*v),
        GGUFValue::Uint64(v) => writer.write_u64(*v),
        GGUFValue::Int64(v) => writer.write_i64(*v),
        GGUFValue::Float64(v) => writer.write_u64(*v),
        GGUFValue::Bool(v) => writer.write_u8(
            if *v {
                1
            } else {
                0
            },
        ),
        GGUFValue::String(s) => {
            return write_string(writer, s.as_str());
        },
        GGUFValue::Array(items) => {
            proof {
                lemma_array_view(*items);
            }
            return write_array(writer, items);
        },
    }
    Ok(())
}

/// Writes an array: the type of its elements, their number, then each of them.
fn write_array(writer: &mut ByteSink, items: &Vec<GGUFValue>) -> (r: Result<(), GGUFWriteError>)
    requires
        old(writer).wf(),
    ensures
        final(writer).wf(),
        final(writer)@ == old(writer)@.after_write(
            ValueModel::Array(models(items@)).emission().bytes,
        ),
        r is Ok <==> ValueModel::Array(models(items@)).emission().complete,
        r matches Err(e) ==> e is InvalidMetadataValueType,
    decreases items,
{
    let ghost start = writer@;
    let ghost contents = models(items@);
    let element_type = if items.is_empty() {
        GGUFValueType::Uint8
    } else {
        items[0].get_type()
    };
    let ghost head = le::le_bytes(value_type_code(element_type) as nat, 4) + le::le_bytes(
        contents.len(),
        8,
    );
    writer.write_u32(gguf_value_type_to_u32(element_type));
    writer.write_u64(items.len() as u64);
    proof {
        sink::lemma_write_write(
            start,
            le::le_bytes(value_type_code(element_type) as nat, 4),
            le::le_bytes(contents.len(), 8),
        );
        assert(contents.take(0) =~= Seq::empty());
        assert(head + Seq::<u8>::empty() =~= head);
    }
    let mut i: usize = 0;
    while i < items.len()
        invariant
            i <= items@.len(),
            start == old(writer)@,
            start.wf(),
            writer.wf(),
            contents == models(items@),
            items_emission(contents.take(i as int), element_type).complete,
            writer@ == start.after_write(
                head + items_emission(contents.take(i as int), element_type).bytes,
            ),
            items@.len() > 0 ==> element_type == contents[0].value_type(),
            head == le::le_bytes(value_type_code(element_type) as nat, 4) + le::le_bytes(
                contents.len(),
                8,
            ),
        decreases items@.len() - i,
    {
        let ghost done = items_emission(contents.take(i as int), element_type);
        proof {
            assert(contents.take(i + 1).drop_last() =~= contents.take(i as int));
            assert(contents.take(i + 1).last() == contents[i as int]);
            assert(contents[i as int] == items@[i as int]@);
        }
        if items[i].get_type() != element_type {
            proof {
                lemma_items_stop(contents, element_type, i + 1);
            }
            return Err(GGUFWriteError::InvalidMetadataValueType);
        }
        let r = write_metadata_value(writer, &items[i]);
        proof {
            let part = contents[i as int].emission().bytes;
            sink::lemma_write_write(start, head + done.bytes, part);
            assert(head + done.bytes + part =~= head + (done.bytes + part));
        }
        if r.is_err() {
            proof {
                lemma_items_stop(contents, element_type, i + 1);
            }
            return r;
        }
        i = i + 1;
    }
    assert(contents.take(i as int) =~= contents);
    Ok(())
}

/// A key-value pair in a file: the key, the type of the value, the value.
pub open spec fn kv_emission(key: Seq<char>, value: ValueModel) -> Emission {
    let head = string_bytes(key) + le::le_bytes(value_type_code(value.value_type()) as nat, 4);
    Emission { bytes: head + value.emission().bytes, complete: value.emission().complete }
}

/// Writes a single metadata key-value pair.
pub fn write_metadata_kv(writer: &mut ByteSink, key: &str, value: &GGUFValue) -> (r: Result<
    (),
    GGUFWriteError,
>)
    requires
        old(writer).wf(),
    ensures
        final(writer).wf(),
        final(writer)@ == old(writer)@.after_write(kv_emission(key@, value@).bytes),
        r is Ok <==> kv_emission(key@, value@).complete,
        r matches Err(e) ==> e is InvalidMetadataValueType,
{
    let ghost start = writer@;
    let _ = write_string(writer, key);
    let value_type = value.get_type();
    writer.write_u32(gguf_value_type_to_u32(value_type));
    let r = write_metadata_value(writer, value);
    proof {
        let a = string_bytes(key@);
        let b = le::le_bytes(value_type_code(value_type) as nat, 4);
        sink::lemma_write_write(start, a, b);
        sink::lemma_write_write(start, a + b, value@.emission().bytes);
    }
    r
}

} // verus!
