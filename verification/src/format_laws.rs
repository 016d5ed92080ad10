//! What the bytes of a GGUF file are, position by position.

use crate::gguf_tensor;
use crate::gguf_tensor::{GGMLType, GGMLTypeRenamed, TensorInfo, TensorInfoModel};
use crate::gguf_value;
use crate::gguf_value::{GGUFValue, GGUFValueType, ValueModel};
use crate::gguf_writer;
use crate::gguf_writer::{GGUFHeader, WriterModel};
use crate::le;
use crate::sink;
use vstd::prelude::*;

verus! {

/// The number in the `n` bytes of `b` from `at` on, the lowest byte first.
pub open spec fn number_at(b: Seq<u8>, at: int, n: int) -> nat {
    le::le_value(b.subrange(at, at + n))
}

/// A number that was put between other bytes is found there.
proof fn lemma_number_between(front: Seq<u8>, v: nat, n: nat, back: Seq<u8>)
    requires
        v < le::byte_range(n),
    ensures
        number_at(front + le::le_bytes(v, n) + back, front.len() as int, n as int) == v,
{
    le::lemma_le_bytes_len(v, n);
    le::law_le_read_after_write(v, n);
    let b = front + le::le_bytes(v, n) + back;
    assert(b.subrange(front.len() as int, (front.len() + n) as int) =~= le::le_bytes(v, n));
}

/// A number alone.
proof fn lemma_number_alone(v: nat, n: nat)
    requires
        v < le::byte_range(n),
    ensures
        le::le_bytes(v, n).len() == n,
        number_at(le::le_bytes(v, n), 0, n as int) == v,
{
    le::lemma_le_bytes_len(v, n);
    le::law_le_read_after_write(v, n);
    assert(le::le_bytes(v, n).subrange(0, n as int) =~= le::le_bytes(v, n));
}

/// The numbers of the value types.
pub proof fn law_value_type_numbers()
    ensures
        gguf_value::value_type_code(GGUFValueType::Uint8) == 0,
        gguf_value::value_type_code(GGUFValueType::Int8) == 1,
        gguf_value::value_type_code(GGUFValueType::Uint16) == 2,
        gguf_value::value_type_code(GGUFValueType::Int16) == 3,
        gguf_value::value_type_code(GGUFValueType::Uint32) == 4,
        gguf_value::value_type_code(GGUFValueType::Int32) == 5,
        gguf_value::value_type_code(GGUFValueType::Float32) == 6,
        gguf_value::value_type_code(GGUFValueType::Bool) == 7,
        gguf_value::value_type_code(GGUFValueType::String) == 8,
        gguf_value::value_type_code(GGUFValueType::Array) == 9,
        gguf_value::value_type_code(GGUFValueType::Uint64) == 10,
        gguf_value::value_type_code(GGUFValueType::Int64) == 11,
        gguf_value::value_type_code(GGUFValueType::Float64) == 12,
{
}

/// The numbers of the element types.
pub proof fn law_element_type_numbers()
    ensures
        gguf_tensor::ggml_renamed_code(GGMLTypeRenamed::F32) == 0,
        gguf_tensor::ggml_renamed_code(GGMLTypeRenamed::F16) == 1,
        gguf_tensor::ggml_renamed_code(GGMLTypeRenamed::Q4_0) == 2,
        gguf_tensor::ggml_renamed_code(GGMLTypeRenamed::Q4_1) == 3,
        gguf_tensor::ggml_renamed_code(GGMLTypeRenamed::Q5_0) == 6,
        gguf_tensor::ggml_renamed_code(GGMLTypeRenamed::Q5_1) == 7,
        gguf_tensor::ggml_renamed_code(GGMLTypeRenamed::Q8_0) == 8,
        gguf_tensor::ggml_renamed_code(GGMLTypeRenamed::Q8_1) == 9,
        gguf_tensor::ggml_renamed_code(GGMLTypeRenamed::Q2K) == 10,
        gguf_tensor::ggml_renamed_code(GGMLTypeRenamed::Q3K) == 11,
        gguf_tensor::ggml_renamed_code(GGMLTypeRenamed::Q4K) == 12,
        gguf_tensor::ggml_renamed_code(GGMLTypeRenamed::Q5K) == 13,
        gguf_tensor::ggml_renamed_code(GGMLTypeRenamed::Q6K) == 14,
        gguf_tensor::ggml_renamed_code(GGMLTypeRenamed::Q8K) == 15,
        gguf_tensor::ggml_renamed_code(GGMLTypeRenamed::I8) == 16,
        gguf_tensor::ggml_renamed_code(GGMLTypeRenamed::I16) == 17,
        gguf_tensor::ggml_renamed_code(GGMLTypeRenamed::I32) == 18,
        gguf_tensor::ggml_renamed_code(GGMLTypeRenamed::I64) == 19,
        gguf_tensor::ggml_renamed_code(GGMLTypeRenamed::F64) == 20,
        gguf_tensor::ggml_renamed_code(GGMLTypeRenamed::BF16) == 21,
        gguf_tensor::ggml_code(GGMLType::F32) == 0,
        gguf_tensor::ggml_code(GGMLType::F16) == 1,
        gguf_tensor::ggml_code(GGMLType::Q4_0) == 2,
        gguf_tensor::ggml_code(GGMLType::Q4_1) == 3,
        gguf_tensor::ggml_code(GGMLType::Q5_0) == 6,
        gguf_tensor::ggml_code(GGMLType::Q5_1) == 7,
        gguf_tensor::ggml_code(GGMLType::Q8_0) == 8,
        gguf_tensor::ggml_code(GGMLType::Q8_1) == 9,
        gguf_tensor::ggml_code(GGMLType::Q2_K) == 10,
        gguf_tensor::ggml_code(GGMLType::Q3_K) == 11,
        gguf_tensor::ggml_code(GGMLType::Q4_K) == 12,
        gguf_tensor::ggml_code(GGMLType::Q5_K) == 13,
        gguf_tensor::ggml_code(GGMLType::Q6_K) == 14,
        gguf_tensor::ggml_code(GGMLType::Q8_K) == 15,
        gguf_tensor::ggml_code(GGMLType::I8) == 16,
        gguf_tensor::ggml_code(GGMLType::I16) == 17,
        gguf_tensor::ggml_code(GGMLType::I32) == 18,
        gguf_tensor::ggml_code(GGMLType::I64) == 19,
        gguf_tensor::ggml_code(GGMLType::F64) == 20,
        gguf_tensor::ggml_code(GGMLType::BF16) == 21,
{
}

/// The content of a value is the value itself.
pub proof fn law_value_contents(v: GGUFValue)
    ensures
        match v {
            GGUFValue::Uint8(x) => v@ == ValueModel::Uint8(x) && v@.value_type()
                == GGUFValueType::Uint8,
            GGUFValue::Int8(x) => v@ == ValueModel::Int8(x) && v@.value_type()
                == GGUFValueType::Int8,
            GGUFValue::Uint16(x) => v@ == ValueModel::Uint16(x) && v@.value_type()
                == GGUFValueType::Uint16,
            GGUFValue::Int16(x) => v@ == ValueModel::Int16(x) && v@.value_type()
                == GGUFValueType::Int16,
            GGUFValue::Uint32(x) => v@ == ValueModel::Uint32(x) && v@.value_type()
                == GGUFValueType::Uint32,
            GGUFValue::Int32(x) => v@ == ValueModel::Int32(x) && v@.value_type()
                == GGUFValueType::Int32,
            GGUFValue::Float32(x) => v@ == ValueModel::Float32(x) && v@.value_type()
                == GGUFValueType::Float32,
            GGUFValue::Uint64(x) => v@ == ValueModel::Uint64(x) && v@.value_type()
                == GGUFValueType::Uint64,
            GGUFValue::Int64(x) => v@ == ValueModel::Int64(x) && v@.value_type()
                == GGUFValueType::Int64,
            GGUFValue::Float64(x) => v@ == ValueModel::Float64(x) && v@.value_type()
                == GGUFValueType::Float64,
            GGUFValue::Bool(x) => v@ == ValueModel::Bool(x) && v@.value_type()
                == GGUFValueType::Bool,
            GGUFValue::String(s) => v@ == ValueModel::String(s@) && v@.value_type()
                == GGUFValueType::String,
            GGUFValue::Array(items) => {
                &&& v@ matches ValueModel::Array(contents)
                &&& contents.len() == items@.len()
                &&& forall|i: int| 0 <= i < items@.len() ==> #[trigger] contents[i] == items@[i]@
                &&& v@.value_type() == GGUFValueType::Array
            },
        },
{
    if let GGUFValue::Array(items) = v {
        gguf_value::lemma_array_view(items);
    }
}

/// A value that is no array can always be written. A number is written in as many bytes as its
/// type has, the lowest first, a negative one in two's complement and a floating-point one by its
/// bit pattern; a truth value as one byte; a string as the length of its UTF-8 encoding in eight
/// bytes and the encoding.
pub proof fn law_scalar_bytes(v: ValueModel)
    requires
        v matches ValueModel::String(s) ==> vstd::utf8::encode_utf8(s).len() <= u64::MAX,
    ensures
        v !is Array ==> v.emission().complete,
        ({
            let b = v.emission().bytes;
            match v {
                ValueModel::Uint8(x) => b.len() == 1 && number_at(b, 0, 1) == x,
                ValueModel::Int8(x) => b.len() == 1 && number_at(b, 0, 1) == if x >= 0 {
                    x as int
                } else {
                    x + 0x100
                },
                ValueModel::Uint16(x) => b.len() == 2 && number_at(b, 0, 2) == x,
                ValueModel::Int16(x) => b.len() == 2 && number_at(b, 0, 2) == if x >= 0 {
                    x as int
                } else {
                    x + 0x1_0000
                },
                ValueModel::Uint32(x) => b.len() == 4 && number_at(b, 0, 4) == x,
                ValueModel::Int32(x) => b.len() == 4 && number_at(b, 0, 4) == if x >= 0 {
                    x as int
                } else {
                    x + 0x1_0000_0000
                },
                ValueModel::Float32(x) => b.len() == 4 && number_at(b, 0, 4) == x,
                ValueModel::Uint64(x) => b.len() == 8 && number_at(b, 0, 8) == x,
                ValueModel::Int64(x) => b.len() == 8 && number_at(b, 0, 8) == if x >= 0 {
                    x as int
                } else {
                    x + 0x1_0000_0000_0000_0000
                },
                ValueModel::Float64(x) => b.len() == 8 && number_at(b, 0, 8) == x,
                ValueModel::Bool(x) => b.len() == 1 && (x ==> b[0] == 1) && (!x ==> b[0] == 0),
                ValueModel::String(s) => {
                    &&& b.len() == 8 + vstd::utf8::encode_utf8(s).len()
                    &&& number_at(b, 0, 8) == vstd::utf8::encode_utf8(s).len()
                    &&& b.skip(8) == vstd::utf8::encode_utf8(s)
                },
                ValueModel::Array(_) => true,
            }
        }),
{
    le::lemma_byte_ranges();
    match v {
        ValueModel::Uint8(x) => lemma_number_alone(x as nat, 1),
        ValueModel::Int8(x) => lemma_number_alone(le::twos_complement(x as int, 1), 1),
        ValueModel::Uint16(x) => lemma_number_alone(x as nat, 2),
        ValueModel::Int16(x) => lemma_number_alone(le::twos_complement(x as int, 2), 2),
        ValueModel::Uint32(x) => lemma_number_alone(x as nat, 4),
        ValueModel::Int32(x) => lemma_number_alone(le::twos_complement(x as int, 4), 4),
        ValueModel::Float32(x) => lemma_number_alone(x as nat, 4),
        ValueModel::Uint64(x) => lemma_number_alone(x as nat, 8),
        ValueModel::Int64(x) => lemma_number_alone(le::twos_complement(x as int, 8), 8),
        ValueModel::Float64(x) => lemma_number_alone(x as nat, 8),
        ValueModel::Bool(x) => {
            reveal_with_fuel(le::le_bytes, 2);
        },
        ValueModel::String(s) => law_string_bytes(s),
        ValueModel::Array(_) => {},
    }
}

/// A string is written as the length of its UTF-8 encoding in eight bytes and the encoding.
pub proof fn law_string_bytes(s: Seq<char>)
    requires
        vstd::utf8::encode_utf8(s).len() <= u64::MAX,
    ensures
        ({
            let b = gguf_value::string_bytes(s);
            &&& b.len() == 8 + vstd::utf8::encode_utf8(s).len()
            &&& number_at(b, 0, 8) == vstd::utf8::encode_utf8(s).len()
            &&& b.skip(8) == vstd::utf8::encode_utf8(s)
        }),
{
    le::lemma_byte_ranges();
    let e = vstd::utf8::encode_utf8(s);
    lemma_number_between(Seq::empty(), e.len(), 8, e);
    le::lemma_le_bytes_len(e.len(), 8);
    let b = gguf_value::string_bytes(s);
    assert(Seq::<u8>::empty() + le::le_bytes(e.len(), 8) + e =~= b);
    assert(b.skip(8) =~= e);
}

/// An empty array is twelve zero bytes.
pub proof fn law_empty_array_bytes()
    ensures
        ValueModel::Array(Seq::empty()).emission().complete,
        ValueModel::Array(Seq::empty()).emission().bytes.len() == 12,
        forall|i: int|
            0 <= i < 12 ==> #[trigger] ValueModel::Array(Seq::empty()).emission().bytes[i] == 0,
{
    let items = Seq::<ValueModel>::empty();
    assert(gguf_value::items_emission(items, GGUFValueType::Uint8).bytes =~= Seq::empty());
    reveal_with_fuel(le::le_bytes, 9);
    let b = ValueModel::Array(items).emission().bytes;
    assert(b =~= Seq::new(12, |i: int| 0u8));
}

/// An array begins with the number of the type of its first element in four bytes and the number
/// of its elements in eight. With one more element of the same type, what is written of that
/// element follows. With one of another type, or behind an element that could not be written,
/// nothing follows.
pub proof fn law_array_bytes(items: Seq<ValueModel>, last: ValueModel)
    requires
        items.len() < u64::MAX,
    ensures
        ({
            let before = ValueModel::Array(items).emission();
            let after = ValueModel::Array(items.push(last)).emission();
            let t = if items.len() == 0 {
                last.value_type()
            } else {
                items[0].value_type()
            };
            &&& after.bytes.len() >= 12
            &&& number_at(after.bytes, 0, 4) == gguf_value::value_type_code(t)
            &&& number_at(after.bytes, 4, 8) == items.len() + 1
            &&& if before.complete && last.value_type() == t {
                &&& after.complete == last.emission().complete
                &&& after.bytes.skip(12) == before.bytes.skip(12) + last.emission().bytes
            } else {
                &&& !after.complete
                &&& after.bytes.skip(12) == before.bytes.skip(12)
            }
        }),
{
    le::lemma_byte_ranges();
    let all = items.push(last);
    assert(all.drop_last() =~= items);
    assert(all[0] == if items.len() == 0 {
        last
    } else {
        items[0]
    });
    let t = all[0].value_type();
    let u = if items.len() == 0 {
        GGUFValueType::Uint8
    } else {
        t
    };
    let code = gguf_value::value_type_code(t) as nat;
    let body = gguf_value::items_emission(all, t).bytes;
    let after = ValueModel::Array(all).emission();
    let before = ValueModel::Array(items).emission();
    lemma_number_between(Seq::empty(), code, 4, le::le_bytes(all.len(), 8) + body);
    lemma_number_between(le::le_bytes(code, 4), all.len(), 8, body);
    le::lemma_le_bytes_len(code, 4);
    le::lemma_le_bytes_len(all.len(), 8);
    le::lemma_le_bytes_len(gguf_value::value_type_code(u) as nat, 4);
    le::lemma_le_bytes_len(items.len(), 8);
    assert(Seq::<u8>::empty() + le::le_bytes(code, 4) + (le::le_bytes(all.len(), 8) + body)
        =~= after.bytes);
    assert(after.bytes.skip(12) =~= body);
    assert(before.bytes.skip(12) =~= gguf_value::items_emission(items, u).bytes);
    if items.len() == 0 {
        assert(items =~= Seq::empty());
        assert(gguf_value::items_emission(items, t).bytes =~= gguf_value::items_emission(
            items,
            u,
        ).bytes);
    }
}

/// A metadata pair is its key as a string, the number of the type of its value in four bytes, and
/// the value; it can be written exactly when the value can.
pub proof fn law_pair_bytes(key: Seq<char>, value: ValueModel)
    ensures
        ({
            let e = gguf_value::kv_emission(key, value);
            let k = gguf_value::string_bytes(key);
            &&& e.complete == value.emission().complete
            &&& e.bytes.len() == k.len() + 4 + value.emission().bytes.len()
            &&& e.bytes.take(k.len() as int) == k
            &&& number_at(e.bytes, k.len() as int, 4) == gguf_value::value_type_code(
                value.value_type(),
            )
            &&& e.bytes.skip(k.len() as int + 4) == value.emission().bytes
        }),
{
    le::lemma_byte_ranges();
    let k = gguf_value::string_bytes(key);
    let v = value.emission().bytes;
    let code = gguf_value::value_type_code(value.value_type()) as nat;
    let b = gguf_value::kv_emission(key, value).bytes;
    lemma_number_between(k, code, 4, v);
    le::lemma_le_bytes_len(code, 4);
    assert(b.take(k.len() as int) =~= k);
    assert(b.skip(k.len() as int + 4) =~= v);
}

/// Floating-point values are equal as numbers: a not-a-number equals nothing, zero equals zero of
/// either sign, and other numbers equal themselves alone.
pub proof fn law_equal_floats(a: u32, b: u32, c: u64, d: u64)
    ensures
        gguf_value::equal_values(ValueModel::Float32(a), ValueModel::Float32(b)) <==> {
            ||| (a == b && !(0x7f80_0000 < a < 0x8000_0000) && !(0xff80_0000 < a))
            ||| (a == 0 && b == 0x8000_0000)
            ||| (a == 0x8000_0000 && b == 0)
        },
        gguf_value::equal_values(ValueModel::Float64(c), ValueModel::Float64(d)) <==> {
            ||| (c == d && !(0x7ff0_0000_0000_0000 < c < 0x8000_0000_0000_0000) && !(
            0xfff0_0000_0000_0000 < c))
            ||| (c == 0 && d == 0x8000_0000_0000_0000)
            ||| (c == 0x8000_0000_0000_0000 && d == 0)
        },
{
}

/// Arrays are equal where they have as many elements and each equals the one in its place; values
/// of different types are not; all other values are equal where they are the same.
pub proof fn law_equal_values(a: ValueModel, b: ValueModel)
    ensures
        a.value_type() != b.value_type() ==> !gguf_value::equal_values(a, b),
        a !is Array && a !is Float32 && a !is Float64 ==> (gguf_value::equal_values(a, b) <==> a
            == b),
        a is Array && b is Array ==> (gguf_value::equal_values(a, b) <==> a->Array_0.len()
            == b->Array_0.len() && forall|i: int|
            0 <= i < a->Array_0.len() ==> gguf_value::equal_values(
                #[trigger] a->Array_0[i],
                b->Array_0[i],
            )),
{
}

/// The content of a tensor info is the info itself.
pub proof fn law_info_content(info: TensorInfo, offset: u64)
    ensures
        info@.name == info.name@,
        info@.dimensions == info.dimensions@,
        info@.ggml_type == info.ggml_type,
        info@.offset == info.offset,
        info@.at(offset).name == info.name@,
        info@.at(offset).dimensions == info.dimensions@,
        info@.at(offset).ggml_type == info.ggml_type,
        info@.at(offset).offset == offset,
{
}

/// Dimension `i` of several stands in the eight bytes at `8 * i`.
proof fn lemma_u64s_at(s: Seq<u64>, i: int)
    requires
        0 <= i < s.len(),
    ensures
        gguf_tensor::u64s_bytes(s).len() == 8 * s.len(),
        number_at(gguf_tensor::u64s_bytes(s), 8 * i, 8) == s[i],
    decreases s.len(),
{
    le::lemma_byte_ranges();
    let front = s.drop_last();
    lemma_u64s_len(front);
    lemma_u64s_len(s);
    let b = gguf_tensor::u64s_bytes(s);
    let f = gguf_tensor::u64s_bytes(front);
    if i == s.len() - 1 {
        lemma_number_between(f, s[i] as nat, 8, Seq::empty());
        assert(f + le::le_bytes(s[i] as nat, 8) + Seq::<u8>::empty() =~= b);
    } else {
        lemma_u64s_at(front, i);
        assert(b.subrange(8 * i, 8 * i + 8) =~= f.subrange(8 * i, 8 * i + 8));
    }
}

proof fn lemma_u64s_len(s: Seq<u64>)
    ensures
        gguf_tensor::u64s_bytes(s).len() == 8 * s.len(),
    decreases s.len(),
{
    if s.len() > 0 {
        lemma_u64s_len(s.drop_last());
        le::lemma_le_bytes_len(s.last() as nat, 8);
    }
}

/// A tensor info is the name as a string, the number of dimensions in four bytes, which hold its
/// lower 32 bits, the dimensions
/// in eight bytes each from the last to the first, the number of the element type in four bytes,
/// and the offset in eight.
#[verifier::rlimit(40)]
pub proof fn law_info_bytes(info: TensorInfoModel, i: int)
    ensures
        ({
            let b = info.bytes();
            let name = gguf_value::string_bytes(info.name);
            let k = name.len() as int;
            let n = info.dimensions.len() as int;
            &&& b.len() == k + 4 + 8 * n + 4 + 8
            &&& b.take(k) == name
            &&& number_at(b, k, 4) == n % 0x1_0000_0000
            &&& 0 <= i < n ==> number_at(b, k + 4 + 8 * i, 8) == info.dimensions[n - 1 - i]
            &&& number_at(b, k + 4 + 8 * n, 4) == gguf_tensor::ggml_renamed_code(info.ggml_type)
            &&& number_at(b, k + 4 + 8 * n + 4, 8) == info.offset
        }),
{
    le::lemma_byte_ranges();
    let b = info.bytes();
    let name = gguf_value::string_bytes(info.name);
    let count = info.dimensions.len() % 0x1_0000_0000;
    let dims = info.dimensions.reverse();
    let code = gguf_tensor::ggml_renamed_code(info.ggml_type) as nat;
    let c = le::le_bytes(count, 4);
    let d = gguf_tensor::u64s_bytes(dims);
    let e = le::le_bytes(code, 4);
    let f = le::le_bytes(info.offset as nat, 8);
    le::lemma_le_bytes_len(count, 4);
    le::lemma_le_bytes_len(code, 4);
    le::lemma_le_bytes_len(info.offset as nat, 8);
    lemma_u64s_len(dims);
    assert(b == name + c + d + e + f);
    lemma_number_between(name, count, 4, d + e + f);
    assert(name + c + (d + e + f) =~= b);
    lemma_number_between(name + c + d, code, 4, f);
    lemma_number_between(name + c + d + e, info.offset as nat, 8, Seq::empty());
    assert(name + c + d + e + f + Seq::<u8>::empty() =~= b);
    assert(b.take(name.len() as int) =~= name);
    if 0 <= i < dims.len() {
        lemma_u64s_at(dims, i);
        let at = name.len() + 4 + 8 * i;
        assert(b.subrange(at, at + 8) =~= d.subrange(8 * i, 8 * i + 8));
    }
}

/// A header is the magic and the version in four bytes each, then the numbers of tensors and of
/// metadata pairs in eight bytes each.
pub proof fn law_header_bytes(h: GGUFHeader)
    ensures
        ({
            let b = gguf_writer::header_bytes(h);
            &&& b.len() == 24
            &&& number_at(b, 0, 4) == h.magic
            &&& number_at(b, 4, 4) == h.version
            &&& number_at(b, 8, 8) == h.tensor_count
            &&& number_at(b, 16, 8) == h.metadata_kv_count
        }),
{
    le::lemma_byte_ranges();
    let m = le::le_bytes(h.magic as nat, 4);
    let v = le::le_bytes(h.version as nat, 4);
    let t = le::le_bytes(h.tensor_count as nat, 8);
    let k = le::le_bytes(h.metadata_kv_count as nat, 8);
    le::lemma_le_bytes_len(h.magic as nat, 4);
    le::lemma_le_bytes_len(h.version as nat, 4);
    le::lemma_le_bytes_len(h.tensor_count as nat, 8);
    le::lemma_le_bytes_len(h.metadata_kv_count as nat, 8);
    let b = gguf_writer::header_bytes(h);
    lemma_number_between(Seq::empty(), h.magic as nat, 4, v + t + k);
    assert(Seq::<u8>::empty() + m + (v + t + k) =~= b);
    lemma_number_between(m, h.version as nat, 4, t + k);
    assert(m + v + (t + k) =~= b);
    lemma_number_between(m + v, h.tensor_count as nat, 8, k);
    lemma_number_between(m + v + t, h.metadata_kv_count as nat, 8, Seq::empty());
    assert(m + v + t + k + Seq::<u8>::empty() =~= b);
}

/// A new writer holds no metadata and no tensors, and its header is that of version 3; the magic
/// is the text "GGUF".
pub proof fn law_empty_writer()
    ensures
        gguf_writer::empty_writer().metadata.len() == 0,
        gguf_writer::empty_writer().tensor_infos.len() == 0,
        gguf_writer::empty_writer().header == gguf_writer::empty_header(),
        gguf_writer::empty_header().magic == 0x47 + 0x47 * 0x100 + 0x55 * 0x1_0000 + 0x46
            * 0x100_0000,
        gguf_writer::empty_header().version == 3,
        gguf_writer::empty_header().tensor_count == 0,
        gguf_writer::empty_header().metadata_kv_count == 0,
        gguf_writer::GGUF_MAGIC == 0x4655_4747,
        gguf_writer::GGUF_VERSION == 3,
        gguf_writer::GGUF_DEFAULT_ALIGNMENT == 32,
{
}

/// What is put out before the tensor infos is the header, with the numbers of tensors and of
/// metadata pairs that the writer holds, and then the metadata.
pub proof fn law_preamble(w: WriterModel)
    requires
        w.metadata.len() <= u64::MAX,
        w.tensor_infos.len() <= u64::MAX,
    ensures
        ({
            let b = w.preamble().bytes;
            let h = w.counted().header;
            &&& h.magic == w.header.magic
            &&& h.version == w.header.version
            &&& h.tensor_count == w.tensor_infos.len()
            &&& h.metadata_kv_count == w.metadata.len()
            &&& w.counted().metadata == w.metadata
            &&& w.counted().tensor_infos == w.tensor_infos
            &&& b.len() >= 24
            &&& b.take(24) == gguf_writer::header_bytes(h)
            &&& b.skip(24) == gguf_writer::metadata_emission(w.metadata).bytes
            &&& w.preamble().complete == gguf_writer::metadata_emission(w.metadata).complete
        }),
{
    law_header_bytes(w.counted().header);
    let b = w.preamble().bytes;
    assert(b.take(24) =~= gguf_writer::header_bytes(w.counted().header));
    assert(b.skip(24) =~= gguf_writer::metadata_emission(w.metadata).bytes);
}

/// Metadata is written pair by pair: one more pair follows what was written before, unless
/// something before it could not be written.
pub proof fn law_metadata_bytes(
    entries: Seq<(Seq<char>, ValueModel)>,
    key: Seq<char>,
    value: ValueModel,
)
    ensures
        gguf_writer::metadata_emission(Seq::empty()).complete,
        gguf_writer::metadata_emission(Seq::empty()).bytes.len() == 0,
        ({
            let before = gguf_writer::metadata_emission(entries);
            let after = gguf_writer::metadata_emission(entries.push((key, value)));
            let pair = gguf_value::kv_emission(key, value);
            if before.complete {
                after.bytes == before.bytes + pair.bytes && after.complete == pair.complete
            } else {
                after == before
            }
        }),
{
    assert(entries.push((key, value)).drop_last() =~= entries);
}

/// Tensor infos are written one by one.
pub proof fn law_infos_bytes(infos: Seq<TensorInfoModel>, info: TensorInfoModel)
    ensures
        gguf_writer::infos_bytes(Seq::empty()).len() == 0,
        gguf_writer::infos_bytes(infos.push(info)) == gguf_writer::infos_bytes(infos)
            + info.bytes(),
{
    assert(infos.push(info).drop_last() =~= infos);
}

/// A file is what comes before the tensor infos, the tensor infos, zero bytes up to the next
/// multiple of 32, and the tensor data.
pub proof fn law_file_parts(w: WriterModel, pos: nat, data: Seq<Seq<u8>>)
    ensures
        ({
            let p = w.preamble().bytes;
            let i = gguf_writer::infos_bytes(w.placed(pos, data).tensor_infos);
            let d = w.data_start(pos) - pos;
            let file = w.file(pos, data);
            &&& p.len() + i.len() <= d < p.len() + i.len() + 32
            &&& (pos + d) % 32 == 0
            &&& d <= file.len()
            &&& file.take(p.len() as int) == p
            &&& file.subrange(p.len() as int, (p.len() + i.len()) as int) == i
            &&& forall|k: int| p.len() + i.len() <= k < d ==> #[trigger] file[k] == 0
            &&& file.skip(d) == gguf_writer::data_section(w.data_start(pos), data)
        }),
{
    gguf_writer::lemma_infos_len(w.tensor_infos, w.data_start(pos), data);
    let p = w.preamble().bytes;
    let i = gguf_writer::infos_bytes(w.placed(pos, data).tensor_infos);
    let d = w.data_start(pos) - pos;
    let file = w.file(pos, data);
    assert(file.take(p.len() as int) =~= p);
    assert(file.subrange(p.len() as int, (p.len() + i.len()) as int) =~= i);
    assert(file.skip(d) =~= gguf_writer::data_section(w.data_start(pos), data));
}

/// Writing a file changes nothing about a writer but the counts in its header and the offsets of
/// its tensor infos.
pub proof fn law_placed_keeps_content(w: WriterModel, pos: nat, data: Seq<Seq<u8>>, i: int)
    requires
        0 <= i < w.tensor_infos.len(),
    ensures
        w.placed(pos, data).metadata == w.metadata,
        w.placed(pos, data).header == w.counted().header,
        w.placed(pos, data).tensor_infos.len() == w.tensor_infos.len(),
        w.placed(pos, data).tensor_infos[i].name == w.tensor_infos[i].name,
        w.placed(pos, data).tensor_infos[i].dimensions == w.tensor_infos[i].dimensions,
        w.placed(pos, data).tensor_infos[i].ggml_type == w.tensor_infos[i].ggml_type,
{
}

/// The first tensor starts where the tensor data does, and each further one at the first multiple
/// of 32 that is not before the end of the one before it.
pub proof fn law_offsets_step(start: nat, data: Seq<Seq<u8>>, i: int, other: nat)
    requires
        0 <= i < data.len(),
    ensures
        gguf_writer::tensor_offset(start, data, 0) == start,
        ({
            let end = gguf_writer::tensor_offset(start, data, i) + data[i].len();
            let next = gguf_writer::tensor_offset(start, data, i + 1);
            &&& next >= end
            &&& next % 32 == 0
            &&& other >= end && other % 32 == 0 ==> next <= other
        }),
{
}

/// The data of several tensors, one by one: behind the first, zero bytes fill the gap to the next
/// multiple of 32 before each.
pub proof fn law_section_step(start: nat, data: Seq<Seq<u8>>, last: Seq<u8>)
    ensures
        gguf_writer::data_section(start, Seq::empty()).len() == 0,
        gguf_writer::data_section(start, seq![last]) == last,
        data.len() > 0 ==> ({
            let before = gguf_writer::data_section(start, data);
            let after = gguf_writer::data_section(start, data.push(last));
            let gap = after.len() - before.len() - last.len();
            &&& 0 <= gap < 32
            &&& (start + before.len() + gap) % 32 == 0
            &&& after.take(before.len() as int) == before
            &&& forall|k: int|
                before.len() <= k < before.len() + gap ==> #[trigger] after[k] == 0
            &&& after.skip(before.len() + gap) == last
        }),
{
    assert(data.push(last).drop_last() =~= data);
    if data.len() > 0 {
        let before = gguf_writer::data_section(start, data);
        let after = gguf_writer::data_section(start, data.push(last));
        let gap = after.len() - before.len() - last.len();
        assert(after.take(before.len() as int) =~= before);
        assert(after.skip(before.len() + gap) =~= last);
    }
}

/// The positions of a file are 64-bit numbers exactly when the first multiple of 32 behind
/// everything is one; nothing is asked where no file comes about.
pub proof fn law_positions_fit(w: WriterModel, pos: nat, data: Seq<Seq<u8>>)
    ensures
        w.fits(pos, data) <==> (w.tensor_infos.len() == data.len() && w.preamble().complete ==> ({
            let start = w.data_start(pos);
            let n = data.len() as int;
            if n == 0 {
                start <= 0xffff_ffff_ffff_ffff
            } else {
                gguf_writer::tensor_offset(start, data, n) <= 0xffff_ffff_ffff_ffff
            }
        })),
{
}

/// A sink that a file was written to holds the file from its old position on, the header over its
/// first 24 bytes, and otherwise what it held.
pub proof fn law_finished_sink(s: sink::SinkState, file: Seq<u8>, h: GGUFHeader, k: int)
    requires
        s.pos <= s.bytes.len(),
        file.len() >= 24,
    ensures
        ({
            let r = gguf_writer::finished(s, file, gguf_writer::header_bytes(h));
            let head = gguf_writer::header_bytes(h);
            &&& r.pos == s.pos + file.len()
            &&& r.bytes.len() == if s.pos + file.len() > s.bytes.len() {
                s.pos + file.len()
            } else {
                s.bytes.len()
            }
            &&& 0 <= k < r.bytes.len() ==> r.bytes[k] == if k < 24 {
                head[k]
            } else if s.pos <= k < s.pos + file.len() {
                file[k - s.pos]
            } else {
                s.bytes[k]
            }
        }),
{
    law_header_bytes(h);
}

/// A pair is put in the place of one with the same key, or behind all others where there is none.
pub proof fn law_put_in_place(
    entries: Seq<(Seq<char>, ValueModel)>,
    key: Seq<char>,
    value: ValueModel,
    i: int,
)
    ensures
        gguf_writer::distinct_keys(entries) <==> forall|a: int, b: int|
            0 <= a < entries.len() && 0 <= b < entries.len() && a != b ==> (#[trigger] entries[a]).0
                != (#[trigger] entries[b]).0,
        ({
            let after = gguf_writer::put_entry(entries, key, value);
            if exists|j: int| 0 <= j < entries.len() && (#[trigger] entries[j]).0 == key {
                &&& after.len() == entries.len()
                &&& 0 <= i < entries.len() ==> after[i].0 == entries[i].0 && after[i].1
                    == if entries[i].0 == key {
                    value
                } else {
                    entries[i].1
                }
            } else {
                &&& after.len() == entries.len() + 1
                &&& after[entries.len() as int] == (key, value)
                &&& 0 <= i < entries.len() ==> after[i] == entries[i]
            }
        }),
{
    if forall|a: int, b: int|
        0 <= a < entries.len() && 0 <= b < entries.len() && a != b ==> (#[trigger] entries[a]).0
            != (#[trigger] entries[b]).0 {
        assert(gguf_writer::distinct_keys(entries));
    }
    if gguf_writer::distinct_keys(entries) {
        assert forall|a: int, b: int|
            0 <= a < entries.len() && 0 <= b < entries.len() && a != b implies (
        #[trigger] entries[a]).0 != (#[trigger] entries[b]).0 by {
            if a < b {
            } else {
                assert(entries[b].0 != entries[a].0);
            }
        }
    }
}

/// The contents of slices, infos and pairs are those of their elements, in order.
pub proof fn law_contents_in_order(
    data: Seq<&[u8]>,
    infos: Seq<TensorInfo>,
    entries: Seq<(String, GGUFValue)>,
    i: int,
)
    ensures
        gguf_writer::contents(data).len() == data.len(),
        gguf_writer::info_models(infos).len() == infos.len(),
        gguf_writer::entry_models(entries).len() == entries.len(),
        0 <= i < data.len() ==> gguf_writer::contents(data)[i] == data[i]@,
        0 <= i < infos.len() ==> gguf_writer::info_models(infos)[i] == infos[i]@,
        0 <= i < entries.len() ==> gguf_writer::entry_models(entries)[i].0 == entries[i].0@
            && gguf_writer::entry_models(entries)[i].1 == entries[i].1@,
{
}

} // verus!
