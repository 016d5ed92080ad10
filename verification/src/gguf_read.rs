//! How a GGUF file is read, and the proof that reading gives back what was written.

use crate::gguf_tensor;
use crate::gguf_tensor::{GGMLTypeRenamed, TensorInfoModel};
use crate::gguf_value;
use crate::gguf_value::{GGUFValueType, ValueModel};
use crate::gguf_writer;
use crate::gguf_writer::WriterModel;
use crate::le;
use vstd::prelude::*;

verus! {

/// Reads an unsigned number of `n` bytes; gives it with what follows.
pub open spec fn read_le(b: Seq<u8>, n: nat) -> Option<(nat, Seq<u8>)> {
    if b.len() < n {
        None
    } else {
        Some((le::le_value(b.take(n as int)), b.skip(n as int)))
    }
}

/// The signed number whose `n` bytes in two's complement are those of `v`.
pub open spec fn from_twos_complement(v: nat, n: nat) -> int {
    if 2 * v < le::byte_range(n) {
        v as int
    } else {
        v - le::byte_range(n)
    }
}

/// Reads a string.
pub open spec fn read_string(b: Seq<u8>) -> Option<(Seq<char>, Seq<u8>)> {
    match read_le(b, 8) {
        Some((n, rest)) => if rest.len() < n || !vstd::utf8::valid_utf8(rest.take(n as int)) {
            None
        } else {
            Some((vstd::utf8::decode_utf8(rest.take(n as int)), rest.skip(n as int)))
        },
        None => None,
    }
}

/// The value type that a number stands for.
pub open spec fn value_type_of(code: nat) -> Option<GGUFValueType> {
    if code == 0 {
        Some(GGUFValueType::Uint8)
    } else if code == 1 {
        Some(GGUFValueType::Int8)
    } else if code == 2 {
        Some(GGUFValueType::Uint16)
    } else if code == 3 {
        Some(GGUFValueType::Int16)
    } else if code == 4 {
        Some(GGUFValueType::Uint32)
    } else if code == 5 {
        Some(GGUFValueType::Int32)
    } else if code == 6 {
        Some(GGUFValueType::Float32)
    } else if code == 7 {
        Some(GGUFValueType::Bool)
    } else if code == 8 {
        Some(GGUFValueType::String)
    } else if code == 9 {
        Some(GGUFValueType::Array)
    } else if code == 10 {
        Some(GGUFValueType::Uint64)
    } else if code == 11 {
        Some(GGUFValueType::Int64)
    } else if code == 12 {
        Some(GGUFValueType::Float64)
    } else {
        None
    }
}

/// The element type that a number stands for.
pub open spec fn ggml_type_of(code: nat) -> Option<GGMLTypeRenamed> {
    if code == 0 {
        Some(GGMLTypeRenamed::F32)
    } else if code == 1 {
        Some(GGMLTypeRenamed::F16)
    } else if code == 2 {
        Some(GGMLTypeRenamed::Q4_0)
    } else if code == 3 {
        Some(GGMLTypeRenamed::Q4_1)
    } else if code == 6 {
        Some(GGMLTypeRenamed::Q5_0)
    } else if code == 7 {
        Some(GGMLTypeRenamed::Q5_1)
    } else if code == 8 {
        Some(GGMLTypeRenamed::Q8_0)
    } else if code == 9 {
        Some(GGMLTypeRenamed::Q8_1)
    } else if code == 10 {
        Some(GGMLTypeRenamed::Q2K)
    } else if code == 11 {
        Some(GGMLTypeRenamed::Q3K)
    } else if code == 12 {
        Some(GGMLTypeRenamed::Q4K)
    } else if code == 13 {
        Some(GGMLTypeRenamed::Q5K)
    } else if code == 14 {
        Some(GGMLTypeRenamed::Q6K)
    } else if code == 15 {
        Some(GGMLTypeRenamed::Q8K)
    } else if code == 16 {
        Some(GGMLTypeRenamed::I8)
    } else if code == 17 {
        Some(GGMLTypeRenamed::I16)
    } else if code == 18 {
        Some(GGMLTypeRenamed::I32)
    } else if code == 19 {
        Some(GGMLTypeRenamed::I64)
    } else if code == 20 {
        Some(GGMLTypeRenamed::F64)
    } else if code == 21 {
        Some(GGMLTypeRenamed::BF16)
    } else {
        None
    }
}

/// The number of bytes of a value of type `t`; zero for strings and arrays, whose size varies.
pub open spec fn scalar_size(t: GGUFValueType) -> nat {
    match t {
        GGUFValueType::Uint8 | GGUFValueType::Int8 | GGUFValueType::Bool => 1,
        GGUFValueType::Uint16 | GGUFValueType::Int16 => 2,
        GGUFValueType::Uint32 | GGUFValueType::Int32 | GGUFValueType::Float32 => 4,
        GGUFValueType::Uint64 | GGUFValueType::Int64 | GGUFValueType::Float64 => 8,
        GGUFValueType::String | GGUFValueType::Array => 0,
    }
}

/// The value of type `t`, no string and no array, whose bytes make up the number `v`.
pub open spec fn scalar_of(t: GGUFValueType, v: nat) -> ValueModel {
    match t {
        GGUFValueType::Uint8 => ValueModel::Uint8(v as u8),
        GGUFValueType::Int8 => ValueModel::Int8(from_twos_complement(v, 1) as i8),
        GGUFValueType::Uint16 => ValueModel::Uint16(v as u16),
        GGUFValueType::Int16 => ValueModel::Int16(from_twos_complement(v, 2) as i16),
        GGUFValueType::Uint32 => ValueModel::Uint32(v as u32),
        GGUFValueType::Int32 => ValueModel::Int32(from_twos_complement(v, 4) as i32),
        GGUFValueType::Float32 => ValueModel::Float32(v as u32),
        GGUFValueType::Uint64 => ValueModel::Uint64(v as u64),
        GGUFValueType::Int64 => ValueModel::Int64(from_twos_complement(v, 8) as i64),
        GGUFValueType::Float64 => ValueModel::Float64(v as u64),
        GGUFValueType::Bool => ValueModel::Bool(v != 0),
        GGUFValueType::String => arbitrary(),
        GGUFValueType::Array => arbitrary(),
    }
}

/// Reads a value of type `t`.
pub open spec fn read_value(t: GGUFValueType, b: Seq<u8>) -> Option<(ValueModel, Seq<u8>)>
    decreases b.len(), 0nat,
{
    match t {
        GGUFValueType::String => match read_string(b) {
            Some((s, rest)) => Some((ValueModel::String(s), rest)),
            None => None,
        },
        GGUFValueType::Array => match read_le(b, 4) {
            Some((code, rest)) => match (value_type_of(code), read_le(rest, 8)) {
                (Some(item_type), Some((n, items))) => match read_items(item_type, n, items) {
                    Some((a, rest)) => Some((ValueModel::Array(a), rest)),
                    None => None,
                },
                _ => None,
            },
            None => None,
        },
        _ => match read_le(b, scalar_size(t)) {
            Some((v, rest)) => Some((scalar_of(t, v), rest)),
            None => None,
        },
    }
}

/// Reads `n` values of type `t`.
pub open spec fn read_items(t: GGUFValueType, n: nat, b: Seq<u8>) -> Option<
    (Seq<ValueModel>, Seq<u8>),
>
    decreases b.len(), n + 1,
{
    if n == 0 {
        Some((Seq::empty(), b))
    } else {
        match read_value(t, b) {
            Some((first, rest)) => if rest.len() > b.len() {
                None
            } else {
                match read_items(t, (n - 1) as nat, rest) {
                    Some((others, rest)) => Some((seq![first] + others, rest)),
                    None => None,
                }
            },
            None => None,
        }
    }
}

/// Reads a metadata key-value pair.
#[verifier::opaque]
pub open spec fn read_kv(b: Seq<u8>) -> Option<((Seq<char>, ValueModel), Seq<u8>)> {
    match read_string(b) {
        Some((key, rest)) => match read_le(rest, 4) {
            Some((code, rest)) => match value_type_of(code) {
                Some(t) => match read_value(t, rest) {
                    Some((value, rest)) => Some(((key, value), rest)),
                    None => None,
                },
                None => None,
            },
            None => None,
        },
        None => None,
    }
}

/// Reads `n` metadata key-value pairs.
pub open spec fn read_metadata(n: nat, b: Seq<u8>) -> Option<
    (Seq<(Seq<char>, ValueModel)>, Seq<u8>),
>
    decreases n,
{
    if n == 0 {
        Some((Seq::empty(), b))
    } else {
        match read_kv(b) {
            Some((first, rest)) => match read_metadata((n - 1) as nat, rest) {
                Some((others, rest)) => Some((seq![first] + others, rest)),
                None => None,
            },
            None => None,
        }
    }
}

/// Reads `n` numbers of eight bytes.
pub open spec fn read_u64s(n: nat, b: Seq<u8>) -> Option<(Seq<u64>, Seq<u8>)>
    decreases n,
{
    if n == 0 {
        Some((Seq::empty(), b))
    } else {
        match read_le(b, 8) {
            Some((first, rest)) => match read_u64s((n - 1) as nat, rest) {
                Some((others, rest)) => Some((seq![first as u64] + others, rest)),
                None => None,
            },
            None => None,
        }
    }
}

/// Reads a tensor info.
#[verifier::opaque]
pub open spec fn read_info(b: Seq<u8>) -> Option<(TensorInfoModel, Seq<u8>)> {
    match read_string(b) {
        Some((name, rest)) => match read_le(rest, 4) {
            Some((n, rest)) => match read_u64s(n, rest) {
                Some((dims, rest)) => match read_le(rest, 4) {
                    Some((code, rest)) => match (ggml_type_of(code), read_le(rest, 8)) {
                        (Some(ggml_type), Some((offset, rest))) => Some(
                            (
                                TensorInfoModel {
                                    name,
                                    dimensions: dims.reverse(),
                                    ggml_type,
                                    offset: offset as u64,
                                },
                                rest,
                            ),
                        ),
                        _ => None,
                    },
                    None => None,
                },
                None => None,
            },
            None => None,
        },
        None => None,
    }
}

/// Reads `n` tensor infos.
pub open spec fn read_infos(n: nat, b: Seq<u8>) -> Option<(Seq<TensorInfoModel>, Seq<u8>)>
    decreases n,
{
    if n == 0 {
        Some((Seq::empty(), b))
    } else {
        match read_info(b) {
            Some((first, rest)) => match read_infos((n - 1) as nat, rest) {
                Some((others, rest)) => Some((seq![first] + others, rest)),
                None => None,
            },
            None => None,
        }
    }
}

/// What a reader learns from a file, apart from the tensor data.
#[verifier::ext_equal]
pub struct FileModel {
    pub magic: nat,
    pub version: nat,
    pub metadata: Seq<(Seq<char>, ValueModel)>,
    pub tensor_infos: Seq<TensorInfoModel>,
}

/// Reads a file up to the end of its tensor infos; gives what it says with what follows.
pub open spec fn read_file(b: Seq<u8>) -> Option<(FileModel, Seq<u8>)> {
    match read_le(b, 4) {
        Some((magic, rest)) => match read_le(rest, 4) {
            Some((version, rest)) => match read_le(rest, 8) {
                Some((tensor_count, rest)) => match read_le(rest, 8) {
                    Some((kv_count, rest)) => match read_metadata(kv_count, rest) {
                        Some((metadata, rest)) => match read_infos(tensor_count, rest) {
                            Some((tensor_infos, rest)) => Some(
                                (FileModel { magic, version, metadata, tensor_infos }, rest),
                            ),
                            None => None,
                        },
                        None => None,
                    },
                    None => None,
                },
                None => None,
            },
            None => None,
        },
        None => None,
    }
}

/// The lengths of the strings and arrays in a value are 64-bit numbers, as those of strings and
/// vectors in memory always are.
pub open spec fn bounded_value(v: ValueModel) -> bool
    decreases v,
{
    match v {
        ValueModel::String(s) => vstd::utf8::encode_utf8(s).len() <= u64::MAX,
        ValueModel::Array(items) => items.len() <= u64::MAX && forall|i: int|
            0 <= i < items.len() ==> bounded_value(#[trigger] items[i]),
        _ => true,
    }
}

/// The lengths in a writer's content are as those of strings and vectors in memory are, and no
/// tensor has more dimensions than a 32-bit number counts.
pub open spec fn bounded(w: WriterModel) -> bool {
    &&& w.metadata.len() <= u64::MAX
    &&& w.tensor_infos.len() <= u64::MAX
    &&& forall|i: int| 0 <= i < w.metadata.len() ==> bounded_entry(#[trigger] w.metadata[i])
    &&& forall|i: int| 0 <= i < w.tensor_infos.len() ==> bounded_info(#[trigger] w.tensor_infos[i])
}

/// The lengths in a metadata pair are 64-bit numbers.
pub open spec fn bounded_entry(entry: (Seq<char>, ValueModel)) -> bool {
    &&& vstd::utf8::encode_utf8(entry.0).len() <= u64::MAX
    &&& bounded_value(entry.1)
}

/// The lengths in a tensor info are numbers that their fields in a file can hold.
pub open spec fn bounded_info(info: TensorInfoModel) -> bool {
    &&& vstd::utf8::encode_utf8(info.name).len() <= u64::MAX
    &&& info.dimensions.len() <= u32::MAX
}

/// Concatenation can be grouped either way.
proof fn lemma_concat(a: Seq<u8>, b: Seq<u8>, c: Seq<u8>)
    ensures
        a + b + c == a + (b + c),
{
    assert(a + b + c =~= a + (b + c));
}

proof fn lemma_read_le(v: nat, n: nat, rest: Seq<u8>)
    requires
        v < le::byte_range(n),
    ensures
        read_le(le::le_bytes(v, n) + rest, n) == Some((v, rest)),
{
    le::lemma_le_bytes_len(v, n);
    le::law_le_read_after_write(v, n);
    let b = le::le_bytes(v, n) + rest;
    assert(b.take(n as int) =~= le::le_bytes(v, n));
    assert(b.skip(n as int) =~= rest);
}

proof fn lemma_read_string(s: Seq<char>, rest: Seq<u8>)
    requires
        vstd::utf8::encode_utf8(s).len() <= u64::MAX,
    ensures
        read_string(gguf_value::string_bytes(s) + rest) == Some((s, rest)),
{
    let e = vstd::utf8::encode_utf8(s);
    let b = gguf_value::string_bytes(s) + rest;
    le::lemma_byte_ranges();
    assert(b =~= le::le_bytes(e.len(), 8) + (e + rest));
    lemma_read_le(e.len(), 8, e + rest);
    assert((e + rest).take(e.len() as int) =~= e);
    assert((e + rest).skip(e.len() as int) =~= rest);
    vstd::utf8::encode_utf8_valid_utf8(s);
    vstd::utf8::encode_utf8_decode_utf8(s);
}

/// A complete sequence of array elements is its first element and then the others.
proof fn lemma_items_front(items: Seq<ValueModel>, t: GGUFValueType)
    requires
        items.len() > 0,
        gguf_value::items_emission(items, t).complete,
    ensures
        items[0].value_type() == t,
        items[0].emission().complete,
        gguf_value::items_emission(items.drop_first(), t).complete,
        gguf_value::items_emission(items, t).bytes == items[0].emission().bytes
            + gguf_value::items_emission(items.drop_first(), t).bytes,
    decreases items.len(),
{
    let front = items.drop_last();
    if items.len() == 1 {
        assert(front =~= Seq::empty());
        assert(items.drop_first() =~= Seq::empty());
    } else {
        lemma_items_front(front, t);
        assert(front.drop_first() =~= items.drop_first().drop_last());
        assert(items.drop_first().last() == items.last());
    }
    assert(gguf_value::items_emission(items, t).bytes =~= items[0].emission().bytes
        + gguf_value::items_emission(items.drop_first(), t).bytes);
}

/// Reading a value of the type that was written gives back the value.
#[verifier::rlimit(40)]
pub proof fn law_value_read_back(v: ValueModel, rest: Seq<u8>)
    requires
        v.emission().complete,
        bounded_value(v),
    ensures
        read_value(v.value_type(), v.emission().bytes + rest) == Some((v, rest)),
    decreases v, 0nat,
{
    le::lemma_byte_ranges();
    match v {
        ValueModel::Uint8(x) => lemma_read_le(x as nat, 1, rest),
        ValueModel::Int8(x) => lemma_read_le(le::twos_complement(x as int, 1), 1, rest),
        ValueModel::Uint16(x) => lemma_read_le(x as nat, 2, rest),
        ValueModel::Int16(x) => lemma_read_le(le::twos_complement(x as int, 2), 2, rest),
        ValueModel::Uint32(x) => lemma_read_le(x as nat, 4, rest),
        ValueModel::Int32(x) => lemma_read_le(le::twos_complement(x as int, 4), 4, rest),
        ValueModel::Float32(x) => lemma_read_le(x as nat, 4, rest),
        ValueModel::Uint64(x) => lemma_read_le(x as nat, 8, rest),
        ValueModel::Int64(x) => lemma_read_le(le::twos_complement(x as int, 8), 8, rest),
        ValueModel::Float64(x) => lemma_read_le(x as nat, 8, rest),
        ValueModel::Bool(x) => lemma_read_le(
            if x {
                1
            } else {
                0
            },
            1,
            rest,
        ),
        ValueModel::String(s) => lemma_read_string(s, rest),
        ValueModel::Array(items) => {
            let t = if items.len() == 0 {
                GGUFValueType::Uint8
            } else {
                items[0].value_type()
            };
            let code = gguf_value::value_type_code(t) as nat;
            let a = le::le_bytes(code, 4);
            let b = le::le_bytes(items.len(), 8);
            let c = gguf_value::items_emission(items, t).bytes;
            assert(v.emission().bytes + rest =~= a + (b + (c + rest)));
            lemma_read_le(code, 4, b + (c + rest));
            lemma_read_le(items.len(), 8, c + rest);
            lemma_items_read_back(items, t, rest);
        },
    }
}

proof fn lemma_items_read_back(items: Seq<ValueModel>, t: GGUFValueType, rest: Seq<u8>)
    requires
        gguf_value::items_emission(items, t).complete,
        forall|i: int| 0 <= i < items.len() ==> bounded_value(#[trigger] items[i]),
    ensures
        read_items(t, items.len(), gguf_value::items_emission(items, t).bytes + rest) == Some(
            (items, rest),
        ),
    decreases items, items.len() + 1,
{
    let b = gguf_value::items_emission(items, t).bytes + rest;
    if items.len() == 0 {
        assert(b =~= rest);
        assert(items =~= Seq::empty());
    } else {
        lemma_items_front(items, t);
        let others = items.drop_first();
        let after = gguf_value::items_emission(others, t).bytes + rest;
        assert(b =~= items[0].emission().bytes + after);
        law_value_read_back(items[0], after);
        assert forall|i: int| 0 <= i < others.len() implies bounded_value(#[trigger] others[i]) by {
            assert(others[i] == items[i + 1]);
        }
        lemma_items_read_back(others, t, rest);
        assert(seq![items[0]] + others =~= items);
    }
}

/// Reading a metadata pair gives back its key and its value.
pub proof fn law_kv_read_back(key: Seq<char>, value: ValueModel, rest: Seq<u8>)
    requires
        gguf_value::kv_emission(key, value).complete,
        vstd::utf8::encode_utf8(key).len() <= u64::MAX,
        bounded_value(value),
    ensures
        read_kv(gguf_value::kv_emission(key, value).bytes + rest) == Some(((key, value), rest)),
{
    reveal(read_kv);
    le::lemma_byte_ranges();
    let code = gguf_value::value_type_code(value.value_type()) as nat;
    let b = value.emission().bytes;
    assert(gguf_value::kv_emission(key, value).bytes + rest =~= gguf_value::string_bytes(key) + (
    le::le_bytes(code, 4) + (b + rest)));
    lemma_read_string(key, le::le_bytes(code, 4) + (b + rest));
    lemma_read_le(code, 4, b + rest);
    law_value_read_back(value, rest);
}

/// Complete metadata is its first pair and then the others.
proof fn lemma_metadata_front(entries: Seq<(Seq<char>, ValueModel)>)
    requires
        entries.len() > 0,
        gguf_writer::metadata_emission(entries).complete,
    ensures
        gguf_value::kv_emission(entries[0].0, entries[0].1).complete,
        gguf_writer::metadata_emission(entries.drop_first()).complete,
        gguf_writer::metadata_emission(entries).bytes == gguf_value::kv_emission(
            entries[0].0,
            entries[0].1,
        ).bytes + gguf_writer::metadata_emission(entries.drop_first()).bytes,
    decreases entries.len(),
{
    let front = entries.drop_last();
    if entries.len() == 1 {
        assert(front =~= Seq::empty());
        assert(entries.drop_first() =~= Seq::empty());
    } else {
        lemma_metadata_front(front);
        assert(front.drop_first() =~= entries.drop_first().drop_last());
        assert(entries.drop_first().last() == entries.last());
    }
    assert(gguf_writer::metadata_emission(entries).bytes =~= gguf_value::kv_emission(
        entries[0].0,
        entries[0].1,
    ).bytes + gguf_writer::metadata_emission(entries.drop_first()).bytes);
}

/// Reading metadata gives back the pairs in order.
pub proof fn law_metadata_read_back(entries: Seq<(Seq<char>, ValueModel)>, rest: Seq<u8>)
    requires
        gguf_writer::metadata_emission(entries).complete,
        forall|i: int| 0 <= i < entries.len() ==> bounded_entry(#[trigger] entries[i]),
    ensures
        read_metadata(entries.len(), gguf_writer::metadata_emission(entries).bytes + rest) == Some(
            (entries, rest),
        ),
    decreases entries.len(),
{
    let b = gguf_writer::metadata_emission(entries).bytes + rest;
    if entries.len() == 0 {
        assert(b =~= rest);
        assert(entries =~= Seq::empty());
    } else {
        lemma_metadata_front(entries);
        let others = entries.drop_first();
        let after = gguf_writer::metadata_emission(others).bytes + rest;
        let first = gguf_value::kv_emission(entries[0].0, entries[0].1).bytes;
        lemma_concat(first, gguf_writer::metadata_emission(others).bytes, rest);
        assert(bounded_entry(entries[0]));
        law_kv_read_back(entries[0].0, entries[0].1, after);
        assert forall|i: int| 0 <= i < others.len() implies bounded_entry(#[trigger] others[i]) by {
            assert(others[i] == entries[i + 1]);
        }
        law_metadata_read_back(others, rest);
        assert(seq![entries[0]] + others =~= entries);
    }
}

/// Numbers in a file are the first one and then the others.
proof fn lemma_u64s_front(s: Seq<u64>)
    requires
        s.len() > 0,
    ensures
        gguf_tensor::u64s_bytes(s) == le::le_bytes(s[0] as nat, 8) + gguf_tensor::u64s_bytes(
            s.drop_first(),
        ),
    decreases s.len(),
{
    let front = s.drop_last();
    if s.len() == 1 {
        assert(front =~= Seq::empty());
        assert(s.drop_first() =~= Seq::empty());
    } else {
        lemma_u64s_front(front);
        assert(front.drop_first() =~= s.drop_first().drop_last());
        assert(s.drop_first().last() == s.last());
    }
    assert(gguf_tensor::u64s_bytes(s) =~= le::le_bytes(s[0] as nat, 8) + gguf_tensor::u64s_bytes(
        s.drop_first(),
    ));
}

proof fn lemma_u64s_read_back(s: Seq<u64>, rest: Seq<u8>)
    ensures
        read_u64s(s.len(), gguf_tensor::u64s_bytes(s) + rest) == Some((s, rest)),
    decreases s.len(),
{
    let b = gguf_tensor::u64s_bytes(s) + rest;
    if s.len() == 0 {
        assert(b =~= rest);
        assert(s =~= Seq::empty());
    } else {
        lemma_u64s_front(s);
        le::lemma_byte_ranges();
        let others = s.drop_first();
        let after = gguf_tensor::u64s_bytes(others) + rest;
        assert(b =~= le::le_bytes(s[0] as nat, 8) + after);
        lemma_read_le(s[0] as nat, 8, after);
        lemma_u64s_read_back(others, rest);
        assert(seq![s[0]] + others =~= s);
    }
}

/// Reading a tensor info gives it back, with the dimensions in the order they were given in.
#[verifier::rlimit(40)]
pub proof fn law_info_read_back(info: TensorInfoModel, rest: Seq<u8>)
    requires
        bounded_info(info),
    ensures
        read_info(info.bytes() + rest) == Some((info, rest)),
{
    reveal(read_info);
    le::lemma_byte_ranges();
    let n = info.dimensions.len();
    let dims = info.dimensions.reverse();
    let code = gguf_tensor::ggml_renamed_code(info.ggml_type) as nat;
    let name = gguf_value::string_bytes(info.name);
    let e = le::le_bytes(info.offset as nat, 8) + rest;
    let d = le::le_bytes(code, 4) + e;
    let c = gguf_tensor::u64s_bytes(dims) + d;
    let b = le::le_bytes(n, 4) + c;
    assert(n % 0x1_0000_0000 == n);
    assert(info.bytes() + rest =~= name + b);
    lemma_read_string(info.name, b);
    lemma_read_le(n, 4, c);
    lemma_u64s_read_back(dims, d);
    lemma_read_le(code, 4, e);
    lemma_read_le(info.offset as nat, 8, rest);
    assert(dims.reverse() =~= info.dimensions);
}

/// Tensor infos in a file are the first one and then the others.
proof fn lemma_infos_front(infos: Seq<TensorInfoModel>)
    requires
        infos.len() > 0,
    ensures
        gguf_writer::infos_bytes(infos) == infos[0].bytes() + gguf_writer::infos_bytes(
            infos.drop_first(),
        ),
    decreases infos.len(),
{
    let front = infos.drop_last();
    if infos.len() == 1 {
        assert(front =~= Seq::empty());
        assert(infos.drop_first() =~= Seq::empty());
    } else {
        lemma_infos_front(front);
        assert(front.drop_first() =~= infos.drop_first().drop_last());
        assert(infos.drop_first().last() == infos.last());
    }
    assert(gguf_writer::infos_bytes(infos) =~= infos[0].bytes() + gguf_writer::infos_bytes(
        infos.drop_first(),
    ));
}

/// Reading tensor infos gives them back in order.
pub proof fn law_infos_read_back(infos: Seq<TensorInfoModel>, rest: Seq<u8>)
    requires
        forall|i: int| 0 <= i < infos.len() ==> bounded_info(#[trigger] infos[i]),
    ensures
        read_infos(infos.len(), gguf_writer::infos_bytes(infos) + rest) == Some((infos, rest)),
    decreases infos.len(),
{
    let b = gguf_writer::infos_bytes(infos) + rest;
    if infos.len() == 0 {
        assert(b =~= rest);
        assert(infos =~= Seq::empty());
    } else {
        lemma_infos_front(infos);
        let others = infos.drop_first();
        let after = gguf_writer::infos_bytes(others) + rest;
        assert(b =~= infos[0].bytes() + after);
        law_info_read_back(infos[0], after);
        assert forall|i: int| 0 <= i < others.len() implies bounded_info(#[trigger] others[i]) by {
            assert(others[i] == infos[i + 1]);
        }
        law_infos_read_back(others, rest);
        assert(seq![infos[0]] + others =~= infos);
    }
}

/// The parts of a file, put together from the front and from the back.
proof fn lemma_regroup(
    magic: Seq<u8>,
    version: Seq<u8>,
    tensors: Seq<u8>,
    pairs: Seq<u8>,
    metadata: Seq<u8>,
    infos: Seq<u8>,
    padding: Seq<u8>,
    data: Seq<u8>,
)
    ensures
        (magic + version + tensors + pairs + metadata) + infos + padding + data == magic + (version
            + (tensors + (pairs + (metadata + (infos + (padding + data)))))),
{
    assert((magic + version + tensors + pairs + metadata) + infos + padding + data =~= magic + (
    version + (tensors + (pairs + (metadata + (infos + (padding + data)))))));
}

/// Reading a file gives back what the writer held: the magic and the version of its header, its
/// metadata in order, and its tensor infos in order with the positions of their data. Padding
/// and the tensor data follow.
pub proof fn law_file_read_back(w: WriterModel, pos: nat, data: Seq<Seq<u8>>)
    requires
        w.preamble().complete,
        bounded(w),
    ensures
        read_file(w.file(pos, data)) == Some(
            (
                FileModel {
                    magic: w.header.magic as nat,
                    version: w.header.version as nat,
                    metadata: w.metadata,
                    tensor_infos: w.placed(pos, data).tensor_infos,
                },
                gguf_writer::zeros(gguf_writer::padding_at(w.infos_end(pos)))
                    + gguf_writer::data_section(w.data_start(pos), data),
            ),
        ),
{
    le::lemma_byte_ranges();
    let infos = w.placed(pos, data).tensor_infos;
    let rest = gguf_writer::zeros(gguf_writer::padding_at(w.infos_end(pos)))
        + gguf_writer::data_section(w.data_start(pos), data);
    let f = gguf_writer::infos_bytes(infos) + rest;
    let e = gguf_writer::metadata_emission(w.metadata).bytes + f;
    let d = le::le_bytes(w.metadata.len(), 8) + e;
    let c = le::le_bytes(w.tensor_infos.len(), 8) + d;
    let b = le::le_bytes(w.header.version as nat, 4) + c;
    lemma_regroup(
        le::le_bytes(w.header.magic as nat, 4),
        le::le_bytes(w.header.version as nat, 4),
        le::le_bytes(w.tensor_infos.len(), 8),
        le::le_bytes(w.metadata.len(), 8),
        gguf_writer::metadata_emission(w.metadata).bytes,
        gguf_writer::infos_bytes(infos),
        gguf_writer::zeros(gguf_writer::padding_at(w.infos_end(pos))),
        gguf_writer::data_section(w.data_start(pos), data),
    );
    lemma_read_le(w.header.magic as nat, 4, b);
    lemma_read_le(w.header.version as nat, 4, c);
    lemma_read_le(w.tensor_infos.len(), 8, d);
    lemma_read_le(w.metadata.len(), 8, e);
    law_metadata_read_back(w.metadata, f);
    assert forall|i: int| 0 <= i < infos.len() implies bounded_info(#[trigger] infos[i]) by {
        assert(bounded_info(w.tensor_infos[i]));
    }
    law_infos_read_back(infos, rest);
}

/// The data of tensor `i` lies in the file at the position that its info gives.
pub proof fn law_data_at_offset(w: WriterModel, pos: nat, data: Seq<Seq<u8>>, i: int)
    requires
        w.preamble().complete,
        w.tensor_infos.len() == data.len(),
        w.fits(pos, data),
        0 <= i < data.len(),
    ensures
        ({
            let offset = w.placed(pos, data).tensor_infos[i].offset - pos;
            &&& 0 <= offset
            &&& offset + data[i].len() <= w.file(pos, data).len()
            &&& w.file(pos, data).subrange(offset, offset + data[i].len()) == data[i]
        }),
{
    let start = w.data_start(pos);
    let offset = gguf_writer::tensor_offset(start, data, i);
    gguf_writer::lemma_offsets_ascend(start, data, 0, i);
    gguf_writer::lemma_offsets_ascend(start, data, i, data.len() as int);
    gguf_writer::lemma_align_up(w.infos_end(pos));
    gguf_writer::lemma_infos_len(w.tensor_infos, start, data);
    lemma_section_holds(start, data, i);
    let head = w.preamble().bytes + gguf_writer::infos_bytes(w.placed(pos, data).tensor_infos)
        + gguf_writer::zeros(gguf_writer::padding_at(w.infos_end(pos)));
    let section = gguf_writer::data_section(start, data);
    let at = (offset - start) as int;
    assert(head.len() == start - pos);
    assert(w.file(pos, data) == head + section);
    assert((head + section).subrange(offset - pos, offset - pos + data[i].len())
        =~= section.subrange(at, at + data[i].len()));
}

/// The data section holds tensor `i` at its position.
proof fn lemma_section_holds(start: nat, data: Seq<Seq<u8>>, i: int)
    requires
        0 <= i < data.len(),
    ensures
        ({
            let at = gguf_writer::tensor_offset(start, data, i) - start;
            let section = gguf_writer::data_section(start, data);
            &&& 0 <= at
            &&& at + data[i].len() <= section.len()
            &&& section.subrange(at, at + data[i].len()) == data[i]
        }),
    decreases data.len(),
{
    let at = gguf_writer::tensor_offset(start, data, i) - start;
    let section = gguf_writer::data_section(start, data);
    let front = data.drop_last();
    gguf_writer::lemma_offsets_ascend(start, data, 0, i);
    if i < data.len() - 1 {
        lemma_section_holds(start, front, i);
        lemma_offset_prefix(start, data, front, i);
        let before = gguf_writer::data_section(start, front);
        assert(section.subrange(at, at + data[i].len()) =~= before.subrange(
            at,
            at + data[i].len(),
        ));
    } else {
        gguf_writer::lemma_section_end(start, data, i);
        assert(data.take(i + 1) =~= data);
        assert(section.subrange(at, at + data[i].len()) =~= data[i]);
    }
}

/// The position of a tensor depends only on the tensors before it.
pub proof fn lemma_offset_prefix(start: nat, data: Seq<Seq<u8>>, other: Seq<Seq<u8>>, i: int)
    requires
        forall|k: int| 0 <= k < i ==> data[k].len() == other[k].len(),
    ensures
        gguf_writer::tensor_offset(start, data, i) == gguf_writer::tensor_offset(start, other, i),
    decreases i,
{
    if i > 0 {
        lemma_offset_prefix(start, data, other, i - 1);
        assert(data[i - 1].len() == other[i - 1].len());
    }
}

} // verus!
