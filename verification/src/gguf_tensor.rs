//! Tensor infos of a GGUF file and their encoding.

use crate::error::GGUFWriteError;
use crate::gguf_value;
use crate::gguf_value::write_string;
use crate::le;
use crate::sink;
use crate::sink::ByteSink;
use vstd::prelude::*;

verus! {

/// The element types of tensors, under the names that ggml gives them.
#[derive(Debug, Clone, Copy, PartialEq, Eq, Structural)]
#[allow(non_camel_case_types)]
pub enum GGMLType {
    F32,
    F16,
    Q4_0,
    Q4_1,
    Q5_0,
    Q5_1,
    Q8_0,
    Q8_1,
    Q2_K,
    Q3_K,
    Q4_K,
    Q5_K,
    Q6_K,
    Q8_K,
    I8,
    I16,
    I32,
    I64,
    F64,
    BF16,
}

/// The number that stands for an element type in a file.
pub open spec fn ggml_code(t: GGMLType) -> u32 {
    match t {
        GGMLType::F32 => 0,
        GGMLType::F16 => 1,
        GGMLType::Q4_0 => 2,
        GGMLType::Q4_1 => 3,
        GGMLType::Q5_0 => 6,
        GGMLType::Q5_1 => 7,
        GGMLType::Q8_0 => 8,
        GGMLType::Q8_1 => 9,
        GGMLType::Q2_K => 10,
        GGMLType::Q3_K => 11,
        GGMLType::Q4_K => 12,
        GGMLType::Q5_K => 13,
        GGMLType::Q6_K => 14,
        GGMLType::Q8_K => 15,
        GGMLType::I8 => 16,
        GGMLType::I16 => 17,
        GGMLType::I32 => 18,
        GGMLType::I64 => 19,
        GGMLType::F64 => 20,
        GGMLType::BF16 => 21,
    }
}

impl GGMLType {
    /// The number that stands for the element type in a file.
    pub fn to_u32(self) -> (r: u32)
        ensures
            r == ggml_code(self),
    {
        match self {
            GGMLType::F32 => 0,
            GGMLType::F16 => 1,
            GGMLType::Q4_0 => 2,
            GGMLType::Q4_1 => 3,
            GGMLType::Q5_0 => 6,
            GGMLType::Q5_1 => 7,
            GGMLType::Q8_0 => 8,
            GGMLType::Q8_1 => 9,
            GGMLType::Q2_K => 10,
            GGMLType::Q3_K => 11,
            GGMLType::Q4_K => 12,
            GGMLType::Q5_K => 13,
            GGMLType::Q6_K => 14,
            GGMLType::Q8_K => 15,
            GGMLType::I8 => 16,
            GGMLType::I16 => 17,
            GGMLType::I32 => 18,
            GGMLType::I64 => 19,
            GGMLType::F64 => 20,
            GGMLType::BF16 => 21,
        }
    }
}

/// The element types of tensors, under names in camel case.
#[derive(Debug, Clone, Copy, PartialEq, Eq, Structural)]
#[allow(non_camel_case_types)]
pub enum GGMLTypeRenamed {
    F32,
    F16,
    Q4_0,
    Q4_1,
    Q5_0,
    Q5_1,
    Q8_0,
    Q8_1,
    Q2K,
    Q3K,
    Q4K,
    Q5K,
    Q6K,
    Q8K,
    I8,
    I16,
    I32,
    I64,
    F64,
    BF16,
}

/// The number that stands for an element type in a file.
pub open spec fn ggml_renamed_code(t: GGMLTypeRenamed) -> u32 {
    match t {
        GGMLTypeRenamed::F32 => 0,
        GGMLTypeRenamed::F16 => 1,
        GGMLTypeRenamed::Q4_0 => 2,
        GGMLTypeRenamed::Q4_1 => 3,
        GGMLTypeRenamed::Q5_0 => 6,
        GGMLTypeRenamed::Q5_1 => 7,
        GGMLTypeRenamed::Q8_0 => 8,
        GGMLTypeRenamed::Q8_1 => 9,
        GGMLTypeRenamed::Q2K => 10,
        GGMLTypeRenamed::Q3K => 11,
        GGMLTypeRenamed::Q4K => 12,
        GGMLTypeRenamed::Q5K => 13,
        GGMLTypeRenamed::Q6K => 14,
        GGMLTypeRenamed::Q8K => 15,
        GGMLTypeRenamed::I8 => 16,
        GGMLTypeRenamed::I16 => 17,
        GGMLTypeRenamed::I32 => 18,
        GGMLTypeRenamed::I64 => 19,
        GGMLTypeRenamed::F64 => 20,
        GGMLTypeRenamed::BF16 => 21,
    }
}

impl GGMLTypeRenamed {
    /// The number that stands for the element type in a file.
    pub fn to_u32(self) -> (r: u32)
        ensures
            r == ggml_renamed_code(self),
    {
        match self {
            GGMLTypeRenamed::F32 => 0,
            GGMLTypeRenamed::F16 => 1,
            GGMLTypeRenamed::Q4_0 => 2,
            GGMLTypeRenamed::Q4_1 => 3,
            GGMLTypeRenamed::Q5_0 => 6,
            GGMLTypeRenamed::Q5_1 => 7,
            GGMLTypeRenamed::Q8_0 => 8,
            GGMLTypeRenamed::Q8_1 => 9,
            GGMLTypeRenamed::Q2K => 10,
            GGMLTypeRenamed::Q3K => 11,
            GGMLTypeRenamed::Q4K => 12,
            GGMLTypeRenamed::Q5K => 13,
            GGMLTypeRenamed::Q6K => 14,
            GGMLTypeRenamed::Q8K => 15,
            GGMLTypeRenamed::I8 => 16,
            GGMLTypeRenamed::I16 => 17,
            GGMLTypeRenamed::I32 => 18,
            GGMLTypeRenamed::I64 => 19,
            GGMLTypeRenamed::F64 => 20,
            GGMLTypeRenamed::BF16 => 21,
        }
    }
}

/// What a file says about a tensor: its name, its dimensions, the type of its elements, and the
/// position of its data in the file.
#[derive(Debug)]
pub struct TensorInfo {
    pub name: String,
    pub dimensions: Vec<u64>,
    pub ggml_type: GGMLTypeRenamed,
    pub offset: u64,
}

/// The mathematical content of a tensor info.
#[verifier::ext_equal]
pub struct TensorInfoModel {
    pub name: Seq<char>,
    pub dimensions: Seq<u64>,
    pub ggml_type: GGMLTypeRenamed,
    pub offset: u64,
}

impl View for TensorInfo {
    type V = TensorInfoModel;

    open spec fn view(&self) -> TensorInfoModel {
        TensorInfoModel {
            name: self.name@,
            dimensions: self.dimensions@,
            ggml_type: self.ggml_type,
            offset: self.offset,
        }
    }
}

impl Clone for TensorInfo {
    /// An info with the same content.
    fn clone(&self) -> (r: TensorInfo)
        ensures
            r@ == self@,
    {
        let r = TensorInfo {
            name: self.name.clone(),
            dimensions: self.dimensions.clone(),
            ggml_type: self.ggml_type,
            offset: self.offset,
        };
        assert(r@ =~= self@);
        r
    }
}

/// Numbers in a file, eight bytes each.
pub open spec fn u64s_bytes(s: Seq<u64>) -> Seq<u8>
    decreases s.len(),
{
    if s.len() == 0 {
        Seq::empty()
    } else {
        u64s_bytes(s.drop_last()) + le::le_bytes(s.last() as nat, 8)
    }
}

impl TensorInfoModel {
    /// A tensor info in a file: the name, the number of dimensions in four bytes, the
    /// dimensions from the last to the first, the element type, the offset.
    pub open spec fn bytes(self) -> Seq<u8> {
        gguf_value::string_bytes(self.name) + le::le_bytes(
            self.dimensions.len() % 0x1_0000_0000,
            4,
        ) + u64s_bytes(self.dimensions.reverse()) + le::le_bytes(
            ggml_renamed_code(self.ggml_type) as nat,
            4,
        ) + le::le_bytes(self.offset as nat, 8)
    }

    /// The same info with another offset.
    pub open spec fn at(self, offset: u64) -> TensorInfoModel {
        TensorInfoModel { offset, ..self }
    }
}

/// Writes a single tensor info entry.
pub fn write_tensor_info(writer: &mut ByteSink, info: &TensorInfo) -> (r: Result<
    (),
    GGUFWriteError,
>)
    requires
        old(writer).wf(),
    ensures
        r is Ok,
        final(writer).wf(),
        final(writer)@ == old(writer)@.after_write(info@.bytes()),
{
    let ghost start = writer@;
    let ghost rev = info.dimensions@.reverse();
    let _ = write_string(writer, info.name.as_str());
    let ghost head = gguf_value::string_bytes(info.name@);
    let count: u64 = info.dimensions.len() as u64;
    assert(count as u32 == count % 0x1_0000_0000) by (bit_vector);
    writer.write_u32(
        #[verifier::truncate]
        (count as u32),
    );
    let ghost count_bytes = le::le_bytes(info.dimensions@.len() % 0x1_0000_0000, 4);
    proof {
        sink::lemma_write_write(start, head, count_bytes);
        assert(rev.take(0) =~= Seq::empty());
        assert(head + count_bytes + Seq::<u8>::empty() =~= head + count_bytes);
    }
    let mut i: usize = 0;
    while i < info.dimensions.len()
        invariant
            i <= info.dimensions@.len(),
            start == old(writer)@,
            start.wf(),
            writer.wf(),
            rev == info.dimensions@.reverse(),
            writer@ == start.after_write(head + count_bytes + u64s_bytes(rev.take(i as int))),
        decreases info.dimensions@.len() - i,
    {
        let dim: u64 = info.dimensions[info.dimensions.len() - 1 - i];
        writer.write_u64(dim);
        proof {
            let done = u64s_bytes(rev.take(i as int));
            let part = le::le_bytes(dim as nat, 8);
            assert(rev.take(i + 1).drop_last() =~= rev.take(i as int));
            assert(rev.take(i + 1).last() == dim);
            sink::lemma_write_write(start, head + count_bytes + done, part);
            assert(head + count_bytes + done + part =~= head + count_bytes + (done + part));
        }
        i = i + 1;
    }
    writer.write_u32(info.ggml_type.to_u32());
    writer.write_u64(info.offset);
    proof {
        assert(rev.take(i as int) =~= rev);
        let a = head + count_bytes + u64s_bytes(rev);
        let b = le::le_bytes(ggml_renamed_code(info.ggml_type) as nat, 4);
        let c = le::le_bytes(info.offset as nat, 8);
        sink::lemma_write_write(start, a, b);
        sink::lemma_write_write(start, a + b, c);
    }
    Ok(())
}

} // verus!
