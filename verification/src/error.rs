//! Errors of the library.

use crate::gguf_value::GGUFValueType;
use crate::text;
use vstd::prelude::*;
use vstd::string::StringExecFns;

verus! {

/// What can go wrong when a GGUF file is put together.
#[derive(Debug)]
pub enum GGUFWriteError {
    /// An array of metadata values holds values of different types.
    InvalidMetadataValueType,
    /// There are not as many tensor infos as there are pieces of tensor data.
    TensorCountMismatch { info_count: usize, data_count: usize },
    /// A tensor has more dimensions than the format allows: its name, how many, and the limit.
    TooManyDimensions(String, usize, usize),
    /// A value of this type cannot be written.
    UnsupportedValue(GGUFValueType),
}

/// The name of a value type.
pub open spec fn value_type_name(t: GGUFValueType) -> Seq<char> {
    match t {
        GGUFValueType::Uint8 => "Uint8"@,
        GGUFValueType::Int8 => "Int8"@,
        GGUFValueType::Uint16 => "Uint16"@,
        GGUFValueType::Int16 => "Int16"@,
        GGUFValueType::Uint32 => "Uint32"@,
        GGUFValueType::Int32 => "Int32"@,
        GGUFValueType::Float32 => "Float32"@,
        GGUFValueType::Bool => "Bool"@,
        GGUFValueType::String => "String"@,
        GGUFValueType::Array => "Array"@,
        GGUFValueType::Uint64 => "Uint64"@,
        GGUFValueType::Int64 => "Int64"@,
        GGUFValueType::Float64 => "Float64"@,
    }
}

/// The name of a value type.
fn name_of_value_type(t: GGUFValueType) -> (r: &'static str)
    ensures
        r@ == value_type_name(t),
{
    match t {
        GGUFValueType::Uint8 => "Uint8",
        GGUFValueType::Int8 => "Int8",
        GGUFValueType::Uint16 => "Uint16",
        GGUFValueType::Int16 => "Int16",
        GGUFValueType::Uint32 => "Uint32",
        GGUFValueType::Int32 => "Int32",
        GGUFValueType::Float32 => "Float32",
        GGUFValueType::Bool => "Bool",
        GGUFValueType::String => "String",
        GGUFValueType::Array => "Array",
        GGUFValueType::Uint64 => "Uint64",
        GGUFValueType::Int64 => "Int64",
        GGUFValueType::Float64 => "Float64",
    }
}

impl GGUFWriteError {
    /// What the error says.
    pub open spec fn text(self) -> Seq<char> {
        match self {
            GGUFWriteError::InvalidMetadataValueType =>
                "Invalid metadata value type used in array or nested array detected"@,
            GGUFWriteError::TensorCountMismatch { info_count, data_count } =>
                "Tensor info count ("@ + text::decimal(info_count as nat)
                + ") does not match tensor data count ("@ + text::decimal(data_count as nat)
                + ")"@,
            GGUFWriteError::TooManyDimensions(name, count, limit) => "Tensor '"@ + name@
                + "' has too many dimensions ("@ + text::decimal(count as nat) + " > max "@
                + text::decimal(limit as nat) + ")"@,
            GGUFWriteError::UnsupportedValue(t) => "Unsupported GGUFValue for direct writing: "@
                + value_type_name(t),
        }
    }

    /// What the error says.
    pub fn message(&self) -> (r: String)
        ensures
            r@ == self.text(),
    {
        match self {
            GGUFWriteError::InvalidMetadataValueType =>
                "Invalid metadata value type used in array or nested array detected".to_owned(),
            GGUFWriteError::TensorCountMismatch { info_count, data_count } => {
                let mut r = "Tensor info count (".to_owned();
                r.append(text::decimal_text(*info_count as u64).as_str());
                r.append(") does not match tensor data count (");
                r.append(text::decimal_text(*data_count as u64).as_str());
                r.append(")");
                r
            },
            GGUFWriteError::TooManyDimensions(name, count, limit) => {
                let mut r = "Tensor '".to_owned();
                r.append(name.as_str());
                r.append("' has too many dimensions (");
                r.append(text::decimal_text(*count as u64).as_str());
                r.append(" > max ");
                r.append(text::decimal_text(*limit as u64).as_str());
                r.append(")");
                r
            },
            GGUFWriteError::UnsupportedValue(t) => text::concatenated(
                "Unsupported GGUFValue for direct writing: ",
                name_of_value_type(*t),
            ),
        }
    }
}

/// What each error of writing says: which rule is broken, and the numbers or names that break it.
pub proof fn law_write_error_texts(a: usize, b: usize, name: String, t: GGUFValueType)
    ensures
        GGUFWriteError::InvalidMetadataValueType.text()
            == "Invalid metadata value type used in array or nested array detected"@,
        (GGUFWriteError::TensorCountMismatch { info_count: a, data_count: b }).text()
            == "Tensor info count ("@ + (text::decimal(a as nat) + (
        ") does not match tensor data count ("@ + (text::decimal(b as nat) + ")"@))),
        GGUFWriteError::TooManyDimensions(name, a, b).text() == "Tensor '"@ + (name@ + (
        "' has too many dimensions ("@ + (text::decimal(a as nat) + (" > max "@ + (text::decimal(
            b as nat,
        ) + ")"@))))),
        GGUFWriteError::UnsupportedValue(t).text()
            == "Unsupported GGUFValue for direct writing: "@ + value_type_name(t),
{
}

/// The names of the value types.
pub proof fn law_value_type_names()
    ensures
        value_type_name(GGUFValueType::Uint8) == "Uint8"@,
        value_type_name(GGUFValueType::Int8) == "Int8"@,
        value_type_name(GGUFValueType::Uint16) == "Uint16"@,
        value_type_name(GGUFValueType::Int16) == "Int16"@,
        value_type_name(GGUFValueType::Uint32) == "Uint32"@,
        value_type_name(GGUFValueType::Int32) == "Int32"@,
        value_type_name(GGUFValueType::Float32) == "Float32"@,
        value_type_name(GGUFValueType::Bool) == "Bool"@,
        value_type_name(GGUFValueType::String) == "String"@,
        value_type_name(GGUFValueType::Array) == "Array"@,
        value_type_name(GGUFValueType::Uint64) == "Uint64"@,
        value_type_name(GGUFValueType::Int64) == "Int64"@,
        value_type_name(GGUFValueType::Float64) == "Float64"@,
{
}

} // verus!
