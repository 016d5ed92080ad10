//! Conversion of SafeTensors model weights into GGUF v3 files.
//!
//! A SafeTensors file is loaded with [`load_safetensors`], a configuration is read with
//! [`parse_config`], and [`build_gguf`] puts the two together. [`GGUFWriter`] writes a GGUF file
//! from any metadata and tensors.

pub mod config;
pub mod config_parse;
pub mod conversion;
pub mod conversion_laws;
pub mod error;
pub mod format_laws;
pub mod gguf_laws;
pub mod gguf_read;
pub mod gguf_tensor;
pub mod gguf_value;
pub mod gguf_writer;
pub mod le;
pub mod metadata;
pub mod metadata_laws;
pub mod narrow;
pub mod safetensors_header;
pub mod safetensors_model;
pub mod sink;
pub mod text;

pub use crate::config::{ConfigNumber, ConfigValue};
pub use crate::config_parse::{parse_config, ConfigError};
pub use crate::conversion::{build_from_tensors, build_gguf, ggml_type_of, BuildError};
pub use crate::error::GGUFWriteError;
pub use crate::gguf_tensor::{write_tensor_info, GGMLType, GGMLTypeRenamed, TensorInfo};
pub use crate::gguf_value::{
    gguf_value_type_to_u32, write_metadata_kv, write_metadata_value, write_string, GGUFValue,
    GGUFValueType,
};
pub use crate::gguf_writer::{
    write_header, write_padding, write_tensor_data, GGUFHeader, GGUFWriter,
    GGUF_DEFAULT_ALIGNMENT, GGUF_MAGIC, GGUF_VERSION,
};
pub use crate::metadata::{
    add_metadata_field, get_arch_prefix, get_string, model_metadata, MetadataError,
};
pub use crate::narrow::narrow;
pub use crate::safetensors_model::{
    load_safetensors, FileRead, LoadError, SafeTensorDtype, SafeTensorView, SafeTensorsModel,
    TensorError,
};
pub use crate::sink::ByteSink;
