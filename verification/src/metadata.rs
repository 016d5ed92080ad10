//! The metadata of a model, taken from its configuration.

use crate::config::{ConfigValue, Json};
use crate::gguf_value::{GGUFValue, ValueModel};
use crate::gguf_writer;
use crate::gguf_writer::{GGUFWriter, WriterModel};
use crate::narrow;
use crate::text;
use vstd::prelude::*;
use vstd::string::StringExecFns;

verus! {

/// Why metadata could not be taken from a configuration.
#[derive(Debug)]
pub enum MetadataError {
    /// The value under this name is no string.
    NotAString { key: String },
    /// The value under `config_key` is negative and cannot be that of `gguf_key`.
    Negative { config_key: String, value: i64, gguf_key: String },
    /// The value under `config_key` is no number and cannot be that of `gguf_key`.
    UnexpectedType { config_key: String, found: ConfigValue, gguf_key: String },
    /// There must be a value under `config_key`.
    Missing { config_key: String },
}

/// The mathematical content of a `MetadataError`.
#[verifier::ext_equal]
pub enum MetadataFault {
    NotAString { key: Seq<char> },
    Negative { config_key: Seq<char>, value: i64, gguf_key: Seq<char> },
    UnexpectedType { config_key: Seq<char>, found: Json, gguf_key: Seq<char> },
    Missing { config_key: Seq<char> },
}

impl View for MetadataError {
    type V = MetadataFault;

    open spec fn view(&self) -> MetadataFault {
        match *self {
            MetadataError::NotAString { key } => MetadataFault::NotAString { key: key@ },
            MetadataError::Negative { config_key, value, gguf_key } => MetadataFault::Negative {
                config_key: config_key@,
                value,
                gguf_key: gguf_key@,
            },
            MetadataError::UnexpectedType { config_key, found, gguf_key } =>
                MetadataFault::UnexpectedType {
                config_key: config_key@,
                found: found@,
                gguf_key: gguf_key@,
            },
            MetadataError::Missing { config_key } => MetadataFault::Missing {
                config_key: config_key@,
            },
        }
    }
}

impl MetadataFault {
    /// What the error says. `shown` is how the value that was found prints; only an unexpected
    /// type is described with it.
    pub open spec fn text(self, shown: Seq<char>) -> Seq<char> {
        match self {
            MetadataFault::NotAString { key } => "Metadata key '"@ + key
                + "' is not a valid string"@,
            MetadataFault::Negative { config_key, value, gguf_key } => "Metadata key '"@
                + config_key + "' has negative value ("@ + text::signed_decimal(value as int)
                + ") unsuitable for GGUF key '"@ + gguf_key + "'"@,
            MetadataFault::UnexpectedType { config_key, gguf_key, .. } => "Metadata key '"@
                + config_key + "' has unexpected type '"@ + shown + "' for GGUF key '"@ + gguf_key
                + "'"@,
            MetadataFault::Missing { config_key } => "Missing required metadata key: "@
                + config_key,
        }
    }
}

impl MetadataError {
    /// What the error says. `shown` is how the value that was found prints; only an unexpected
    /// type is described with it.
    pub fn message(&self, shown: &str) -> (r: String)
        ensures
            r@ == self@.text(shown@),
    {
        match self {
            MetadataError::NotAString { key } => {
                let mut r = "Metadata key '".to_owned();
                r.append(key.as_str());
                r.append("' is not a valid string");
                r
            },
            MetadataError::Negative { config_key, value, gguf_key } => {
                let mut r = "Metadata key '".to_owned();
                r.append(config_key.as_str());
                r.append("' has negative value (");
                r.append(text::signed_decimal_text(*value).as_str());
                r.append(") unsuitable for GGUF key '");
                r.append(gguf_key.as_str());
                r.append("'");
                r
            },
            MetadataError::UnexpectedType { config_key, gguf_key, .. } => {
                let mut r = "Metadata key '".to_owned();
                r.append(config_key.as_str());
                r.append("' has unexpected type '");
                r.append(shown);
                r.append("' for GGUF key '");
                r.append(gguf_key.as_str());
                r.append("'");
                r
            },
            MetadataError::Missing { config_key } => text::concatenated(
                "Missing required metadata key: ",
                config_key.as_str(),
            ),
        }
    }
}

/// The first of the architectures that a configuration names.
pub open spec fn architecture(config: Json) -> Option<Seq<char>> {
    match config.get("architectures"@) {
        Some(list) => match list.first() {
            Some(name) => name.as_str(),
            None => None,
        },
        None => None,
    }
}

/// The type of model that a configuration names.
pub open spec fn model_type(config: Json) -> Option<Seq<char>> {
    match config.get("model_type"@) {
        Some(name) => name.as_str(),
        None => None,
    }
}

/// What the metadata keys of an architecture begin with. The first of the architectures decides
/// where there is one, and the model type otherwise.
pub open spec fn arch_prefix(config: Json) -> Option<Seq<char>> {
    match architecture(config) {
        Some(arch) => if text::occurs_in("Llama"@, arch) {
            Some("llama"@)
        } else if text::occurs_in("Mistral"@, arch) || text::occurs_in("Mixtral"@, arch) {
            Some("mistral"@)
        } else {
            None
        },
        None => match model_type(config) {
            Some(name) => if name == "llama"@ {
                Some("llama"@)
            } else if name == "mistral"@ || name == "mixtral"@ {
                Some("mistral"@)
            } else {
                None
            },
            None => None,
        },
    }
}

/// The first of the architectures that a configuration names.
fn first_architecture(config: &ConfigValue) -> (r: Option<&str>)
    ensures
        architecture(config@) == match r {
            Some(s) => Some(s@),
            None => None,
        },
{
    match config.get("architectures") {
        Some(list) => match list.first() {
            Some(name) => name.as_str(),
            None => None,
        },
        None => None,
    }
}

/// What the metadata keys of the configured architecture begin with.
pub fn get_arch_prefix(config: &ConfigValue) -> (r: Option<&'static str>)
    ensures
        arch_prefix(config@) == match r {
            Some(s) => Some(s@),
            None => None,
        },
{
    if let Some(arch) = first_architecture(config) {
        if text::contains(arch, "Llama") {
            Some("llama")
        } else if text::contains(arch, "Mistral") {
            Some("mistral")
        } else if text::contains(arch, "Mixtral") {
            Some("mistral")
        } else {
            None
        }
    } else {
        let model_type = match config.get("model_type") {
            Some(name) => name.as_str(),
            None => None,
        };
        if let Some(name) = model_type {
            if text::same_text(name, "llama") {
                Some("llama")
            } else if text::same_text(name, "mistral") {
                Some("mistral")
            } else if text::same_text(name, "mixtral") {
                Some("mistral")
            } else {
                None
            }
        } else {
            None
        }
    }
}

/// The text under `key`, where there is anything.
pub open spec fn string_at(config: Json, key: Seq<char>) -> Result<
    Option<Seq<char>>,
    MetadataFault,
> {
    match config.get(key) {
        Some(v) => match v.as_str() {
            Some(s) => Ok(Some(s)),
            None => Err(MetadataFault::NotAString { key }),
        },
        None => Ok(None),
    }
}

/// The text under `key`; nothing where there is nothing, and an error where there is no text.
pub fn get_string(config: &ConfigValue, key: &str) -> (r: Result<Option<String>, MetadataError>)
    ensures
        string_at(config@, key@) == match r {
            Ok(Some(s)) => Ok::<Option<Seq<char>>, MetadataFault>(Some(s@)),
            Ok(None) => Ok::<Option<Seq<char>>, MetadataFault>(None),
            Err(e) => Err::<Option<Seq<char>>, MetadataFault>(e@),
        },
{
    match config.get(key) {
        Some(v) => match v.as_str() {
            Some(s) => Ok(Some(s.to_owned())),
            None => Err(MetadataError::NotAString { key: key.to_owned() }),
        },
        None => Ok(None),
    }
}

/// What a configured value becomes under `gguf_key`. What can be read as a double-precision
/// number becomes a single-precision one. Of other numbers the lower 32 bits are kept.
pub open spec fn field_value(v: Json, config_key: Seq<char>, gguf_key: Seq<char>) -> Result<
    ValueModel,
    MetadataFault,
> {
    if v.as_double() is Some {
        Ok(ValueModel::Float32(narrow::narrowed(v.as_double()->0)))
    } else if v.as_u64() is Some {
        Ok(ValueModel::Uint32((v.as_u64()->0 % 0x1_0000_0000) as u32))
    } else if v.as_i64() is Some {
        if v.as_i64()->0 >= 0 {
            Ok(ValueModel::Uint32((v.as_i64()->0 % 0x1_0000_0000) as u32))
        } else {
            Err(MetadataFault::Negative { config_key, value: v.as_i64()->0, gguf_key })
        }
    } else {
        Err(MetadataFault::UnexpectedType { config_key, found: v, gguf_key })
    }
}

/// What is to be put under `gguf_key`, if anything: what is configured under `config_key`, else
/// the default; a required value without a default must be configured.
pub open spec fn field(
    config: Json,
    gguf_key: Seq<char>,
    config_key: Seq<char>,
    required: bool,
    default_val: Option<ValueModel>,
) -> Result<Option<ValueModel>, MetadataFault> {
    match config.get(config_key) {
        Some(v) => match field_value(v, config_key, gguf_key) {
            Ok(value) => Ok(Some(value)),
            Err(fault) => Err(fault),
        },
        None => if default_val is None && required {
            Err(MetadataFault::Missing { config_key })
        } else {
            Ok(default_val)
        },
    }
}

/// The content of an optional value.
pub open spec fn option_model(v: Option<GGUFValue>) -> Option<ValueModel> {
    match v {
        Some(v) => Some(v@),
        None => None,
    }
}

/// Puts what is configured under `config_key` under `gguf_key`.
pub fn add_metadata_field(
    writer: &mut GGUFWriter,
    config: &ConfigValue,
    gguf_key: String,
    config_key: &str,
    required: bool,
    default_val: Option<GGUFValue>,
) -> (r: Result<(), MetadataError>)
    requires
        old(writer).wf(),
    ensures
        final(writer).wf(),
        match field(config@, gguf_key@, config_key@, required, option_model(default_val)) {
            Ok(Some(value)) => r is Ok && final(writer)@ == (WriterModel {
                metadata: gguf_writer::put_entry(old(writer)@.metadata, gguf_key@, value),
                ..old(writer)@
            }),
            Ok(None) => r is Ok && final(writer)@ == old(writer)@,
            Err(fault) => r matches Err(e) && e@ == fault && final(writer)@ == old(writer)@,
        },
{
    if let Some(json_val) = config.get(config_key) {
        if let Some(val_double) = json_val.as_double() {
            writer.add_metadata(gguf_key, GGUFValue::Float32(narrow::narrow(val_double)));
            Ok(())
        } else if let Some(val_u64) = json_val.as_u64() {
            let value: u32 = (val_u64 % 0x1_0000_0000) as u32;
            writer.add_metadata(gguf_key, GGUFValue::Uint32(value));
            Ok(())
        } else if let Some(val_i64) = json_val.as_i64() {
            if val_i64 >= 0 {
                let value: u32 = (val_i64 as u64 % 0x1_0000_0000) as u32;
                writer.add_metadata(gguf_key, GGUFValue::Uint32(value));
                Ok(())
            } else {
                Err(
                    MetadataError::Negative {
                        config_key: config_key.to_owned(),
                        value: val_i64,
                        gguf_key,
                    },
                )
            }
        } else {
            Err(
                MetadataError::UnexpectedType {
                    config_key: config_key.to_owned(),
                    found: json_val.clone(),
                    gguf_key,
                },
            )
        }
    } else {
        match default_val {
            Some(default) => {
                writer.add_metadata(gguf_key, default);
                Ok(())
            },
            None => if required {
                Err(MetadataError::Missing { config_key: config_key.to_owned() })
            } else {
                Ok(())
            },
        }
    }
}

/// The count under `key`: the lower 32 bits of an unsigned number.
pub open spec fn count_at(config: Json, key: Seq<char>) -> Option<u32> {
    match config.get(key) {
        Some(v) => match v.as_u64() {
            Some(n) => Some((n % 0x1_0000_0000) as u32),
            None => None,
        },
        None => None,
    }
}

/// The count under `key`.
fn get_count(config: &ConfigValue, key: &str) -> (r: Option<u32>)
    ensures
        r == count_at(config@, key@),
{
    match config.get(key) {
        Some(v) => match v.as_u64() {
            Some(n) => Some((n % 0x1_0000_0000) as u32),
            None => None,
        },
        None => None,
    }
}

/// The first of two optional counts that is there.
pub open spec fn first_of(a: Option<u32>, b: Option<u32>) -> Option<u32> {
    if a is Some {
        a
    } else {
        b
    }
}

/// The number of key-value heads: as configured, else the number of attention heads.
pub open spec fn kv_heads(config: Json) -> Option<u32> {
    first_of(
        count_at(config, "num_key_value_heads"@),
        count_at(config, "num_attention_heads"@),
    )
}

/// The number of dimensions for position embeddings: as configured, else the size of the hidden
/// layer for each attention head.
pub open spec fn rope_dimensions(config: Json) -> Option<u32> {
    match count_at(config, "rope_dim"@) {
        Some(n) => Some(n),
        None => match (
            count_at(config, "hidden_size"@),
            count_at(config, "num_attention_heads"@),
        ) {
            (Some(hidden), Some(heads)) => if heads > 0 {
                Some(hidden / heads)
            } else {
                None
            },
            _ => None,
        },
    }
}

/// The number of a token: as in `inner`, else as in `outer`.
pub open spec fn token_id(inner: Json, outer: Json, key: Seq<char>) -> Option<u32> {
    first_of(count_at(inner, key), count_at(outer, key))
}

/// The number of the padding token; none where the first value under its name is null.
pub open spec fn padding_id(inner: Json, outer: Json) -> Option<u32> {
    let key = "pad_token_id"@;
    let first = if inner.get(key) is Some {
        inner.get(key)
    } else {
        outer.get(key)
    };
    if first matches Some(v) && v !is Null {
        token_id(inner, outer, key)
    } else {
        None
    }
}

/// The part of a configuration that describes a language model: a part of its own, or all of it.
pub open spec fn text_config(config: Json) -> Json {
    match config.get("text_config"@) {
        Some(part) => part,
        None => config,
    }
}

/// The name of the architecture: the first one configured, else the model type.
pub open spec fn arch_name(config: Json) -> Result<Seq<char>, MetadataFault> {
    match architecture(config) {
        Some(arch) => Ok(arch),
        None => match string_at(config, "model_type"@) {
            Ok(Some(name)) => Ok(name),
            Ok(None) => Ok("unknown"@),
            Err(fault) => Err(fault),
        },
    }
}

/// Metadata with what is configured under `config_key` put under `gguf_key`.
pub open spec fn with_field(
    entries: Result<Seq<(Seq<char>, ValueModel)>, MetadataFault>,
    config: Json,
    gguf_key: Seq<char>,
    config_key: Seq<char>,
    required: bool,
    default_val: Option<ValueModel>,
) -> Result<Seq<(Seq<char>, ValueModel)>, MetadataFault> {
    match entries {
        Ok(entries) => match field(config, gguf_key, config_key, required, default_val) {
            Ok(Some(value)) => Ok(gguf_writer::put_entry(entries, gguf_key, value)),
            Ok(None) => Ok(entries),
            Err(fault) => Err(fault),
        },
        Err(fault) => Err(fault),
    }
}

/// Metadata with a count, if there is one, put under `key`.
pub open spec fn with_count(
    entries: Seq<(Seq<char>, ValueModel)>,
    key: Seq<char>,
    count: Option<u32>,
) -> Seq<(Seq<char>, ValueModel)> {
    match count {
        Some(n) => gguf_writer::put_entry(entries, key, ValueModel::Uint32(n)),
        None => entries,
    }
}

/// The bit pattern of 10000 in single precision.
pub const DEFAULT_FREQ_BASE: u32 = 0x461c_4000;

/// Metadata with the dimensions of the architecture `prefix`.
pub open spec fn with_dimensions(
    entries: Seq<(Seq<char>, ValueModel)>,
    config: Json,
    prefix: Seq<char>,
) -> Result<Seq<(Seq<char>, ValueModel)>, MetadataFault> {
    let e = Ok(entries);
    let e = with_field(
        e,
        config,
        prefix + ".context_length"@,
        "max_position_embeddings"@,
        true,
        None,
    );
    let e = with_field(e, config, prefix + ".embedding_length"@, "hidden_size"@, true, None);
    let e = with_field(e, config, prefix + ".block_count"@, "num_hidden_layers"@, true, None);
    let e = with_field(
        e,
        config,
        prefix + ".feed_forward_length"@,
        "intermediate_size"@,
        true,
        None,
    );
    let e = with_field(
        e,
        config,
        prefix + ".attention.head_count"@,
        "num_attention_heads"@,
        true,
        None,
    );
    let e = with_field(
        e,
        config,
        prefix + ".attention.layer_norm_rms_epsilon"@,
        "rms_norm_eps"@,
        true,
        None,
    );
    with_field(
        e,
        config,
        prefix + ".rope.freq_base"@,
        "rope_theta"@,
        false,
        Some(ValueModel::Float32(DEFAULT_FREQ_BASE)),
    )
}

/// Metadata with the head counts and the number of experts of the architecture `prefix`.
pub open spec fn with_heads_and_experts(
    entries: Seq<(Seq<char>, ValueModel)>,
    config: Json,
    prefix: Seq<char>,
) -> Result<Seq<(Seq<char>, ValueModel)>, MetadataFault> {
    let e = with_count(entries, prefix + ".attention.head_count_kv"@, kv_heads(config));
    let e = with_count(e, prefix + ".rope.dimension_count"@, rope_dimensions(config));
    let e = with_field(
        Ok(e),
        config,
        prefix + ".expert_count"@,
        "num_local_experts"@,
        false,
        None,
    );
    with_field(
        e,
        config,
        prefix + ".expert_used_count"@,
        "num_experts_per_tok"@,
        false,
        None,
    )
}

/// Metadata with what there is to say of the tokenizer.
pub open spec fn with_tokenizer(
    entries: Seq<(Seq<char>, ValueModel)>,
    config: Json,
) -> Seq<(Seq<char>, ValueModel)> {
    let inner = text_config(config);
    let model = match arch_prefix(config) {
        Some(prefix) => prefix,
        None => "unknown"@,
    };
    let e = gguf_writer::put_entry(
        entries,
        "tokenizer.ggml.model"@,
        ValueModel::String(model),
    );
    let e = with_count(e, "tokenizer.ggml.vocab_size"@, count_at(inner, "vocab_size"@));
    let e = with_count(
        e,
        "tokenizer.ggml.bos_token_id"@,
        token_id(inner, config, "bos_token_id"@),
    );
    let e = with_count(
        e,
        "tokenizer.ggml.eos_token_id"@,
        token_id(inner, config, "eos_token_id"@),
    );
    let e = with_count(e, "tokenizer.ggml.padding_token_id"@, padding_id(inner, config));
    with_count(
        e,
        "tokenizer.ggml.unknown_token_id"@,
        token_id(inner, config, "unk_token_id"@),
    )
}

/// Metadata with the name of the architecture and of the model.
pub open spec fn with_names(
    entries: Seq<(Seq<char>, ValueModel)>,
    config: Json,
    model_name: Seq<char>,
) -> Result<Seq<(Seq<char>, ValueModel)>, MetadataFault> {
    match arch_name(config) {
        Ok(name) => Ok(
            gguf_writer::put_entry(
                gguf_writer::put_entry(
                    entries,
                    "general.architecture"@,
                    ValueModel::String(name),
                ),
                "general.name"@,
                ValueModel::String(model_name),
            ),
        ),
        Err(fault) => Err(fault),
    }
}

/// The metadata of a model: the names, then the dimensions, heads and experts of a known
/// architecture, then the tokenizer. Without a configuration only that the architecture is
/// unknown.
pub open spec fn metadata_of(config: Option<Json>, model_name: Seq<char>) -> Result<
    Seq<(Seq<char>, ValueModel)>,
    MetadataFault,
> {
    match config {
        None => Ok(
            gguf_writer::put_entry(
                Seq::empty(),
                "general.architecture"@,
                ValueModel::String("unknown"@),
            ),
        ),
        Some(config) => {
            let named = with_names(Seq::empty(), config, model_name);
            let sized = match (arch_prefix(config), named) {
                (Some(prefix), Ok(e)) => match with_dimensions(e, text_config(config), prefix) {
                    Ok(e) => with_heads_and_experts(e, text_config(config), prefix),
                    Err(fault) => Err(fault),
                },
                _ => named,
            };
            match sized {
                Ok(e) => Ok(with_tokenizer(e, config)),
                Err(fault) => Err(fault),
            }
        },
    }
}

/// Puts a count, if there is one, under `key`.
fn add_count(writer: &mut GGUFWriter, key: String, count: Option<u32>)
    requires
        old(writer).wf(),
    ensures
        final(writer).wf(),
        final(writer)@ == (WriterModel {
            metadata: with_count(old(writer)@.metadata, key@, count),
            ..old(writer)@
        }),
{
    match count {
        Some(n) => {
            writer.add_metadata(key, GGUFValue::Uint32(n));
        },
        None => {},
    }
}

/// Puts what is configured under `config_key` under `prefix` followed by `suffix`.
fn add_arch_field(
    writer: &mut GGUFWriter,
    config: &ConfigValue,
    prefix: &str,
    suffix: &str,
    config_key: &str,
    required: bool,
    default_val: Option<GGUFValue>,
) -> (r: Result<(), MetadataError>)
    requires
        old(writer).wf(),
    ensures
        final(writer).wf(),
        match with_field(
            Ok(old(writer)@.metadata),
            config@,
            prefix@ + suffix@,
            config_key@,
            required,
            option_model(default_val),
        ) {
            Ok(entries) => r is Ok && final(writer)@ == (WriterModel {
                metadata: entries,
                ..old(writer)@
            }),
            Err(fault) => r matches Err(e) && e@ == fault,
        },
{
    add_metadata_field(
        writer,
        config,
        text::concatenated(prefix, suffix),
        config_key,
        required,
        default_val,
    )
}

/// Puts the dimensions of the architecture `prefix`.
fn add_dimensions(writer: &mut GGUFWriter, config: &ConfigValue, prefix: &str) -> (r: Result<
    (),
    MetadataError,
>)
    requires
        old(writer).wf(),
    ensures
        final(writer).wf(),
        match with_dimensions(old(writer)@.metadata, config@, prefix@) {
            Ok(entries) => r is Ok && final(writer)@ == (WriterModel {
                metadata: entries,
                ..old(writer)@
            }),
            Err(fault) => r matches Err(e) && e@ == fault,
        },
{
    add_arch_field(
        writer,
        config,
        prefix,
        ".context_length",
        "max_position_embeddings",
        true,
        None,
    )?;
    add_arch_field(writer, config, prefix, ".embedding_length", "hidden_size", true, None)?;
    add_arch_field(writer, config, prefix, ".block_count", "num_hidden_layers", true, None)?;
    add_arch_field(
        writer,
        config,
        prefix,
        ".feed_forward_length",
        "intermediate_size",
        true,
        None,
    )?;
    add_arch_field(
        writer,
        config,
        prefix,
        ".attention.head_count",
        "num_attention_heads",
        true,
        None,
    )?;
    add_arch_field(
        writer,
        config,
        prefix,
        ".attention.layer_norm_rms_epsilon",
        "rms_norm_eps",
        true,
        None,
    )?;
    add_arch_field(
        writer,
        config,
        prefix,
        ".rope.freq_base",
        "rope_theta",
        false,
        Some(GGUFValue::Float32(DEFAULT_FREQ_BASE)),
    )
}

/// The number of dimensions for position embeddings.
fn get_rope_dimensions(config: &ConfigValue) -> (r: Option<u32>)
    ensures
        r == rope_dimensions(config@),
{
    match get_count(config, "rope_dim") {
        Some(n) => Some(n),
        None => match (get_count(config, "hidden_size"), get_count(config, "num_attention_heads")) {
            (Some(hidden), Some(heads)) => if heads > 0 {
                Some(hidden / heads)
            } else {
                None
            },
            _ => None,
        },
    }
}

/// Puts the head counts and the number of experts of the architecture `prefix`.
fn add_heads_and_experts(writer: &mut GGUFWriter, config: &ConfigValue, prefix: &str) -> (r: Result<
    (),
    MetadataError,
>)
    requires
        old(writer).wf(),
    ensures
        final(writer).wf(),
        match with_heads_and_experts(old(writer)@.metadata, config@, prefix@) {
            Ok(entries) => r is Ok && final(writer)@ == (WriterModel {
                metadata: entries,
                ..old(writer)@
            }),
            Err(fault) => r matches Err(e) && e@ == fault,
        },
{
    let kv_heads = match get_count(config, "num_key_value_heads") {
        Some(n) => Some(n),
        None => get_count(config, "num_attention_heads"),
    };
    add_count(writer, text::concatenated(prefix, ".attention.head_count_kv"), kv_heads);
    let rope = get_rope_dimensions(config);
    add_count(writer, text::concatenated(prefix, ".rope.dimension_count"), rope);
    add_arch_field(
        writer,
        config,
        prefix,
        ".expert_count",
        "num_local_experts",
        false,
        None,
    )?;
    add_arch_field(
        writer,
        config,
        prefix,
        ".expert_used_count",
        "num_experts_per_tok",
        false,
        None,
    )
}

/// The number of a token.
fn get_token_id(inner: &ConfigValue, outer: &ConfigValue, key: &str) -> (r: Option<u32>)
    ensures
        r == token_id(inner@, outer@, key@),
{
    match get_count(inner, key) {
        Some(n) => Some(n),
        None => get_count(outer, key),
    }
}

/// The number of the padding token.
fn get_padding_id(inner: &ConfigValue, outer: &ConfigValue) -> (r: Option<u32>)
    ensures
        r == padding_id(inner@, outer@),
{
    let id = get_token_id(inner, outer, "pad_token_id");
    let first = match inner.get("pad_token_id") {
        Some(v) => Some(v),
        None => outer.get("pad_token_id"),
    };
    match first {
        Some(v) => if v.is_null() {
            None
        } else {
            id
        },
        None => None,
    }
}

/// Puts what there is to say of the tokenizer.
fn add_tokenizer(
    writer: &mut GGUFWriter,
    config: &ConfigValue,
    inner: &ConfigValue,
    prefix: Option<&str>,
)
    requires
        old(writer).wf(),
        inner@ == text_config(config@),
        arch_prefix(config@) == match prefix {
            Some(s) => Some(s@),
            None => None,
        },
    ensures
        final(writer).wf(),
        final(writer)@ == (WriterModel {
            metadata: with_tokenizer(old(writer)@.metadata, config@),
            ..old(writer)@
        }),
{
    let model = match prefix {
        Some(prefix) => prefix,
        None => "unknown",
    };
    writer.add_metadata(
        "tokenizer.ggml.model".to_owned(),
        GGUFValue::String(model.to_owned()),
    );
    let count = get_count(inner, "vocab_size");
    add_count(writer, "tokenizer.ggml.vocab_size".to_owned(), count);
    let count = get_token_id(inner, config, "bos_token_id");
    add_count(writer, "tokenizer.ggml.bos_token_id".to_owned(), count);
    let count = get_token_id(inner, config, "eos_token_id");
    add_count(writer, "tokenizer.ggml.eos_token_id".to_owned(), count);
    let count = get_padding_id(inner, config);
    add_count(writer, "tokenizer.ggml.padding_token_id".to_owned(), count);
    let count = get_token_id(inner, config, "unk_token_id");
    add_count(writer, "tokenizer.ggml.unknown_token_id".to_owned(), count);
}

/// The name of the architecture.
fn get_arch_name(config: &ConfigValue) -> (r: Result<String, MetadataError>)
    ensures
        arch_name(config@) == match r {
            Ok(s) => Ok::<Seq<char>, MetadataFault>(s@),
            Err(e) => Err::<Seq<char>, MetadataFault>(e@),
        },
{
    if let Some(arch) = first_architecture(config) {
        return Ok(arch.to_owned());
    }
    match get_string(config, "model_type") {
        Ok(Some(name)) => Ok(name),
        Ok(None) => Ok("unknown".to_owned()),
        Err(e) => Err(e),
    }
}

/// A writer that holds the metadata of a model.
pub fn model_metadata(config: Option<&ConfigValue>, model_name: &str) -> (r: Result<
    GGUFWriter,
    MetadataError,
>)
    ensures
        match metadata_of(
            match config {
                Some(c) => Some(c@),
                None => None,
            },
            model_name@,
        ) {
            Ok(entries) => r matches Ok(w) && w.wf() && w@ == (WriterModel {
                metadata: entries,
                ..gguf_writer::empty_writer()
            }),
            Err(fault) => r matches Err(e) && e@ == fault,
        },
{
    let mut writer = GGUFWriter::new();
    let config = match config {
        Some(config) => config,
        None => {
            writer.add_metadata(
                "general.architecture".to_owned(),
                GGUFValue::String("unknown".to_owned()),
            );
            return Ok(writer);
        },
    };
    let inner = match config.get("text_config") {
        Some(part) => part,
        None => config,
    };
    let prefix = get_arch_prefix(config);
    let name = get_arch_name(config)?;
    writer.add_metadata("general.architecture".to_owned(), GGUFValue::String(name));
    writer.add_metadata("general.name".to_owned(), GGUFValue::String(model_name.to_owned()));
    if let Some(prefix) = prefix {
        add_dimensions(&mut writer, inner, prefix)?;
        add_heads_and_experts(&mut writer, inner, prefix)?;
    }
    add_tokenizer(&mut writer, config, inner, prefix);
    Ok(writer)
}

} // verus!
