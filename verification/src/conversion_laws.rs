//! What holds of every conversion.

use crate::config::{ConfigValue, Json};
use crate::config;
use crate::config_parse;
use crate::conversion;
use crate::conversion::{BuildError, BuildOutcome};
use crate::gguf_laws;
use crate::gguf_read;
use crate::gguf_tensor::{GGMLTypeRenamed, TensorInfoModel};
use crate::gguf_value::ValueModel;
use crate::gguf_writer;
use crate::metadata;
use crate::metadata::{MetadataError, MetadataFault};
use crate::narrow;
use crate::safetensors_model;
use crate::safetensors_model::{SafeTensorDtype, SourceTensor, TensorError};
use vstd::prelude::*;

verus! {

/// Where a configuration names an architecture, nothing else in it has an influence on what the
/// metadata keys begin with.
pub proof fn law_architectures_decide(a: Json, b: Json)
    requires
        metadata::architecture(a) is Some,
        metadata::architecture(a) == metadata::architecture(b),
    ensures
        metadata::arch_prefix(a) == metadata::arch_prefix(b),
        metadata::arch_name(a) == metadata::arch_name(b),
{
}

/// What the metadata keys of an architecture begin with is one of two names.
pub proof fn law_two_prefixes(config: Json)
    ensures
        metadata::arch_prefix(config) matches Some(p) ==> p == "llama"@ || p == "mistral"@,
{
}

/// The members of a document whose numbers can be read as double-precision ones are such
/// documents too.
proof fn lemma_member_doubles(members: Seq<(Seq<char>, Json)>, key: Seq<char>)
    requires
        forall|i: int|
            0 <= i < members.len() ==> config_parse::numbers_are_doubles((#[trigger] members[i]).1),
    ensures
        config::find_member(members, key) matches Some(v) ==> config_parse::numbers_are_doubles(v),
    decreases members.len(),
{
    if members.len() > 0 {
        assert(config_parse::numbers_are_doubles(members[0].1));
        let others = members.drop_first();
        assert forall|i: int| 0 <= i < others.len() implies config_parse::numbers_are_doubles(
            (#[trigger] others[i]).1,
        ) by {
            assert(others[i] == members[i + 1]);
        }
        lemma_member_doubles(others, key);
    }
}

/// In a configuration that was read from JSON text, every number that an architecture's metadata
/// is taken from becomes a single-precision number, and none is refused for being negative.
pub proof fn law_numbers_become_floats(
    config: Json,
    gguf_key: Seq<char>,
    config_key: Seq<char>,
    required: bool,
    default_val: Option<ValueModel>,
)
    requires
        config_parse::numbers_are_doubles(config),
    ensures
        config.get(config_key) matches Some(v) ==> match metadata::field(
            config,
            gguf_key,
            config_key,
            required,
            default_val,
        ) {
            Ok(value) => v matches Json::Number(n) && value == Some(
                ValueModel::Float32(narrow::narrowed(n.double->0)),
            ),
            Err(fault) => v !is Number && fault == (MetadataFault::UnexpectedType {
                config_key,
                found: v,
                gguf_key,
            }),
        },
{
    if let Json::Object(members) = config {
        lemma_member_doubles(members, config_key);
    }
}

/// A value that is not under `other` does not change what is.
proof fn lemma_field_keeps(
    entries: Result<Seq<(Seq<char>, ValueModel)>, MetadataFault>,
    config: Json,
    gguf_key: Seq<char>,
    config_key: Seq<char>,
    required: bool,
    default_val: Option<ValueModel>,
    other: Seq<char>,
    value: ValueModel,
)
    requires
        holds(entries, other, value),
        gguf_key != other,
    ensures
        holds(
            metadata::with_field(entries, config, gguf_key, config_key, required, default_val),
            other,
            value,
        ),
{
    if let Ok(e) = entries {
        if let Ok(Some(v)) = metadata::field(
            config,
            gguf_key,
            config_key,
            required,
            default_val,
        ) {
            gguf_laws::law_put_then_get(e, gguf_key, v, other);
        }
    }
}

/// What was collected, if anything was, has no key twice and has `value` under `key`.
pub open spec fn holds(
    entries: Result<Seq<(Seq<char>, ValueModel)>, MetadataFault>,
    key: Seq<char>,
    value: ValueModel,
) -> bool {
    entries matches Ok(e) ==> gguf_writer::distinct_keys(e) && gguf_laws::value_at(e, key) == Some(
        value,
    )
}

proof fn lemma_count_keeps(
    entries: Seq<(Seq<char>, ValueModel)>,
    key: Seq<char>,
    count: Option<u32>,
    other: Seq<char>,
    value: ValueModel,
)
    requires
        holds(Ok(entries), other, value),
        key != other,
    ensures
        holds(Ok(metadata::with_count(entries, key, count)), other, value),
{
    if let Some(n) = count {
        gguf_laws::law_put_then_get(entries, key, ValueModel::Uint32(n), other);
    }
}

/// A key of an architecture or of the tokenizer is no general one.
proof fn lemma_not_general(prefix: Seq<char>, suffix: Seq<char>, key: Seq<char>)
    requires
        prefix.len() > 0,
        key.len() > 0,
        prefix[0] != key[0],
    ensures
        prefix + suffix != key,
{
    assert((prefix + suffix)[0] == prefix[0]);
}

proof fn lemma_dimensions_keep(
    entries: Seq<(Seq<char>, ValueModel)>,
    config: Json,
    prefix: Seq<char>,
    key: Seq<char>,
    value: ValueModel,
)
    requires
        holds(Ok(entries), key, value),
        prefix.len() > 0,
        key.len() > 0,
        prefix[0] != key[0],
    ensures
        holds(metadata::with_dimensions(entries, config, prefix), key, value),
{
    assert forall|suffix: Seq<char>| #[trigger] (prefix + suffix) != key by {
        lemma_not_general(prefix, suffix, key);
    }
    let d = ValueModel::Float32(metadata::DEFAULT_FREQ_BASE);
    let e = Ok(entries);
    let k = prefix + ".context_length"@;
    lemma_field_keeps(e, config, k, "max_position_embeddings"@, true, None, key, value);
    let e = metadata::with_field(e, config, k, "max_position_embeddings"@, true, None);
    let k = prefix + ".embedding_length"@;
    lemma_field_keeps(e, config, k, "hidden_size"@, true, None, key, value);
    let e = metadata::with_field(e, config, k, "hidden_size"@, true, None);
    let k = prefix + ".block_count"@;
    lemma_field_keeps(e, config, k, "num_hidden_layers"@, true, None, key, value);
    let e = metadata::with_field(e, config, k, "num_hidden_layers"@, true, None);
    let k = prefix + ".feed_forward_length"@;
    lemma_field_keeps(e, config, k, "intermediate_size"@, true, None, key, value);
    let e = metadata::with_field(e, config, k, "intermediate_size"@, true, None);
    let k = prefix + ".attention.head_count"@;
    lemma_field_keeps(e, config, k, "num_attention_heads"@, true, None, key, value);
    let e = metadata::with_field(e, config, k, "num_attention_heads"@, true, None);
    let k = prefix + ".attention.layer_norm_rms_epsilon"@;
    lemma_field_keeps(e, config, k, "rms_norm_eps"@, true, None, key, value);
    let e = metadata::with_field(e, config, k, "rms_norm_eps"@, true, None);
    let k = prefix + ".rope.freq_base"@;
    lemma_field_keeps(e, config, k, "rope_theta"@, false, Some(d), key, value);
}

proof fn lemma_heads_keep(
    entries: Seq<(Seq<char>, ValueModel)>,
    config: Json,
    prefix: Seq<char>,
    key: Seq<char>,
    value: ValueModel,
)
    requires
        holds(Ok(entries), key, value),
        prefix.len() > 0,
        key.len() > 0,
        prefix[0] != key[0],
    ensures
        holds(metadata::with_heads_and_experts(entries, config, prefix), key, value),
{
    assert forall|suffix: Seq<char>| #[trigger] (prefix + suffix) != key by {
        lemma_not_general(prefix, suffix, key);
    }
    let e = entries;
    let k = prefix + ".attention.head_count_kv"@;
    lemma_count_keeps(e, k, metadata::kv_heads(config), key, value);
    let e = metadata::with_count(e, k, metadata::kv_heads(config));
    let k = prefix + ".rope.dimension_count"@;
    lemma_count_keeps(e, k, metadata::rope_dimensions(config), key, value);
    let e = Ok(metadata::with_count(e, k, metadata::rope_dimensions(config)));
    let k = prefix + ".expert_count"@;
    lemma_field_keeps(e, config, k, "num_local_experts"@, false, None, key, value);
    let e = metadata::with_field(e, config, k, "num_local_experts"@, false, None);
    let k = prefix + ".expert_used_count"@;
    lemma_field_keeps(e, config, k, "num_experts_per_tok"@, false, None, key, value);
}

proof fn lemma_tokenizer_keeps(
    entries: Seq<(Seq<char>, ValueModel)>,
    config: Json,
    key: Seq<char>,
    value: ValueModel,
)
    requires
        holds(Ok(entries), key, value),
        key.len() > 0,
        key[0] != 't',
    ensures
        holds(Ok(metadata::with_tokenizer(entries, config)), key, value),
{
    reveal_strlit("tokenizer.ggml.model");
    reveal_strlit("tokenizer.ggml.vocab_size");
    reveal_strlit("tokenizer.ggml.bos_token_id");
    reveal_strlit("tokenizer.ggml.eos_token_id");
    reveal_strlit("tokenizer.ggml.padding_token_id");
    reveal_strlit("tokenizer.ggml.unknown_token_id");
    let inner = metadata::text_config(config);
    let model = match metadata::arch_prefix(config) {
        Some(prefix) => prefix,
        None => "unknown"@,
    };
    let k = "tokenizer.ggml.model"@;
    assert(k[0] == 't');
    gguf_laws::law_put_then_get(entries, k, ValueModel::String(model), key);
    let e = gguf_writer::put_entry(entries, k, ValueModel::String(model));
    let k = "tokenizer.ggml.vocab_size"@;
    assert(k[0] == 't');
    let n = metadata::count_at(inner, "vocab_size"@);
    lemma_count_keeps(e, k, n, key, value);
    let e = metadata::with_count(e, k, n);
    let k = "tokenizer.ggml.bos_token_id"@;
    assert(k[0] == 't');
    let n = metadata::token_id(inner, config, "bos_token_id"@);
    lemma_count_keeps(e, k, n, key, value);
    let e = metadata::with_count(e, k, n);
    let k = "tokenizer.ggml.eos_token_id"@;
    assert(k[0] == 't');
    let n = metadata::token_id(inner, config, "eos_token_id"@);
    lemma_count_keeps(e, k, n, key, value);
    let e = metadata::with_count(e, k, n);
    let k = "tokenizer.ggml.padding_token_id"@;
    assert(k[0] == 't');
    let n = metadata::padding_id(inner, config);
    lemma_count_keeps(e, k, n, key, value);
    let e = metadata::with_count(e, k, n);
    let k = "tokenizer.ggml.unknown_token_id"@;
    assert(k[0] == 't');
    let n = metadata::token_id(inner, config, "unk_token_id"@);
    lemma_count_keeps(e, k, n, key, value);
}

/// The metadata of a model names its architecture: the configured one, or that it is unknown.
/// With a configuration it names the model too. No key occurs twice.
pub proof fn law_names_are_recorded(config: Option<Json>, model_name: Seq<char>)
    ensures
        metadata::metadata_of(config, model_name) matches Ok(entries) ==> {
            &&& gguf_writer::distinct_keys(entries)
            &&& gguf_laws::value_at(entries, "general.architecture"@) == Some(
                ValueModel::String(
                    match config {
                        Some(c) => metadata::arch_name(c)->Ok_0,
                        None => "unknown"@,
                    },
                ),
            )
            &&& config is Some ==> gguf_laws::value_at(entries, "general.name"@) == Some(
                ValueModel::String(model_name),
            )
        },
{
    reveal_strlit("general.architecture");
    reveal_strlit("general.name");
    reveal_strlit("llama");
    reveal_strlit("mistral");
    let a = "general.architecture"@;
    let b = "general.name"@;
    assert(a.len() != b.len());
    assert(a[0] == 'g' && b[0] == 'g');
    let nothing = Seq::<(Seq<char>, ValueModel)>::empty();
    match config {
        None => {
            gguf_laws::law_put_then_get(nothing, a, ValueModel::String("unknown"@), a);
        },
        Some(c) => {
            if let Ok(name) = metadata::arch_name(c) {
                let x = ValueModel::String(name);
                let y = ValueModel::String(model_name);
                let first = gguf_writer::put_entry(nothing, a, x);
                gguf_laws::law_put_then_get(nothing, a, x, a);
                gguf_laws::law_put_then_get(first, b, y, a);
                let named = gguf_writer::put_entry(first, b, y);
                let inner = metadata::text_config(c);
                if let Some(prefix) = metadata::arch_prefix(c) {
                    law_two_prefixes(c);
                    assert(prefix[0] == 'l' || prefix[0] == 'm');
                    lemma_dimensions_keep(named, inner, prefix, a, x);
                    lemma_dimensions_keep(named, inner, prefix, b, y);
                    if let Ok(e) = metadata::with_dimensions(named, inner, prefix) {
                        lemma_heads_keep(e, inner, prefix, a, x);
                        lemma_heads_keep(e, inner, prefix, b, y);
                        if let Ok(e) = metadata::with_heads_and_experts(e, inner, prefix) {
                            lemma_tokenizer_keeps(e, c, a, x);
                            lemma_tokenizer_keeps(e, c, b, y);
                        }
                    }
                } else {
                    lemma_tokenizer_keeps(named, c, a, x);
                    lemma_tokenizer_keeps(named, c, b, y);
                }
            }
        },
    }
}

/// A tensor is kept exactly when its element type is one that a GGUF file can hold.
pub proof fn law_kept_tensors(
    tensors: Seq<(Seq<char>, SourceTensor)>,
    t: (Seq<char>, SourceTensor),
)
    ensures
        conversion::kept(tensors).contains(t) <==> tensors.contains(t)
            && conversion::element_type(t.1.dtype) is Some,
    decreases tensors.len(),
{
    reveal(Seq::filter);
    if tensors.len() > 0 {
        let front = tensors.drop_last();
        law_kept_tensors(front, t);
        assert(tensors =~= front.push(tensors.last()));
        lemma_push_contains(front, tensors.last(), t);
        lemma_push_contains(conversion::kept(front), tensors.last(), t);
    }
}

/// What a sequence with one more element holds.
proof fn lemma_push_contains(
    s: Seq<(Seq<char>, SourceTensor)>,
    last: (Seq<char>, SourceTensor),
    t: (Seq<char>, SourceTensor),
)
    ensures
        s.push(last).contains(t) <==> s.contains(t) || t == last,
{
    let all = s.push(last);
    assert(all[s.len() as int] == last);
    if s.contains(t) {
        let i = s.index_of(t);
        assert(all[i] == t);
    }
}

/// The kept tensors stand in the order of the tensors they were taken from: the position of each
/// there is larger than that of the one before it, and no position is left out whose tensor has
/// an element type that a GGUF file can hold.
pub proof fn law_kept_in_order(tensors: Seq<(Seq<char>, SourceTensor)>) -> (positions: Seq<int>)
    ensures
        positions.len() == conversion::kept(tensors).len(),
        forall|i: int|
            0 <= i < positions.len() ==> 0 <= #[trigger] positions[i] < tensors.len()
                && tensors[positions[i]] == conversion::kept(tensors)[i],
        forall|i: int, j: int|
            0 <= i < j < positions.len() ==> #[trigger] positions[i] < #[trigger] positions[j],
        forall|k: int|
            0 <= k < tensors.len() ==> (positions.contains(k) <==> conversion::element_type(
                (#[trigger] tensors[k]).1.dtype,
            ) is Some),
    decreases tensors.len(),
{
    reveal(Seq::filter);
    if tensors.len() == 0 {
        Seq::empty()
    } else {
        let rest = tensors.drop_last();
        let front = law_kept_in_order(rest);
        let n = tensors.len() - 1;
        let positions = if conversion::element_type(tensors.last().1.dtype) is Some {
            front.push(n)
        } else {
            front
        };
        assert forall|k: int| 0 <= k < tensors.len() implies (positions.contains(k)
            <==> conversion::element_type((#[trigger] tensors[k]).1.dtype) is Some) by {
            if k < n {
                assert(rest[k] == tensors[k]);
                if front.contains(k) {
                    let i = front.index_of(k);
                    assert(positions[i] == k);
                }
                if positions.contains(k) {
                    let i = positions.index_of(k);
                    assert(front[i] == k);
                }
            } else {
                if positions.contains(k) {
                    let i = positions.index_of(k);
                    assert(i < front.len() ==> front[i] == k);
                }
                if positions.len() > front.len() {
                    assert(positions[front.len() as int] == k);
                }
            }
        }
        positions
    }
}

/// Where the metadata cannot be taken from the configuration, the tensors have no influence on
/// what building a file gives.
pub proof fn law_metadata_first(
    a: Seq<(Seq<char>, SourceTensor)>,
    b: Seq<(Seq<char>, SourceTensor)>,
    model_name: Seq<char>,
    config: Option<Json>,
)
    ensures
        conversion::build_outcome(a, model_name, config) matches BuildOutcome::BadMetadata(fault)
            ==> conversion::build_outcome(b, model_name, config) == BuildOutcome::BadMetadata(
            fault,
        ),
{
}

/// The element types of the two formats that have the same name.
pub open spec fn same_type(dtype: SafeTensorDtype, t: GGMLTypeRenamed) -> bool {
    match t {
        GGMLTypeRenamed::F64 => dtype == SafeTensorDtype::F64,
        GGMLTypeRenamed::F32 => dtype == SafeTensorDtype::F32,
        GGMLTypeRenamed::F16 => dtype == SafeTensorDtype::F16,
        GGMLTypeRenamed::BF16 => dtype == SafeTensorDtype::BF16,
        GGMLTypeRenamed::I64 => dtype == SafeTensorDtype::I64,
        GGMLTypeRenamed::I32 => dtype == SafeTensorDtype::I32,
        GGMLTypeRenamed::I16 => dtype == SafeTensorDtype::I16,
        GGMLTypeRenamed::I8 => dtype == SafeTensorDtype::I8,
        _ => false,
    }
}

/// An element type is kept exactly as the one with the same name, and dropped where the other
/// format has none: that is so of truth values, of unsigned numbers, of numbers of eight bits
/// with a fraction, and of what is not known.
pub proof fn law_element_types(dtype: SafeTensorDtype)
    ensures
        conversion::element_type(dtype) matches Some(t) ==> same_type(dtype, t),
        conversion::element_type(dtype) is None <==> {
            ||| dtype == SafeTensorDtype::BOOL
            ||| dtype == SafeTensorDtype::U8
            ||| dtype == SafeTensorDtype::U16
            ||| dtype == SafeTensorDtype::U32
            ||| dtype == SafeTensorDtype::U64
            ||| dtype == SafeTensorDtype::F8_E5M2
            ||| dtype == SafeTensorDtype::F8_E4M3
            ||| dtype == SafeTensorDtype::Unknown
        },
{
}

/// A tensor info describes a tensor: it has its name, its shape as dimensions, in the same order,
/// and the element type with the same name.
pub open spec fn describes(info: TensorInfoModel, name: Seq<char>, t: SourceTensor) -> bool {
    &&& info.name == name
    &&& info.dimensions.len() == t.shape.len()
    &&& forall|k: int| 0 <= k < t.shape.len() ==> #[trigger] info.dimensions[k] == t.shape[k]
    &&& same_type(t.dtype, info.ggml_type)
}

/// The infos and the bytes that are written of tensors are those of the tensors, in order, and
/// the writer holds nothing else but the metadata.
pub proof fn law_infos_describe(
    entries: Seq<(Seq<char>, ValueModel)>,
    tensors: Seq<(Seq<char>, SourceTensor)>,
    i: int,
)
    requires
        0 <= i < tensors.len(),
        conversion::element_type(tensors[i].1.dtype) is Some,
    ensures
        conversion::writer_of(entries, tensors).metadata == entries,
        conversion::writer_of(entries, tensors).header == gguf_writer::empty_header(),
        conversion::writer_of(entries, tensors).tensor_infos == conversion::infos_of(tensors),
        conversion::infos_of(tensors).len() == tensors.len(),
        conversion::data_of(tensors).len() == tensors.len(),
        describes(conversion::infos_of(tensors)[i], tensors[i].0, tensors[i].1),
        conversion::data_of(tensors)[i] == tensors[i].1.data,
{
    law_element_types(tensors[i].1.dtype);
}

/// What building gives: the fault of the metadata, else the file, else that it is too large where
/// the positions in it are no 64-bit numbers; and a result agrees with that exactly when it is
/// the bytes, the error of the metadata, or that of the size.
pub proof fn law_build_results(
    tensors: Seq<(Seq<char>, SourceTensor)>,
    model_name: Seq<char>,
    config: Option<Json>,
    r: Result<Vec<u8>, BuildError>,
)
    ensures
        ({
            let all = conversion::kept(tensors);
            let outcome = conversion::build_outcome(tensors, model_name, config);
            match metadata::metadata_of(config, model_name) {
                Err(fault) => outcome == BuildOutcome::BadMetadata(fault),
                Ok(e) => {
                    let w = conversion::writer_of(e, all);
                    let data = conversion::data_of(all);
                    &&& w.fits(0, data) ==> outcome == BuildOutcome::File(w.file(0, data))
                    &&& !w.fits(0, data) ==> outcome == BuildOutcome::TooLarge
                },
            }
        }),
        ({
            let outcome = conversion::build_outcome(tensors, model_name, config);
            conversion::agrees(r, outcome) ==> match r {
                Ok(file) => outcome == BuildOutcome::File(file@),
                Err(BuildError::Metadata(e)) => outcome == BuildOutcome::BadMetadata(e@),
                Err(BuildError::TooLarge) => outcome == BuildOutcome::TooLarge,
                Err(BuildError::Tensors(_)) => false,
            }
        }),
{
}

/// A model is called by the stem of the name of its file, or `converted_model` where that is no
/// text; a configuration counts as it is.
pub proof fn law_model_name(stem: &str, config: &ConfigValue)
    ensures
        conversion::name_of(Some(stem)) == stem@,
        conversion::name_of(None) == "converted_model"@,
        conversion::config_content(Some(config)) == Some(config@),
        conversion::config_content(None) is None,
{
}

/// What each error of building says.
pub proof fn law_build_error_texts(e: MetadataError, t: TensorError, shown: Seq<char>)
    ensures
        BuildError::Metadata(e).text(shown) == e@.text(shown),
        BuildError::Tensors(t).text(shown) == t.text(),
        BuildError::TooLarge.text(shown) == "The GGUF file would be too large"@,
{
}

/// Reading a file that was built gives back the metadata and, for each tensor that was kept, in
/// order, its name, its dimensions, its element type, and its bytes at the position that the
/// file gives, which is a multiple of the alignment.
pub proof fn law_built_file_read_back(
    tensors: Seq<(Seq<char>, SourceTensor)>,
    model_name: Seq<char>,
    config: Option<Json>,
)
    requires
        conversion::build_outcome(tensors, model_name, config) is File,
        gguf_read::bounded(
            conversion::writer_of(
                metadata::metadata_of(config, model_name)->Ok_0,
                conversion::kept(tensors),
            ),
        ),
    ensures
        ({
            let bytes = conversion::build_outcome(tensors, model_name, config)->File_0;
            let all = conversion::kept(tensors);
            &&& gguf_read::read_file(bytes) matches Some((file, _))
            &&& file.magic == gguf_writer::GGUF_MAGIC
            &&& file.version == gguf_writer::GGUF_VERSION
            &&& Ok::<_, MetadataFault>(file.metadata) == metadata::metadata_of(config, model_name)
            &&& file.tensor_infos.len() == all.len()
            &&& forall|i: int|
                #![trigger file.tensor_infos[i]]
                0 <= i < all.len() ==> {
                    let info = file.tensor_infos[i];
                    &&& describes(info, all[i].0, all[i].1)
                    &&& info.offset % 32 == 0
                    &&& info.offset + all[i].1.data.len() <= bytes.len()
                    &&& bytes.subrange(
                        info.offset as int,
                        info.offset + all[i].1.data.len(),
                    ) == all[i].1.data
                }
        }),
{
    let all = conversion::kept(tensors);
    let entries = metadata::metadata_of(config, model_name)->Ok_0;
    let w = conversion::writer_of(entries, all);
    let data = conversion::data_of(all);
    conversion::law_metadata_can_be_written(config, model_name);
    gguf_read::law_file_read_back(w, 0, data);
    let infos = w.placed(0, data).tensor_infos;
    let bytes = w.file(0, data);
    assert forall|i: int| #![trigger infos[i]] 0 <= i < all.len() implies {
        let info = infos[i];
        &&& describes(info, all[i].0, all[i].1)
        &&& info.offset % 32 == 0
        &&& info.offset + all[i].1.data.len() <= bytes.len()
        &&& bytes.subrange(info.offset as int, info.offset + all[i].1.data.len()) == all[i].1.data
    } by {
        gguf_read::law_data_at_offset(w, 0, data, i);
        gguf_laws::law_offsets_aligned(w, 0, data, i);
        assert(data[i] == all[i].1.data);
        conversion::lemma_kept_supported(tensors, i);
        law_element_types(all[i].1.dtype);
        assert(infos[i].dimensions =~= conversion::info_of(all[i]).dimensions);
    }
}

/// Every tensor of a loaded model whose element type a GGUF file can hold is in the file that is
/// built, in whatever order the model lists its tensors: the file has an info with its name, its
/// dimensions and its element type, and its bytes at the position that the info gives.
pub proof fn law_every_tensor_is_in_the_file(
    content: Map<Seq<char>, SourceTensor>,
    tensors: Seq<(Seq<char>, SourceTensor)>,
    model_name: Seq<char>,
    config: Option<Json>,
    name: Seq<char>,
) -> (i: int)
    requires
        safetensors_model::lists(tensors, content),
        conversion::build_outcome(tensors, model_name, config) is File,
        gguf_read::bounded(
            conversion::writer_of(
                metadata::metadata_of(config, model_name)->Ok_0,
                conversion::kept(tensors),
            ),
        ),
        content.contains_key(name),
        conversion::element_type(content[name].dtype) is Some,
    ensures
        ({
            let bytes = conversion::build_outcome(tensors, model_name, config)->File_0;
            let t = content[name];
            &&& gguf_read::read_file(bytes) matches Some((file, _))
            &&& 0 <= i < file.tensor_infos.len()
            &&& describes(file.tensor_infos[i], name, t)
            &&& file.tensor_infos[i].offset + t.data.len() <= bytes.len()
            &&& bytes.subrange(
                file.tensor_infos[i].offset as int,
                file.tensor_infos[i].offset + t.data.len(),
            ) == t.data
        }),
{
    let all = conversion::kept(tensors);
    let t = (name, content[name]);
    let k = choose|k: int| 0 <= k < tensors.len() && (#[trigger] tensors[k]).0 == name;
    assert(tensors[k] == t);
    law_kept_tensors(tensors, t);
    let i = all.index_of(t);
    law_built_file_read_back(tensors, model_name, config);
    let bytes = conversion::build_outcome(tensors, model_name, config)->File_0;
    let read = gguf_read::read_file(bytes)->Some_0;
    let infos = read.0.tensor_infos;
    assert(all[i] == t);
    assert(describes(infos[i], name, content[name]));
    i
}

/// A listing of the tensors of a file has as many entries as the file has tensors, and looking a
/// tensor up by the name of an entry finds that entry.
pub proof fn law_listing_agrees_with_lookup(
    entries: Seq<(Seq<char>, SourceTensor)>,
    tensors: Map<Seq<char>, SourceTensor>,
)
    requires
        safetensors_model::lists(entries, tensors),
    ensures
        tensors.dom().finite(),
        entries.len() == tensors.dom().len(),
        forall|i: int, j: int|
            0 <= i < entries.len() && 0 <= j < entries.len() && i != j ==> (
            #[trigger] entries[i]).0 != (#[trigger] entries[j]).0,
        forall|name: Seq<char>| #[trigger]
            tensors.contains_key(name) ==> entries.contains((name, tensors[name])),
        forall|i: int|
            0 <= i < entries.len() ==> tensors.contains_key((#[trigger] entries[i]).0)
                && tensors[entries[i].0] == entries[i].1,
{
    let names = Seq::new(entries.len(), |i: int| entries[i].0);
    assert(names.no_duplicates()) by {
        assert forall|i: int, j: int| 0 <= i < names.len() && 0 <= j < names.len() && i
            != j implies names[i] != names[j] by {
            if i < j {
                assert(entries[i].0 != entries[j].0);
            } else {
                assert(entries[j].0 != entries[i].0);
            }
        }
    }
    assert forall|i: int, j: int|
        0 <= i < entries.len() && 0 <= j < entries.len() && i != j implies (
    #[trigger] entries[i]).0 != (#[trigger] entries[j]).0 by {
        assert(names[i] != names[j]);
    }
    assert forall|name: Seq<char>| #[trigger] tensors.contains_key(name) implies entries.contains(
        (name, tensors[name]),
    ) by {
        let i = choose|i: int| 0 <= i < entries.len() && (#[trigger] entries[i]).0 == name;
        assert(entries[i] == (name, tensors[name]));
    }
    names.unique_seq_to_set();
    assert(names.to_set() =~= tensors.dom()) by {
        assert forall|name: Seq<char>| names.to_set().contains(name)
            <==> tensors.dom().contains(name) by {
            if tensors.contains_key(name) {
                let i = choose|i: int| 0 <= i < entries.len() && (#[trigger] entries[i]).0 == name;
                assert(names[i] == name);
            }
            if names.contains(name) {
                let i = names.index_of(name);
                assert(entries[i].0 == name);
            }
        }
    }
}

} // verus!
