//! What the metadata of a model holds, read off its configuration.

use crate::config::Json;
use crate::gguf_laws;
use crate::gguf_value::{GGUFValue, ValueModel};
use crate::gguf_writer;
use crate::metadata;
use crate::metadata::{MetadataError, MetadataFault};
use crate::narrow;
use crate::text;
use vstd::prelude::*;

verus! {

/// A configuration names an architecture exactly when its "architectures" are a list that begins
/// with a text.
pub proof fn law_architecture(config: Json, name: Seq<char>)
    ensures
        metadata::architecture(config) == Some(name) <==> {
            &&& config.get("architectures"@) matches Some(Json::Array(items))
            &&& items.len() > 0
            &&& items[0] == Json::String(name)
        },
        metadata::model_type(config) == Some(name) <==> config.get("model_type"@) == Some(
            Json::String(name),
        ),
{
}

/// Where the first of the architectures is a text, the keys begin with "llama" exactly if "Llama"
/// occurs in it, and with "mistral" exactly if "Llama" does not and "Mistral" or "Mixtral" does;
/// otherwise there is nothing that they begin with.
pub proof fn law_prefix_of_architecture(config: Json, items: Seq<Json>, arch: Seq<char>)
    requires
        config.get("architectures"@) == Some(Json::Array(items)),
        items.len() > 0,
        items[0] == Json::String(arch),
    ensures
        ({
            let llama = text::occurs_in("Llama"@, arch);
            let mistral = text::occurs_in("Mistral"@, arch) || text::occurs_in("Mixtral"@, arch);
            &&& metadata::arch_prefix(config) == Some("llama"@) <==> llama
            &&& metadata::arch_prefix(config) == Some("mistral"@) <==> !llama && mistral
            &&& metadata::arch_prefix(config) is None <==> !llama && !mistral
        }),
{
    lemma_two_prefixes();
}

/// Where no architecture is named, the model type decides: "llama" stands for itself, "mistral"
/// and "mixtral" for "mistral", and anything else for nothing.
pub proof fn law_prefix_of_model_type(config: Json)
    requires
        !(config.get("architectures"@) matches Some(Json::Array(items)) && items.len() > 0
            && items[0] is String),
    ensures
        metadata::arch_prefix(config) == Some("llama"@) <==> config.get("model_type"@) == Some(
            Json::String("llama"@),
        ),
        metadata::arch_prefix(config) == Some("mistral"@) <==> config.get("model_type"@) == Some(
            Json::String("mistral"@),
        ) || config.get("model_type"@) == Some(Json::String("mixtral"@)),
        metadata::arch_prefix(config) matches Some(p) ==> p == "llama"@ || p == "mistral"@,
{
    lemma_two_prefixes();
    reveal_strlit("mixtral");
    assert("mixtral"@[2] == 'x');
    assert("mistral"@[2] == 's');
}

proof fn lemma_two_prefixes()
    ensures
        "llama"@ != "mistral"@,
        "llama"@.len() == 5,
        "mistral"@.len() == 7,
        "llama"@[0] == 'l',
        "mistral"@[0] == 'm',
        "mistral"@[2] == 's',
{
    reveal_strlit("llama");
    reveal_strlit("mistral");
    assert("llama"@.len() == 5 && "mistral"@.len() == 7);
}

/// The architecture is called by the first of the architectures, else by the model type, else
/// unknown. A model type that is no text is a fault only where no architecture is named.
pub proof fn law_architecture_name(config: Json)
    ensures
        config.get("architectures"@) matches Some(Json::Array(items)) && items.len() > 0
            && items[0] is String ==> metadata::arch_name(config) == Ok::<_, MetadataFault>(
            config.get("architectures"@)->0->Array_0[0]->String_0,
        ),
        !(config.get("architectures"@) matches Some(Json::Array(items)) && items.len() > 0
            && items[0] is String) ==> match config.get("model_type"@) {
            Some(Json::String(s)) => metadata::arch_name(config) == Ok::<_, MetadataFault>(s),
            Some(_) => metadata::arch_name(config) == Err::<Seq<char>, _>(
                MetadataFault::NotAString { key: "model_type"@ },
            ),
            None => metadata::arch_name(config) == Ok::<_, MetadataFault>("unknown"@),
        },
{
}

/// A text is got where there is one, nothing where there is nothing, and an error otherwise.
pub proof fn law_strings(config: Json, key: Seq<char>)
    ensures
        match config.get(key) {
            Some(Json::String(s)) => metadata::string_at(config, key) == Ok::<_, MetadataFault>(
                Some(s),
            ),
            Some(_) => metadata::string_at(config, key) == Err::<Option<Seq<char>>, _>(
                MetadataFault::NotAString { key },
            ),
            None => metadata::string_at(config, key) == Ok::<_, MetadataFault>(
                None::<Seq<char>>,
            ),
        },
{
}

/// The contents of errors and of optional values are what they hold.
pub proof fn law_error_contents(a: String, b: String, v: i64, e: MetadataError, d: GGUFValue)
    ensures
        (MetadataError::NotAString { key: a })@ == (MetadataFault::NotAString { key: a@ }),
        (MetadataError::Negative { config_key: a, value: v, gguf_key: b })@ == (
        MetadataFault::Negative { config_key: a@, value: v, gguf_key: b@ }),
        e matches MetadataError::UnexpectedType { config_key, found, gguf_key } ==> e@ == (
        MetadataFault::UnexpectedType {
            config_key: config_key@,
            found: found@,
            gguf_key: gguf_key@,
        }),
        (MetadataError::Missing { config_key: a })@ == (MetadataFault::Missing { config_key: a@ }),
        metadata::option_model(Some(d)) == Some(d@),
        metadata::option_model(None) is None,
{
}

/// What each error says: what is wrong, under which names.
pub proof fn law_metadata_error_texts(
    a: Seq<char>,
    b: Seq<char>,
    v: i64,
    found: Json,
    shown: Seq<char>,
)
    ensures
        (MetadataFault::NotAString { key: a }).text(shown) == "Metadata key '"@ + (a
            + "' is not a valid string"@),
        (MetadataFault::Negative { config_key: a, value: v, gguf_key: b }).text(shown)
            == "Metadata key '"@ + (a + ("' has negative value ("@ + (text::signed_decimal(v as int)
            + (") unsuitable for GGUF key '"@ + (b + "'"@))))),
        (MetadataFault::UnexpectedType { config_key: a, found, gguf_key: b }).text(shown)
            == "Metadata key '"@ + (a + ("' has unexpected type '"@ + (shown + (
        "' for GGUF key '"@ + (b + "'"@))))),
        (MetadataFault::Missing { config_key: a }).text(shown) == "Missing required metadata key: "@
            + a,
{
}

/// `value` is what the number `v` is recorded as: a single-precision number where it can be read
/// as a double-precision one, else the lower 32 bits of a number that is not negative.
pub open spec fn records(v: Json, value: ValueModel) -> bool {
    v matches Json::Number(n) && if n.double is Some {
        value == ValueModel::Float32(narrow::narrowed(n.double->0))
    } else if n.unsigned is Some {
        value matches ValueModel::Uint32(x) && (n.unsigned->0 - x) % 0x1_0000_0000 == 0
    } else {
        n.signed matches Some(i) && i >= 0 && (value matches ValueModel::Uint32(x) && (i - x)
            % 0x1_0000_0000 == 0)
    }
}

/// The fault that a configured value, or its absence, is under `gguf_key`, if any.
pub open spec fn fault_of(
    configured: Option<Json>,
    gguf_key: Seq<char>,
    config_key: Seq<char>,
    needed: bool,
) -> Option<MetadataFault> {
    match configured {
        None => if needed {
            Some(MetadataFault::Missing { config_key })
        } else {
            None
        },
        Some(v) => match v {
            Json::Number(n) => if n.double is Some || n.unsigned is Some {
                None
            } else {
                match n.signed {
                    Some(i) => if i < 0 {
                        Some(MetadataFault::Negative { config_key, value: i, gguf_key })
                    } else {
                        None
                    },
                    None => Some(MetadataFault::UnexpectedType { config_key, found: v, gguf_key }),
                }
            },
            _ => Some(MetadataFault::UnexpectedType { config_key, found: v, gguf_key }),
        },
    }
}

/// A field is refused exactly for its fault. Otherwise what is configured is recorded, and where
/// nothing is configured, the default.
pub proof fn law_field(
    config: Json,
    gguf_key: Seq<char>,
    config_key: Seq<char>,
    required: bool,
    default_val: Option<ValueModel>,
)
    ensures
        ({
            let r = metadata::field(config, gguf_key, config_key, required, default_val);
            let needed = required && default_val is None;
            match fault_of(config.get(config_key), gguf_key, config_key, needed) {
                Some(fault) => r == Err::<Option<ValueModel>, _>(fault),
                None => match config.get(config_key) {
                    Some(v) => r matches Ok(Some(value)) && records(v, value),
                    None => r == Ok::<_, MetadataFault>(default_val),
                },
            }
        }),
{
    if let Some(Json::Number(n)) = config.get(config_key) {
        if n.unsigned is Some {
            let u = n.unsigned->0 as int;
            assert((u - u % 0x1_0000_0000) % 0x1_0000_0000 == 0);
        }
        if n.signed is Some {
            let u = n.signed->0 as int;
            assert((u - u % 0x1_0000_0000) % 0x1_0000_0000 == 0);
        }
    }
}

/// The unsigned number under `key`.
pub open spec fn unsigned_at(config: Json, key: Seq<char>) -> Option<u64> {
    match config.get(key) {
        Some(Json::Number(n)) => n.unsigned,
        _ => None,
    }
}

/// The lower 32 bits of a number.
pub open spec fn low_bits(n: Option<u64>) -> Option<u32> {
    match n {
        Some(n) => Some((n - n / 0x1_0000_0000 * 0x1_0000_0000) as u32),
        None => None,
    }
}

/// A count as a metadata value.
pub open spec fn as_value(n: Option<u32>) -> Option<ValueModel> {
    match n {
        Some(n) => Some(ValueModel::Uint32(n)),
        None => None,
    }
}

/// Of two numbers the first that is there.
pub open spec fn either(a: Option<u64>, b: Option<u64>) -> Option<u64> {
    match a {
        Some(n) => Some(n),
        None => b,
    }
}

proof fn lemma_count(config: Json, key: Seq<char>)
    ensures
        metadata::count_at(config, key) == low_bits(unsigned_at(config, key)),
{
}

/// What `k` looks up after `new`, if anything, was put under `key` where `old` was looked up
/// before.
spec fn put_over(
    k: Seq<char>,
    key: Seq<char>,
    new: Option<ValueModel>,
    old: Option<ValueModel>,
) -> Option<ValueModel> {
    if k == key && new is Some {
        new
    } else {
        old
    }
}

/// What was collected has no key twice and looks `k` up as `value`.
spec fn finds(
    entries: Seq<(Seq<char>, ValueModel)>,
    k: Seq<char>,
    value: Option<ValueModel>,
) -> bool {
    gguf_writer::distinct_keys(entries) && gguf_laws::value_at(entries, k) == value
}

proof fn lemma_put_finds(
    e: Seq<(Seq<char>, ValueModel)>,
    key: Seq<char>,
    new: ValueModel,
    k: Seq<char>,
    old: Option<ValueModel>,
)
    requires
        finds(e, k, old),
    ensures
        finds(gguf_writer::put_entry(e, key, new), k, put_over(k, key, Some(new), old)),
{
    gguf_laws::law_put_then_get(e, key, new, k);
}

proof fn lemma_count_finds(
    e: Seq<(Seq<char>, ValueModel)>,
    key: Seq<char>,
    count: Option<u32>,
    k: Seq<char>,
    old: Option<ValueModel>,
)
    requires
        finds(e, k, old),
    ensures
        finds(metadata::with_count(e, key, count), k, put_over(k, key, as_value(count), old)),
{
    if let Some(n) = count {
        lemma_put_finds(e, key, ValueModel::Uint32(n), k, old);
    }
}

/// What is recorded under a key of the architecture.
spec fn recorded(
    t: Json,
    key: Seq<char>,
    config_key: Seq<char>,
    required: bool,
    default_val: Option<ValueModel>,
) -> Option<ValueModel> {
    metadata::field(t, key, config_key, required, default_val)->Ok_0
}

proof fn lemma_field_finds(
    e: Seq<(Seq<char>, ValueModel)>,
    t: Json,
    key: Seq<char>,
    config_key: Seq<char>,
    required: bool,
    default_val: Option<ValueModel>,
    k: Seq<char>,
    old: Option<ValueModel>,
)
    requires
        finds(e, k, old),
        metadata::field(t, key, config_key, required, default_val) is Ok,
    ensures
        metadata::with_field(Ok(e), t, key, config_key, required, default_val) matches Ok(after)
            && finds(
            after,
            k,
            put_over(k, key, recorded(t, key, config_key, required, default_val), old),
        ),
{
    if let Some(v) = recorded(t, key, config_key, required, default_val) {
        lemma_put_finds(e, key, v, k, old);
    }
}

spec fn default_base() -> Option<ValueModel> {
    Some(ValueModel::Float32(metadata::DEFAULT_FREQ_BASE))
}

spec fn dimensions_find(
    t: Json,
    p: Seq<char>,
    k: Seq<char>,
    old: Option<ValueModel>,
) -> Option<ValueModel> {
    let a = p + ".context_length"@;
    let b = p + ".embedding_length"@;
    let c = p + ".block_count"@;
    let d = p + ".feed_forward_length"@;
    let e = p + ".attention.head_count"@;
    let f = p + ".attention.layer_norm_rms_epsilon"@;
    let g = p + ".rope.freq_base"@;
    let v = put_over(k, a, recorded(t, a, "max_position_embeddings"@, true, None), old);
    let v = put_over(k, b, recorded(t, b, "hidden_size"@, true, None), v);
    let v = put_over(k, c, recorded(t, c, "num_hidden_layers"@, true, None), v);
    let v = put_over(k, d, recorded(t, d, "intermediate_size"@, true, None), v);
    let v = put_over(k, e, recorded(t, e, "num_attention_heads"@, true, None), v);
    let v = put_over(k, f, recorded(t, f, "rms_norm_eps"@, true, None), v);
    put_over(k, g, recorded(t, g, "rope_theta"@, false, default_base()), v)
}

proof fn lemma_dimensions_find(
    e0: Seq<(Seq<char>, ValueModel)>,
    t: Json,
    p: Seq<char>,
    k: Seq<char>,
    old: Option<ValueModel>,
)
    requires
        finds(e0, k, old),
        metadata::with_dimensions(e0, t, p) is Ok,
    ensures
        finds(metadata::with_dimensions(e0, t, p)->Ok_0, k, dimensions_find(t, p, k, old)),
{
    let a = p + ".context_length"@;
    let b = p + ".embedding_length"@;
    let c = p + ".block_count"@;
    let d = p + ".feed_forward_length"@;
    let e = p + ".attention.head_count"@;
    let f = p + ".attention.layer_norm_rms_epsilon"@;
    let g = p + ".rope.freq_base"@;
    let s1 = metadata::with_field(Ok(e0), t, a, "max_position_embeddings"@, true, None);
    let s2 = metadata::with_field(s1, t, b, "hidden_size"@, true, None);
    let s3 = metadata::with_field(s2, t, c, "num_hidden_layers"@, true, None);
    let s4 = metadata::with_field(s3, t, d, "intermediate_size"@, true, None);
    let s5 = metadata::with_field(s4, t, e, "num_attention_heads"@, true, None);
    let s6 = metadata::with_field(s5, t, f, "rms_norm_eps"@, true, None);
    let s7 = metadata::with_field(s6, t, g, "rope_theta"@, false, default_base());
    assert(s7 == metadata::with_dimensions(e0, t, p));
    let v1 = put_over(k, a, recorded(t, a, "max_position_embeddings"@, true, None), old);
    lemma_field_finds(e0, t, a, "max_position_embeddings"@, true, None, k, old);
    let v2 = put_over(k, b, recorded(t, b, "hidden_size"@, true, None), v1);
    lemma_field_finds(s1->Ok_0, t, b, "hidden_size"@, true, None, k, v1);
    let v3 = put_over(k, c, recorded(t, c, "num_hidden_layers"@, true, None), v2);
    lemma_field_finds(s2->Ok_0, t, c, "num_hidden_layers"@, true, None, k, v2);
    let v4 = put_over(k, d, recorded(t, d, "intermediate_size"@, true, None), v3);
    lemma_field_finds(s3->Ok_0, t, d, "intermediate_size"@, true, None, k, v3);
    let v5 = put_over(k, e, recorded(t, e, "num_attention_heads"@, true, None), v4);
    lemma_field_finds(s4->Ok_0, t, e, "num_attention_heads"@, true, None, k, v4);
    let v6 = put_over(k, f, recorded(t, f, "rms_norm_eps"@, true, None), v5);
    lemma_field_finds(s5->Ok_0, t, f, "rms_norm_eps"@, true, None, k, v5);
    lemma_field_finds(s6->Ok_0, t, g, "rope_theta"@, false, default_base(), k, v6);
}

spec fn heads_find(
    t: Json,
    p: Seq<char>,
    k: Seq<char>,
    old: Option<ValueModel>,
) -> Option<ValueModel> {
    let c = p + ".expert_count"@;
    let d = p + ".expert_used_count"@;
    let v = put_over(k, p + ".attention.head_count_kv"@, as_value(metadata::kv_heads(t)), old);
    let v = put_over(k, p + ".rope.dimension_count"@, as_value(metadata::rope_dimensions(t)), v);
    let v = put_over(k, c, recorded(t, c, "num_local_experts"@, false, None), v);
    put_over(k, d, recorded(t, d, "num_experts_per_tok"@, false, None), v)
}

proof fn lemma_heads_find(
    e0: Seq<(Seq<char>, ValueModel)>,
    t: Json,
    p: Seq<char>,
    k: Seq<char>,
    old: Option<ValueModel>,
)
    requires
        finds(e0, k, old),
        metadata::with_heads_and_experts(e0, t, p) is Ok,
    ensures
        finds(metadata::with_heads_and_experts(e0, t, p)->Ok_0, k, heads_find(t, p, k, old)),
{
    let a = p + ".attention.head_count_kv"@;
    let b = p + ".rope.dimension_count"@;
    let c = p + ".expert_count"@;
    let d = p + ".expert_used_count"@;
    let e1 = metadata::with_count(e0, a, metadata::kv_heads(t));
    let v1 = put_over(k, a, as_value(metadata::kv_heads(t)), old);
    lemma_count_finds(e0, a, metadata::kv_heads(t), k, old);
    let e2 = metadata::with_count(e1, b, metadata::rope_dimensions(t));
    let v2 = put_over(k, b, as_value(metadata::rope_dimensions(t)), v1);
    lemma_count_finds(e1, b, metadata::rope_dimensions(t), k, v1);
    let s3 = metadata::with_field(Ok(e2), t, c, "num_local_experts"@, false, None);
    let v3 = put_over(k, c, recorded(t, c, "num_local_experts"@, false, None), v2);
    lemma_field_finds(e2, t, c, "num_local_experts"@, false, None, k, v2);
    lemma_field_finds(s3->Ok_0, t, d, "num_experts_per_tok"@, false, None, k, v3);
}

spec fn tokenizer_finds(config: Json, k: Seq<char>, old: Option<ValueModel>) -> Option<ValueModel> {
    let t = metadata::text_config(config);
    let model = match metadata::arch_prefix(config) {
        Some(prefix) => prefix,
        None => "unknown"@,
    };
    let v = put_over(k, "tokenizer.ggml.model"@, Some(ValueModel::String(model)), old);
    let v = put_over(
        k,
        "tokenizer.ggml.vocab_size"@,
        as_value(metadata::count_at(t, "vocab_size"@)),
        v,
    );
    let v = put_over(
        k,
        "tokenizer.ggml.bos_token_id"@,
        as_value(metadata::token_id(t, config, "bos_token_id"@)),
        v,
    );
    let v = put_over(
        k,
        "tokenizer.ggml.eos_token_id"@,
        as_value(metadata::token_id(t, config, "eos_token_id"@)),
        v,
    );
    let v = put_over(
        k,
        "tokenizer.ggml.padding_token_id"@,
        as_value(metadata::padding_id(t, config)),
        v,
    );
    put_over(
        k,
        "tokenizer.ggml.unknown_token_id"@,
        as_value(metadata::token_id(t, config, "unk_token_id"@)),
        v,
    )
}

proof fn lemma_tokenizer_finds(
    e0: Seq<(Seq<char>, ValueModel)>,
    config: Json,
    k: Seq<char>,
    old: Option<ValueModel>,
)
    requires
        finds(e0, k, old),
    ensures
        finds(metadata::with_tokenizer(e0, config), k, tokenizer_finds(config, k, old)),
{
    let t = metadata::text_config(config);
    let model = match metadata::arch_prefix(config) {
        Some(prefix) => prefix,
        None => "unknown"@,
    };
    let m = ValueModel::String(model);
    let e1 = gguf_writer::put_entry(e0, "tokenizer.ggml.model"@, m);
    let v1 = put_over(k, "tokenizer.ggml.model"@, Some(m), old);
    lemma_put_finds(e0, "tokenizer.ggml.model"@, m, k, old);
    let n = metadata::count_at(t, "vocab_size"@);
    let e2 = metadata::with_count(e1, "tokenizer.ggml.vocab_size"@, n);
    let v2 = put_over(k, "tokenizer.ggml.vocab_size"@, as_value(n), v1);
    lemma_count_finds(e1, "tokenizer.ggml.vocab_size"@, n, k, v1);
    let n = metadata::token_id(t, config, "bos_token_id"@);
    let e3 = metadata::with_count(e2, "tokenizer.ggml.bos_token_id"@, n);
    let v3 = put_over(k, "tokenizer.ggml.bos_token_id"@, as_value(n), v2);
    lemma_count_finds(e2, "tokenizer.ggml.bos_token_id"@, n, k, v2);
    let n = metadata::token_id(t, config, "eos_token_id"@);
    let e4 = metadata::with_count(e3, "tokenizer.ggml.eos_token_id"@, n);
    let v4 = put_over(k, "tokenizer.ggml.eos_token_id"@, as_value(n), v3);
    lemma_count_finds(e3, "tokenizer.ggml.eos_token_id"@, n, k, v3);
    let n = metadata::padding_id(t, config);
    let e5 = metadata::with_count(e4, "tokenizer.ggml.padding_token_id"@, n);
    let v5 = put_over(k, "tokenizer.ggml.padding_token_id"@, as_value(n), v4);
    lemma_count_finds(e4, "tokenizer.ggml.padding_token_id"@, n, k, v4);
    let n = metadata::token_id(t, config, "unk_token_id"@);
    lemma_count_finds(e5, "tokenizer.ggml.unknown_token_id"@, n, k, v5);
}

spec fn names_find(config: Json, model_name: Seq<char>, k: Seq<char>) -> Option<ValueModel> {
    let v = put_over(
        k,
        "general.architecture"@,
        Some(ValueModel::String(metadata::arch_name(config)->Ok_0)),
        None,
    );
    put_over(k, "general.name"@, Some(ValueModel::String(model_name)), v)
}

/// What metadata that could be taken from a configuration looks `k` up as.
spec fn all_find(config: Json, model_name: Seq<char>, k: Seq<char>) -> Option<ValueModel> {
    let t = metadata::text_config(config);
    let v = names_find(config, model_name, k);
    let v = match metadata::arch_prefix(config) {
        Some(p) => heads_find(t, p, k, dimensions_find(t, p, k, v)),
        None => v,
    };
    tokenizer_finds(config, k, v)
}

proof fn lemma_all_find(config: Json, model_name: Seq<char>, k: Seq<char>)
    requires
        metadata::metadata_of(Some(config), model_name) is Ok,
    ensures
        finds(
            metadata::metadata_of(Some(config), model_name)->Ok_0,
            k,
            all_find(config, model_name, k),
        ),
{
    let nothing = Seq::<(Seq<char>, ValueModel)>::empty();
    let t = metadata::text_config(config);
    let name = metadata::arch_name(config)->Ok_0;
    let x = ValueModel::String(name);
    let y = ValueModel::String(model_name);
    let e1 = gguf_writer::put_entry(nothing, "general.architecture"@, x);
    let e2 = gguf_writer::put_entry(e1, "general.name"@, y);
    assert(finds(nothing, k, None));
    let v1 = put_over(k, "general.architecture"@, Some(x), None);
    lemma_put_finds(nothing, "general.architecture"@, x, k, None);
    lemma_put_finds(e1, "general.name"@, y, k, v1);
    let v2 = names_find(config, model_name, k);
    assert(metadata::with_names(nothing, config, model_name) == Ok::<_, MetadataFault>(e2));
    match metadata::arch_prefix(config) {
        Some(p) => {
            let s3 = metadata::with_dimensions(e2, t, p);
            lemma_dimensions_find(e2, t, p, k, v2);
            let v3 = dimensions_find(t, p, k, v2);
            let s4 = metadata::with_heads_and_experts(s3->Ok_0, t, p);
            lemma_heads_find(s3->Ok_0, t, p, k, v3);
            lemma_tokenizer_finds(s4->Ok_0, config, k, heads_find(t, p, k, v3));
        },
        None => {
            lemma_tokenizer_finds(e2, config, k, v2);
        },
    }
}

/// No two keys of an architecture end alike.
proof fn lemma_endings()
    ensures
        ".context_length"@.len() == 15,
        ".embedding_length"@.len() == 17,
        ".block_count"@.len() == 12,
        ".feed_forward_length"@.len() == 20,
        ".attention.head_count"@.len() == 21,
        ".attention.layer_norm_rms_epsilon"@.len() == 33,
        ".rope.freq_base"@.len() == 15,
        ".attention.head_count_kv"@.len() == 24,
        ".rope.dimension_count"@.len() == 21,
        ".expert_count"@.len() == 13,
        ".expert_used_count"@.len() == 18,
        ".context_length"@ != ".rope.freq_base"@,
        ".attention.head_count"@ != ".rope.dimension_count"@,
{
    reveal_strlit(".context_length");
    reveal_strlit(".embedding_length");
    reveal_strlit(".block_count");
    reveal_strlit(".feed_forward_length");
    reveal_strlit(".attention.head_count");
    reveal_strlit(".attention.layer_norm_rms_epsilon");
    reveal_strlit(".rope.freq_base");
    reveal_strlit(".attention.head_count_kv");
    reveal_strlit(".rope.dimension_count");
    reveal_strlit(".expert_count");
    reveal_strlit(".expert_used_count");
    assert(".context_length"@[1] == 'c');
    assert(".rope.freq_base"@[1] == 'r');
    assert(".attention.head_count"@[1] == 'a');
    assert(".rope.dimension_count"@[1] == 'r');
}

/// No two other keys are alike, and they begin otherwise than those of an architecture.
proof fn lemma_other_keys()
    ensures
        "general.architecture"@.len() == 20,
        "general.name"@.len() == 12,
        "tokenizer.ggml.model"@.len() == 20,
        "tokenizer.ggml.vocab_size"@.len() == 25,
        "tokenizer.ggml.bos_token_id"@.len() == 27,
        "tokenizer.ggml.eos_token_id"@.len() == 27,
        "tokenizer.ggml.padding_token_id"@.len() == 31,
        "tokenizer.ggml.unknown_token_id"@.len() == 31,
        "general.architecture"@[0] == 'g',
        "general.name"@[0] == 'g',
        "tokenizer.ggml.model"@[0] == 't',
        "tokenizer.ggml.vocab_size"@[0] == 't',
        "tokenizer.ggml.bos_token_id"@[0] == 't',
        "tokenizer.ggml.eos_token_id"@[0] == 't',
        "tokenizer.ggml.padding_token_id"@[0] == 't',
        "tokenizer.ggml.unknown_token_id"@[0] == 't',
        "tokenizer.ggml.bos_token_id"@ != "tokenizer.ggml.eos_token_id"@,
        "tokenizer.ggml.padding_token_id"@ != "tokenizer.ggml.unknown_token_id"@,
{
    reveal_strlit("general.architecture");
    reveal_strlit("general.name");
    reveal_strlit("tokenizer.ggml.model");
    reveal_strlit("tokenizer.ggml.vocab_size");
    reveal_strlit("tokenizer.ggml.bos_token_id");
    reveal_strlit("tokenizer.ggml.eos_token_id");
    reveal_strlit("tokenizer.ggml.padding_token_id");
    reveal_strlit("tokenizer.ggml.unknown_token_id");
    assert("tokenizer.ggml.bos_token_id"@[15] == 'b');
    assert("tokenizer.ggml.eos_token_id"@[15] == 'e');
    assert("tokenizer.ggml.padding_token_id"@[15] == 'p');
    assert("tokenizer.ggml.unknown_token_id"@[15] == 'u');
}

/// Keys of an architecture are alike only where they end alike, and begin as it is called.
proof fn lemma_arch_keys(p: Seq<char>)
    requires
        p == "llama"@ || p == "mistral"@,
    ensures
        forall|a: Seq<char>, b: Seq<char>| #[trigger] (p + a) == #[trigger] (p + b) ==> a == b,
        forall|a: Seq<char>|
            (#[trigger] (p + a))[0] != 'g' && (p + a)[0] != 't' && (p + a).len() > 0,
{
    lemma_two_prefixes();
    assert forall|a: Seq<char>, b: Seq<char>| #[trigger] (p + a) == #[trigger] (p + b) implies a
        == b by {
        assert((p + a).skip(p.len() as int) =~= a);
        assert((p + b).skip(p.len() as int) =~= b);
    }
    assert forall|a: Seq<char>|
        (#[trigger] (p + a))[0] != 'g' && (p + a)[0] != 't' && (p + a).len() > 0 by {
        assert((p + a)[0] == p[0]);
    }
}

/// The part of a configuration that describes the language model: its "text_config" where it has
/// one, else all of it.
pub open spec fn language_part(config: Json) -> Json {
    match config.get("text_config"@) {
        Some(part) => part,
        None => config,
    }
}

/// The tokenizer's metadata: it is called after the architecture, or unknown. The size of the
/// vocabulary is that in the part for the language model. The number of a token is the one there,
/// else the one of the whole configuration; that of the padding token is left out where the first
/// value under its name is null. Of each number the lower 32 bits are kept.
#[verifier::rlimit(40)]
pub proof fn law_tokenizer_metadata(config: Json, model_name: Seq<char>)
    requires
        metadata::metadata_of(Some(config), model_name) is Ok,
    ensures
        ({
            let e = metadata::metadata_of(Some(config), model_name)->Ok_0;
            let t = language_part(config);
            &&& gguf_laws::value_at(e, "tokenizer.ggml.model"@) == Some(
                ValueModel::String(
                    match metadata::arch_prefix(config) {
                        Some(p) => p,
                        None => "unknown"@,
                    },
                ),
            )
            &&& gguf_laws::value_at(e, "tokenizer.ggml.vocab_size"@) == as_value(
                low_bits(unsigned_at(t, "vocab_size"@)),
            )
            &&& gguf_laws::value_at(e, "tokenizer.ggml.bos_token_id"@) == as_value(
                low_bits(either(unsigned_at(t, "bos_token_id"@), unsigned_at(config, "bos_token_id"@))),
            )
            &&& gguf_laws::value_at(e, "tokenizer.ggml.eos_token_id"@) == as_value(
                low_bits(either(unsigned_at(t, "eos_token_id"@), unsigned_at(config, "eos_token_id"@))),
            )
            &&& gguf_laws::value_at(e, "tokenizer.ggml.unknown_token_id"@) == as_value(
                low_bits(either(unsigned_at(t, "unk_token_id"@), unsigned_at(config, "unk_token_id"@))),
            )
            &&& gguf_laws::value_at(e, "tokenizer.ggml.padding_token_id"@) == as_value(
                if t.get("pad_token_id"@) == Some(Json::Null) || (t.get("pad_token_id"@) is None
                    && config.get("pad_token_id"@) == Some(Json::Null)) {
                    None
                } else {
                    low_bits(
                        either(
                            unsigned_at(t, "pad_token_id"@),
                            unsigned_at(config, "pad_token_id"@),
                        ),
                    )
                },
            )
        }),
{
    let t = language_part(config);
    assert(t == metadata::text_config(config));
    lemma_other_keys();
    lemma_count(t, "vocab_size"@);
    lemma_count(t, "bos_token_id"@);
    lemma_count(config, "bos_token_id"@);
    lemma_count(t, "eos_token_id"@);
    lemma_count(config, "eos_token_id"@);
    lemma_count(t, "unk_token_id"@);
    lemma_count(config, "unk_token_id"@);
    lemma_count(t, "pad_token_id"@);
    lemma_count(config, "pad_token_id"@);
    lemma_nothing_before(config, model_name, "tokenizer.ggml.model"@);
    lemma_nothing_before(config, model_name, "tokenizer.ggml.vocab_size"@);
    lemma_nothing_before(config, model_name, "tokenizer.ggml.bos_token_id"@);
    lemma_nothing_before(config, model_name, "tokenizer.ggml.eos_token_id"@);
    lemma_nothing_before(config, model_name, "tokenizer.ggml.unknown_token_id"@);
    lemma_nothing_before(config, model_name, "tokenizer.ggml.padding_token_id"@);
}

/// Before the tokenizer's metadata nothing is put under a key of the tokenizer.
proof fn lemma_nothing_before(config: Json, model_name: Seq<char>, k: Seq<char>)
    requires
        metadata::metadata_of(Some(config), model_name) is Ok,
        k.len() > 0,
        k[0] == 't',
    ensures
        gguf_laws::value_at(metadata::metadata_of(Some(config), model_name)->Ok_0, k)
            == tokenizer_finds(config, k, None),
{
    lemma_all_find(config, model_name, k);
    lemma_other_keys();
    if let Some(p) = metadata::arch_prefix(config) {
        lemma_arch_keys(p);
    }
}

/// Behind the architecture's metadata nothing is put under one of its keys, and nothing before.
proof fn lemma_arch_key_finds(config: Json, model_name: Seq<char>, p: Seq<char>, ending: Seq<char>)
    requires
        metadata::metadata_of(Some(config), model_name) is Ok,
        metadata::arch_prefix(config) == Some(p),
    ensures
        p == "llama"@ || p == "mistral"@,
        gguf_laws::value_at(metadata::metadata_of(Some(config), model_name)->Ok_0, p + ending) == ({
            let t = metadata::text_config(config);
            heads_find(t, p, p + ending, dimensions_find(t, p, p + ending, None))
        }),
{
    lemma_all_find(config, model_name, p + ending);
    lemma_other_keys();
    lemma_arch_keys(p);
}

/// `e` has under `key` what is configured as `config_key`, or the default where nothing is.
pub open spec fn row_holds(
    e: Seq<(Seq<char>, ValueModel)>,
    key: Seq<char>,
    configured: Option<Json>,
    default_val: Option<ValueModel>,
) -> bool {
    match configured {
        Some(v) => gguf_laws::value_at(e, key) matches Some(value) && records(v, value),
        None => gguf_laws::value_at(e, key) == default_val,
    }
}

/// The architecture's metadata: the sizes of the model, each a configured number; the base of the
/// position embeddings is 10000 where it is not configured; the numbers of experts are there only
/// where they are configured.
#[verifier::rlimit(60)]
pub proof fn law_architecture_metadata(config: Json, model_name: Seq<char>, p: Seq<char>)
    requires
        metadata::metadata_of(Some(config), model_name) is Ok,
        metadata::arch_prefix(config) == Some(p),
    ensures
        ({
            let e = metadata::metadata_of(Some(config), model_name)->Ok_0;
            let t = language_part(config);
            &&& row_holds(e, p + ".context_length"@, t.get("max_position_embeddings"@), None)
            &&& row_holds(e, p + ".embedding_length"@, t.get("hidden_size"@), None)
            &&& row_holds(e, p + ".block_count"@, t.get("num_hidden_layers"@), None)
            &&& row_holds(e, p + ".feed_forward_length"@, t.get("intermediate_size"@), None)
            &&& row_holds(e, p + ".attention.head_count"@, t.get("num_attention_heads"@), None)
            &&& row_holds(
                e,
                p + ".attention.layer_norm_rms_epsilon"@,
                t.get("rms_norm_eps"@),
                None,
            )
            &&& row_holds(
                e,
                p + ".rope.freq_base"@,
                t.get("rope_theta"@),
                Some(ValueModel::Float32(0x461c_4000)),
            )
            &&& row_holds(e, p + ".expert_count"@, t.get("num_local_experts"@), None)
            &&& row_holds(e, p + ".expert_used_count"@, t.get("num_experts_per_tok"@), None)
            &&& t.get("max_position_embeddings"@) is Some
            &&& t.get("hidden_size"@) is Some
            &&& t.get("num_hidden_layers"@) is Some
            &&& t.get("intermediate_size"@) is Some
            &&& t.get("num_attention_heads"@) is Some
            &&& t.get("rms_norm_eps"@) is Some
        }),
{
    let t = language_part(config);
    assert(t == metadata::text_config(config));
    lemma_endings();
    lemma_arch_key_finds(config, model_name, p, ".context_length"@);
    lemma_arch_keys(p);
    lemma_arch_key_finds(config, model_name, p, ".embedding_length"@);
    lemma_arch_key_finds(config, model_name, p, ".block_count"@);
    lemma_arch_key_finds(config, model_name, p, ".feed_forward_length"@);
    lemma_arch_key_finds(config, model_name, p, ".attention.head_count"@);
    lemma_arch_key_finds(config, model_name, p, ".attention.layer_norm_rms_epsilon"@);
    lemma_arch_key_finds(config, model_name, p, ".rope.freq_base"@);
    lemma_arch_key_finds(config, model_name, p, ".expert_count"@);
    lemma_arch_key_finds(config, model_name, p, ".expert_used_count"@);
    law_first_fault(config, model_name, p);
    law_field(t, p + ".context_length"@, "max_position_embeddings"@, true, None);
    law_field(t, p + ".embedding_length"@, "hidden_size"@, true, None);
    law_field(t, p + ".block_count"@, "num_hidden_layers"@, true, None);
    law_field(t, p + ".feed_forward_length"@, "intermediate_size"@, true, None);
    law_field(t, p + ".attention.head_count"@, "num_attention_heads"@, true, None);
    law_field(t, p + ".attention.layer_norm_rms_epsilon"@, "rms_norm_eps"@, true, None);
    law_field(t, p + ".rope.freq_base"@, "rope_theta"@, false, default_base());
    law_field(t, p + ".expert_count"@, "num_local_experts"@, false, None);
    law_field(t, p + ".expert_used_count"@, "num_experts_per_tok"@, false, None);
}

/// The number of key-value heads is the configured one, else that of the attention heads. The
/// number of dimensions for position embeddings is the configured one; where there is none, and
/// the hidden size `h` and the number `n` of attention heads are configured and `n` is not zero,
/// it is the number `d` with `d * n <= h < (d + 1) * n`. Of each number that is configured the
/// lower 32 bits count.
#[verifier::rlimit(40)]
pub proof fn law_head_metadata(config: Json, model_name: Seq<char>, p: Seq<char>)
    requires
        metadata::metadata_of(Some(config), model_name) is Ok,
        metadata::arch_prefix(config) == Some(p),
    ensures
        ({
            let e = metadata::metadata_of(Some(config), model_name)->Ok_0;
            let t = language_part(config);
            let heads = low_bits(unsigned_at(t, "num_attention_heads"@));
            let hidden = low_bits(unsigned_at(t, "hidden_size"@));
            let rope = gguf_laws::value_at(e, p + ".rope.dimension_count"@);
            &&& gguf_laws::value_at(e, p + ".attention.head_count_kv"@) == as_value(
                low_bits(
                    either(
                        unsigned_at(t, "num_key_value_heads"@),
                        unsigned_at(t, "num_attention_heads"@),
                    ),
                ),
            )
            &&& if unsigned_at(t, "rope_dim"@) is Some {
                rope == as_value(low_bits(unsigned_at(t, "rope_dim"@)))
            } else if hidden is Some && heads is Some && heads->0 > 0 {
                rope matches Some(ValueModel::Uint32(d)) && d * heads->0 <= hidden->0 < (d + 1)
                    * heads->0
            } else {
                rope is None
            }
        }),
{
    let t = language_part(config);
    assert(t == metadata::text_config(config));
    lemma_endings();
    lemma_arch_key_finds(config, model_name, p, ".attention.head_count_kv"@);
    lemma_arch_key_finds(config, model_name, p, ".rope.dimension_count"@);
    lemma_arch_keys(p);
    lemma_count(t, "num_attention_heads"@);
    lemma_count(t, "num_key_value_heads"@);
    lemma_count(t, "hidden_size"@);
    lemma_count(t, "rope_dim"@);
    let heads = low_bits(unsigned_at(t, "num_attention_heads"@));
    let hidden = low_bits(unsigned_at(t, "hidden_size"@));
    if hidden is Some && heads is Some && heads->0 > 0 {
        let (h, n) = (hidden->0 as int, heads->0 as int);
        let d = h / n;
        assert(d * n <= h < (d + 1) * n) by (nonlinear_arith)
            requires
                d == h / n,
                n > 0,
                h >= 0,
        ;
    }
}

/// Of an architecture that is known, the first fault among its fields, in the order of the file,
/// is the one that is reported; where there is none, the metadata can be taken.
#[verifier::rlimit(60)]
pub proof fn law_first_fault(config: Json, model_name: Seq<char>, p: Seq<char>)
    requires
        metadata::arch_name(config) is Ok,
        metadata::arch_prefix(config) == Some(p),
    ensures
        ({
            let r = metadata::metadata_of(Some(config), model_name);
            let t = language_part(config);
            let a = fault_of(
                t.get("max_position_embeddings"@),
                p + ".context_length"@,
                "max_position_embeddings"@,
                true,
            );
            let b = fault_of(
                t.get("hidden_size"@),
                p + ".embedding_length"@,
                "hidden_size"@,
                true,
            );
            let c = fault_of(
                t.get("num_hidden_layers"@),
                p + ".block_count"@,
                "num_hidden_layers"@,
                true,
            );
            let d = fault_of(
                t.get("intermediate_size"@),
                p + ".feed_forward_length"@,
                "intermediate_size"@,
                true,
            );
            let e = fault_of(
                t.get("num_attention_heads"@),
                p + ".attention.head_count"@,
                "num_attention_heads"@,
                true,
            );
            let f = fault_of(
                t.get("rms_norm_eps"@),
                p + ".attention.layer_norm_rms_epsilon"@,
                "rms_norm_eps"@,
                true,
            );
            let g = fault_of(
                t.get("rope_theta"@),
                p + ".rope.freq_base"@,
                "rope_theta"@,
                false,
            );
            let h = fault_of(
                t.get("num_local_experts"@),
                p + ".expert_count"@,
                "num_local_experts"@,
                false,
            );
            let i = fault_of(
                t.get("num_experts_per_tok"@),
                p + ".expert_used_count"@,
                "num_experts_per_tok"@,
                false,
            );
            let first = if a is Some {
                a
            } else if b is Some {
                b
            } else if c is Some {
                c
            } else if d is Some {
                d
            } else if e is Some {
                e
            } else if f is Some {
                f
            } else if g is Some {
                g
            } else if h is Some {
                h
            } else {
                i
            };
            match first {
                Some(fault) => r == Err::<Seq<(Seq<char>, ValueModel)>, _>(fault),
                None => r is Ok,
            }
        }),
{
    let t = language_part(config);
    assert(t == metadata::text_config(config));
    law_field(t, p + ".context_length"@, "max_position_embeddings"@, true, None);
    law_field(t, p + ".embedding_length"@, "hidden_size"@, true, None);
    law_field(t, p + ".block_count"@, "num_hidden_layers"@, true, None);
    law_field(t, p + ".feed_forward_length"@, "intermediate_size"@, true, None);
    law_field(t, p + ".attention.head_count"@, "num_attention_heads"@, true, None);
    law_field(t, p + ".attention.layer_norm_rms_epsilon"@, "rms_norm_eps"@, true, None);
    law_field(t, p + ".rope.freq_base"@, "rope_theta"@, false, default_base());
    law_field(t, p + ".expert_count"@, "num_local_experts"@, false, None);
    law_field(t, p + ".expert_used_count"@, "num_experts_per_tok"@, false, None);
}

/// Of an architecture that is not known, only its name can be a fault. That fault comes before
/// all others, and without a configuration there is none.
pub proof fn law_name_fault(config: Json, model_name: Seq<char>)
    ensures
        metadata::arch_name(config) matches Err(fault) ==> metadata::metadata_of(
            Some(config),
            model_name,
        ) == Err::<Seq<(Seq<char>, ValueModel)>, _>(fault),
        metadata::arch_name(config) is Ok && metadata::arch_prefix(config) is None
            ==> metadata::metadata_of(Some(config), model_name) is Ok,
        metadata::metadata_of(None, model_name) is Ok,
{
}

/// Without a configuration the metadata says only that the architecture is unknown.
pub proof fn law_metadata_without_configuration(model_name: Seq<char>)
    ensures
        metadata::metadata_of(None, model_name) == Ok::<_, MetadataFault>(
            seq![("general.architecture"@, ValueModel::String("unknown"@))],
        ),
{
    let nothing = Seq::<(Seq<char>, ValueModel)>::empty();
    assert(nothing.push(("general.architecture"@, ValueModel::String("unknown"@))) =~= seq![
        ("general.architecture"@, ValueModel::String("unknown"@)),
    ]);
}

/// The metadata of a model has no keys but these.
#[verifier::rlimit(40)]
pub proof fn law_no_other_metadata(config: Json, model_name: Seq<char>, k: Seq<char>)
    requires
        metadata::metadata_of(Some(config), model_name) is Ok,
        gguf_laws::value_at(metadata::metadata_of(Some(config), model_name)->Ok_0, k) is Some,
    ensures
        ({
            ||| k == "general.architecture"@
            ||| k == "general.name"@
            ||| k == "tokenizer.ggml.model"@
            ||| k == "tokenizer.ggml.vocab_size"@
            ||| k == "tokenizer.ggml.bos_token_id"@
            ||| k == "tokenizer.ggml.eos_token_id"@
            ||| k == "tokenizer.ggml.padding_token_id"@
            ||| k == "tokenizer.ggml.unknown_token_id"@
            ||| (metadata::arch_prefix(config) matches Some(p) && {
                ||| k == p + ".context_length"@
                ||| k == p + ".embedding_length"@
                ||| k == p + ".block_count"@
                ||| k == p + ".feed_forward_length"@
                ||| k == p + ".attention.head_count"@
                ||| k == p + ".attention.layer_norm_rms_epsilon"@
                ||| k == p + ".rope.freq_base"@
                ||| k == p + ".attention.head_count_kv"@
                ||| k == p + ".rope.dimension_count"@
                ||| k == p + ".expert_count"@
                ||| k == p + ".expert_used_count"@
            })
        }),
{
    lemma_all_find(config, model_name, k);
}

} // verus!
