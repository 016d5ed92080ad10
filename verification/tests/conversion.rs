use byteorder::{LittleEndian, ReadBytesExt};
use ggml_builder::{
    add_metadata_field, build_from_tensors, build_gguf, get_arch_prefix, get_string, ggml_type_of,
    load_safetensors, model_metadata, parse_config, BuildError, ByteSink, ConfigNumber,
    ConfigValue, FileRead, GGMLTypeRenamed, GGUFValue, GGUFWriter, MetadataError, SafeTensorDtype,
    SafeTensorView,
};
use safetensors::tensor::{Dtype, TensorView};
use std::collections::HashMap;
use std::io::{Cursor, Read};

#[derive(Debug, PartialEq)]
enum Field {
    Uint32(u32),
    Float32(f32),
    Text(String),
}

#[derive(Debug)]
struct Tensor {
    name: String,
    dimensions: Vec<u64>,
    element_type: u32,
    offset: usize,
}

fn read_text(reader: &mut Cursor<Vec<u8>>) -> String {
    let len = reader.read_u64::<LittleEndian>().unwrap();
    let mut bytes = vec![0u8; len as usize];
    reader.read_exact(&mut bytes).unwrap();
    String::from_utf8(bytes).unwrap()
}

fn parse_file(file: &[u8]) -> (Vec<(String, Field)>, Vec<Tensor>) {
    let mut reader = Cursor::new(file.to_vec());
    assert_eq!(reader.read_u32::<LittleEndian>().unwrap(), 0x46554747);
    assert_eq!(reader.read_u32::<LittleEndian>().unwrap(), 3);
    let tensor_count = reader.read_u64::<LittleEndian>().unwrap();
    let pair_count = reader.read_u64::<LittleEndian>().unwrap();
    let mut pairs = Vec::new();
    for _ in 0..pair_count {
        let key = read_text(&mut reader);
        let value = match reader.read_u32::<LittleEndian>().unwrap() {
            4 => Field::Uint32(reader.read_u32::<LittleEndian>().unwrap()),
            6 => Field::Float32(reader.read_f32::<LittleEndian>().unwrap()),
            8 => Field::Text(read_text(&mut reader)),
            other => panic!("unexpected type {}", other),
        };
        pairs.push((key, value));
    }
    let mut tensors = Vec::new();
    for _ in 0..tensor_count {
        let name = read_text(&mut reader);
        let n = reader.read_u32::<LittleEndian>().unwrap();
        let mut dimensions: Vec<u64> =
            (0..n).map(|_| reader.read_u64::<LittleEndian>().unwrap()).collect();
        dimensions.reverse();
        let element_type = reader.read_u32::<LittleEndian>().unwrap();
        let offset = reader.read_u64::<LittleEndian>().unwrap() as usize;
        tensors.push(Tensor { name, dimensions, element_type, offset });
    }
    (pairs, tensors)
}

fn pairs_of(writer: GGUFWriter) -> Vec<(String, Field)> {
    let mut writer = writer;
    let mut sink = ByteSink::new();
    writer.write(&mut sink, &[]).unwrap();
    parse_file(sink.as_bytes()).0
}

fn metadata(text: &str) -> Vec<(String, Field)> {
    let config = parse_config(text).unwrap();
    pairs_of(model_metadata(Some(&config), "my_model").unwrap())
}

fn text(s: &str) -> Field {
    Field::Text(s.to_string())
}

fn expect(pairs: &[(String, Field)], expected: &[(&str, Field)]) {
    assert_eq!(pairs.len(), expected.len(), "{:?}", pairs);
    for (pair, (key, value)) in pairs.iter().zip(expected) {
        assert_eq!(pair.0, *key);
        assert_eq!(pair.1, *value);
    }
}

const LLAMA: &str = r#"{
    "architectures": ["LlamaForCausalLM"],
    "model_type": "llama",
    "max_position_embeddings": 4096,
    "hidden_size": 2048,
    "num_hidden_layers": 22,
    "intermediate_size": 5632,
    "num_attention_heads": 32,
    "num_key_value_heads": 4,
    "rms_norm_eps": 1e-05,
    "vocab_size": 32000,
    "bos_token_id": 1,
    "eos_token_id": 2
}"#;

#[test]
fn metadata_of_a_llama() {
    expect(
        &metadata(LLAMA),
        &[
            ("general.architecture", text("LlamaForCausalLM")),
            ("general.name", text("my_model")),
            ("llama.context_length", Field::Float32(4096.0)),
            ("llama.embedding_length", Field::Float32(2048.0)),
            ("llama.block_count", Field::Float32(22.0)),
            ("llama.feed_forward_length", Field::Float32(5632.0)),
            ("llama.attention.head_count", Field::Float32(32.0)),
            ("llama.attention.layer_norm_rms_epsilon", Field::Float32(1e-05)),
            ("llama.rope.freq_base", Field::Float32(10000.0)),
            ("llama.attention.head_count_kv", Field::Uint32(4)),
            ("llama.rope.dimension_count", Field::Uint32(64)),
            ("tokenizer.ggml.model", text("llama")),
            ("tokenizer.ggml.vocab_size", Field::Uint32(32000)),
            ("tokenizer.ggml.bos_token_id", Field::Uint32(1)),
            ("tokenizer.ggml.eos_token_id", Field::Uint32(2)),
        ],
    );
}

#[test]
fn metadata_of_a_nested_mixtral() {
    let pairs = metadata(
        r#"{
        "architectures": ["MixtralForCausalLM"],
        "bos_token_id": 7,
        "eos_token_id": 8,
        "pad_token_id": 9,
        "unk_token_id": 4294967299,
        "text_config": {
            "max_position_embeddings": 10, "hidden_size": 12, "num_hidden_layers": 2,
            "intermediate_size": 5, "num_attention_heads": 5, "rms_norm_eps": 0.1,
            "rope_theta": 500000.0, "rope_dim": 3, "num_local_experts": 8,
            "num_experts_per_tok": 2, "eos_token_id": 11
        }
    }"#,
    );
    expect(
        &pairs,
        &[
            ("general.architecture", text("MixtralForCausalLM")),
            ("general.name", text("my_model")),
            ("mistral.context_length", Field::Float32(10.0)),
            ("mistral.embedding_length", Field::Float32(12.0)),
            ("mistral.block_count", Field::Float32(2.0)),
            ("mistral.feed_forward_length", Field::Float32(5.0)),
            ("mistral.attention.head_count", Field::Float32(5.0)),
            ("mistral.attention.layer_norm_rms_epsilon", Field::Float32(0.1)),
            ("mistral.rope.freq_base", Field::Float32(500000.0)),
            ("mistral.attention.head_count_kv", Field::Uint32(5)),
            ("mistral.rope.dimension_count", Field::Uint32(3)),
            ("mistral.expert_count", Field::Float32(8.0)),
            ("mistral.expert_used_count", Field::Float32(2.0)),
            ("tokenizer.ggml.model", text("mistral")),
            ("tokenizer.ggml.bos_token_id", Field::Uint32(7)),
            ("tokenizer.ggml.eos_token_id", Field::Uint32(11)),
            ("tokenizer.ggml.padding_token_id", Field::Uint32(9)),
            ("tokenizer.ggml.unknown_token_id", Field::Uint32(3)),
        ],
    );
}

#[test]
fn metadata_of_an_unknown_architecture() {
    expect(
        &metadata(r#"{"architectures": ["GPT2"], "model_type": "llama", "vocab_size": -1}"#),
        &[
            ("general.architecture", text("GPT2")),
            ("general.name", text("my_model")),
            ("tokenizer.ggml.model", text("unknown")),
        ],
    );
    expect(
        &metadata("{}"),
        &[
            ("general.architecture", text("unknown")),
            ("general.name", text("my_model")),
            ("tokenizer.ggml.model", text("unknown")),
        ],
    );
    expect(
        &metadata(r#"{"model_type": "gpt2"}"#),
        &[
            ("general.architecture", text("gpt2")),
            ("general.name", text("my_model")),
            ("tokenizer.ggml.model", text("unknown")),
        ],
    );
}

#[test]
fn metadata_without_a_configuration() {
    let pairs = pairs_of(model_metadata(None, "my_model").unwrap());
    expect(&pairs, &[("general.architecture", text("unknown"))]);
}

#[test]
fn null_padding_token_is_left_out() {
    let pairs = metadata(r#"{"text_config": {"pad_token_id": null}, "pad_token_id": 3}"#);
    assert!(pairs.iter().all(|p| p.0 != "tokenizer.ggml.padding_token_id"));
    let pairs = metadata(r#"{"text_config": {"pad_token_id": "x"}, "pad_token_id": 3}"#);
    assert_eq!(pairs.last().unwrap().0, "tokenizer.ggml.padding_token_id");
    assert_eq!(pairs.last().unwrap().1, Field::Uint32(3));
}

#[test]
fn rope_dimensions_need_heads() {
    let base = r#"{"model_type": "mistral", "max_position_embeddings": 1, "hidden_size": 9,
        "num_hidden_layers": 1, "intermediate_size": 1, "rms_norm_eps": 1, "#;
    let pairs = metadata(&format!("{}{}", base, r#""num_attention_heads": 0}"#));
    assert!(pairs.iter().all(|p| p.0 != "mistral.rope.dimension_count"));
    assert!(pairs.contains(&("mistral.attention.head_count_kv".to_string(), Field::Uint32(0))));
    let pairs = metadata(&format!("{}{}", base, r#""num_attention_heads": 2.5}"#));
    assert!(pairs.iter().all(|p| p.0 != "mistral.rope.dimension_count"));
    assert!(pairs.iter().all(|p| p.0 != "mistral.attention.head_count_kv"));
    assert!(pairs.contains(&("mistral.attention.head_count".to_string(), Field::Float32(2.5))));
}

#[test]
fn missing_and_unexpected_fields_are_reported() {
    let config = parse_config(r#"{"model_type": "llama"}"#).unwrap();
    let e = model_metadata(Some(&config), "m").err().unwrap();
    assert!(
        matches!(e, MetadataError::Missing { config_key } if config_key == "max_position_embeddings")
    );
    let config = parse_config(
        r#"{"model_type": "llama", "max_position_embeddings": 1, "hidden_size": "big"}"#,
    )
    .unwrap();
    match model_metadata(Some(&config), "m").err().unwrap() {
        MetadataError::UnexpectedType { config_key, found, gguf_key } => {
            assert_eq!(config_key, "hidden_size");
            assert_eq!(gguf_key, "llama.embedding_length");
            assert_eq!(found.as_str(), Some("big"));
        }
        other => panic!("{:?}", other),
    }
    let config = parse_config(r#"{"model_type": 3}"#).unwrap();
    let e = model_metadata(Some(&config), "m").err().unwrap();
    assert!(matches!(e, MetadataError::NotAString { key } if key == "model_type"));
}

fn number(unsigned: Option<u64>, signed: Option<i64>, double: Option<u64>) -> ConfigValue {
    ConfigValue::Object(vec![(
        "n".to_string(),
        ConfigValue::Number(ConfigNumber { unsigned, signed, double }),
    )])
}

#[test]
fn fields_take_the_first_reading_of_a_number() {
    let all = [
        (number(Some(5), Some(5), Some(2.5f64.to_bits())), Field::Float32(2.5)),
        (number(Some(0x1_0000_0007), Some(9), None), Field::Uint32(7)),
        (number(None, Some(0x2_0000_0003), None), Field::Uint32(3)),
    ];
    for (config, expected) in all {
        let mut writer = GGUFWriter::new();
        add_metadata_field(&mut writer, &config, "k".to_string(), "n", true, None).unwrap();
        assert_eq!(pairs_of(writer), [("k".to_string(), expected)]);
    }
    let mut writer = GGUFWriter::new();
    let config = number(None, Some(-4), None);
    let r = add_metadata_field(&mut writer, &config, "k".to_string(), "n", true, None);
    match r.err().unwrap() {
        MetadataError::Negative { config_key, value, gguf_key } => {
            assert_eq!((config_key.as_str(), value, gguf_key.as_str()), ("n", -4, "k"));
        }
        other => panic!("{:?}", other),
    }
    assert!(pairs_of(writer).is_empty());
}

#[test]
fn fields_that_are_not_configured() {
    let config = ConfigValue::Object(vec![]);
    let mut writer = GGUFWriter::new();
    add_metadata_field(&mut writer, &config, "a".to_string(), "n", false, None).unwrap();
    let default = Some(GGUFValue::Uint32(6));
    add_metadata_field(&mut writer, &config, "b".to_string(), "n", true, default).unwrap();
    let r = add_metadata_field(&mut writer, &config, "c".to_string(), "n", true, None);
    assert!(matches!(r, Err(MetadataError::Missing { config_key }) if config_key == "n"));
    assert_eq!(pairs_of(writer), [("b".to_string(), Field::Uint32(6))]);
}

fn prefix(json: &str) -> Option<&'static str> {
    get_arch_prefix(&parse_config(json).unwrap())
}

#[test]
fn architectures_come_before_the_model_type() {
    assert_eq!(prefix(r#"{"architectures": ["MyLlamaX"]}"#), Some("llama"));
    assert_eq!(prefix(r#"{"architectures": ["MistralLlama"]}"#), Some("llama"));
    assert_eq!(prefix(r#"{"architectures": ["MistralModel", "Llama"]}"#), Some("mistral"));
    assert_eq!(prefix(r#"{"architectures": ["Mixtral"], "model_type": "llama"}"#), Some("mistral"));
    assert_eq!(prefix(r#"{"architectures": ["llama"], "model_type": "llama"}"#), None);
    assert_eq!(prefix(r#"{"architectures": [], "model_type": "llama"}"#), Some("llama"));
    assert_eq!(prefix(r#"{"architectures": [1], "model_type": "mixtral"}"#), Some("mistral"));
    assert_eq!(prefix(r#"{"architectures": "Llama", "model_type": "mistral"}"#), Some("mistral"));
    assert_eq!(prefix(r#"{"model_type": "Llama"}"#), None);
    assert_eq!(prefix(r#"[1]"#), None);
}

#[test]
fn strings_are_got_from_a_configuration() {
    let config = parse_config(r#"{"a": "xé", "b": 1}"#).unwrap();
    assert_eq!(get_string(&config, "a").unwrap(), Some("x\u{e9}".to_string()));
    assert_eq!(get_string(&config, "c").unwrap(), None);
    let e = get_string(&config, "b").err().unwrap();
    assert!(matches!(e, MetadataError::NotAString { key } if key == "b"));
}

#[test]
fn json_is_read() {
    let config = parse_config(
        r#"{"z": null, "a": [true, -3, 1.5, "s"], "big": 18446744073709551615, "z2": {}}"#,
    )
    .unwrap();
    assert!(config.get("z").unwrap().is_null());
    let items = match config.get("a").unwrap() {
        ConfigValue::Array(items) => items,
        other => panic!("{:?}", other),
    };
    assert!(matches!(items[0], ConfigValue::Bool(true)));
    assert_eq!(items[1].as_i64(), Some(-3));
    assert_eq!(items[1].as_u64(), None);
    assert_eq!(items[1].as_double(), Some((-3.0f64).to_bits()));
    assert_eq!(items[2].as_double(), Some(1.5f64.to_bits()));
    assert_eq!(items[2].as_u64(), None);
    assert_eq!(items[3].as_str(), Some("s"));
    let big = config.get("big").unwrap();
    assert_eq!(big.as_u64(), Some(u64::MAX));
    assert_eq!(big.as_i64(), None);
    assert!(matches!(config.get("z2").unwrap(), ConfigValue::Object(m) if m.is_empty()));
    assert!(config.get("missing").is_none());
    assert!(config.get("a").unwrap().get("z").is_none());
    assert!(config.get("a").unwrap().first().is_some());
    assert!(config.first().is_none());
    let copy = config.clone();
    assert_eq!(copy.get("big").unwrap().as_u64(), Some(u64::MAX));
}

#[test]
fn text_that_is_no_json_is_refused() {
    let e = parse_config("{\"a\": }").err().unwrap();
    assert_eq!(e.message, "expected value at line 1 column 7");
}

#[test]
fn element_types_are_mapped() {
    assert_eq!(ggml_type_of(SafeTensorDtype::F64), Some(GGMLTypeRenamed::F64));
    assert_eq!(ggml_type_of(SafeTensorDtype::F32), Some(GGMLTypeRenamed::F32));
    assert_eq!(ggml_type_of(SafeTensorDtype::F16), Some(GGMLTypeRenamed::F16));
    assert_eq!(ggml_type_of(SafeTensorDtype::BF16), Some(GGMLTypeRenamed::BF16));
    assert_eq!(ggml_type_of(SafeTensorDtype::I64), Some(GGMLTypeRenamed::I64));
    assert_eq!(ggml_type_of(SafeTensorDtype::I32), Some(GGMLTypeRenamed::I32));
    assert_eq!(ggml_type_of(SafeTensorDtype::I16), Some(GGMLTypeRenamed::I16));
    assert_eq!(ggml_type_of(SafeTensorDtype::I8), Some(GGMLTypeRenamed::I8));
    for other in [
        SafeTensorDtype::BOOL,
        SafeTensorDtype::U8,
        SafeTensorDtype::U16,
        SafeTensorDtype::U32,
        SafeTensorDtype::U64,
        SafeTensorDtype::F8_E5M2,
        SafeTensorDtype::F8_E4M3,
        SafeTensorDtype::Unknown,
    ] {
        assert_eq!(ggml_type_of(other), None);
    }
}

fn view(dtype: SafeTensorDtype, shape: Vec<usize>, data: &[u8]) -> SafeTensorView<'_> {
    SafeTensorView { dtype, shape, data }
}

#[test]
fn unsupported_tensors_are_skipped() {
    let tensors = [
        ("a".to_string(), view(SafeTensorDtype::F32, vec![1], &[1, 2, 3, 4])),
        ("b".to_string(), view(SafeTensorDtype::U8, vec![2], &[5, 6])),
        ("c".to_string(), view(SafeTensorDtype::I8, vec![3, 1], &[7, 8, 9])),
    ];
    let file = build_from_tensors(&tensors, "m", None).unwrap();
    let (pairs, infos) = parse_file(&file);
    expect(&pairs, &[("general.architecture", text("unknown"))]);
    assert_eq!(infos.len(), 2);
    assert_eq!((infos[0].name.as_str(), infos[0].element_type), ("a", 0));
    assert_eq!(infos[0].dimensions, [1]);
    assert_eq!((infos[1].name.as_str(), infos[1].element_type), ("c", 16));
    assert_eq!(infos[1].dimensions, [3, 1]);
    assert_eq!(&file[infos[0].offset..infos[0].offset + 4], [1, 2, 3, 4]);
    assert_eq!(&file[infos[1].offset..], [7, 8, 9]);
}

#[test]
fn loaded_model_is_built() {
    let mut tensors = HashMap::new();
    let x: Vec<f32> = vec![1.0, -2.0, 3.5];
    let y: Vec<u8> = vec![1, 0];
    let bytes_x: &[u8] = bytemuck::cast_slice(&x);
    tensors.insert("x".to_string(), TensorView::new(Dtype::F32, vec![3], bytes_x).unwrap());
    tensors.insert("h".to_string(), TensorView::new(Dtype::F16, vec![1, 1], &y).unwrap());
    tensors.insert("mask".to_string(), TensorView::new(Dtype::BOOL, vec![2], &y).unwrap());
    let bytes = safetensors::serialize(&tensors, &None).unwrap();
    let model = load_safetensors("m", FileRead::Contents(bytes)).unwrap();
    let config = parse_config(LLAMA).unwrap();
    let file = build_gguf(&model, Some("out"), Some(&config)).unwrap();
    let (pairs, infos) = parse_file(&file);
    assert_eq!(pairs[0], ("general.architecture".to_string(), text("LlamaForCausalLM")));
    assert_eq!(pairs[1], ("general.name".to_string(), text("out")));
    assert_eq!(infos.len(), 2);
    for info in infos {
        let expected: &[u8] = if info.name == "x" { bytes_x } else { &y };
        assert_eq!(info.element_type, if info.name == "x" { 0 } else { 1 });
        assert_eq!(&file[info.offset..info.offset + expected.len()], expected);
    }
    let file = build_gguf(&model, None, Some(&config)).unwrap();
    assert_eq!(parse_file(&file).0[1].1, text("converted_model"));
}

#[test]
fn bad_configuration_comes_before_the_tensors() {
    let model = {
        let bytes = safetensors::serialize(&HashMap::<String, TensorView>::new(), &None).unwrap();
        load_safetensors("m", FileRead::Contents(bytes)).unwrap()
    };
    let config = parse_config(r#"{"model_type": "llama"}"#).unwrap();
    let r = build_gguf(&model, None, Some(&config));
    assert!(matches!(r, Err(BuildError::Metadata(MetadataError::Missing { .. }))));
}

#[test]
fn metadata_errors_say_what_is_wrong() {
    let mut writer = GGUFWriter::new();
    let config = parse_config("{}").unwrap();
    let key = "llama.embedding_length".to_string();
    let r = add_metadata_field(&mut writer, &config, key, "hidden_size", true, None);
    assert_eq!(r.err().unwrap().message(""), "Missing required metadata key: hidden_size");
    assert!(pairs_of(writer).is_empty());

    let config = parse_config(r#"{"model_type": 3}"#).unwrap();
    let e = get_string(&config, "model_type").err().unwrap();
    assert_eq!(e.message(""), "Metadata key 'model_type' is not a valid string");

    for (value, printed) in [(-4, "-4"), (i64::MIN, "-9223372036854775808"), (10, "10")] {
        let e = MetadataError::Negative {
            config_key: "n".to_string(),
            value,
            gguf_key: "k".to_string(),
        };
        assert_eq!(
            e.message(""),
            format!("Metadata key 'n' has negative value ({}) unsuitable for GGUF key 'k'", printed)
        );
    }

    let e = MetadataError::UnexpectedType {
        config_key: "n".to_string(),
        found: ConfigValue::Bool(true),
        gguf_key: "k".to_string(),
    };
    let expected = "Metadata key 'n' has unexpected type 'Bool(true)' for GGUF key 'k'";
    assert_eq!(e.message("Bool(true)"), expected);
    assert_eq!(BuildError::Metadata(e).message("Bool(true)"), expected);
    assert_eq!(BuildError::TooLarge.message(""), "The GGUF file would be too large");
}
