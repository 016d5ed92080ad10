# GGUF Builder

A library and a tool that convert model weights from the SafeTensors format into GGUF v3 files.
The library is written in Verus: its behaviour is stated in contracts and proved.

## Layout

* `src/gguf_value.rs`, `src/gguf_tensor.rs`, `src/gguf_writer.rs`: metadata values, tensor infos,
  and the writer that puts a file together.
* `src/gguf_read.rs`, `src/gguf_laws.rs`: how a file is read, and what holds of every file: it
  reads back as what was written, and every tensor lies aligned at the position its info gives.
* `src/safetensors_model.rs`, `src/safetensors_header.rs`: loading SafeTensors files.
* `src/config.rs`, `src/config_parse.rs`: model configurations in JSON.
* `src/metadata.rs`, `src/conversion.rs`, `src/conversion_laws.rs`: from a loaded model and its
  configuration to a GGUF file.
* `src/narrow.rs`: rounding of double-precision numbers to single precision on bit patterns.
* `src/le.rs`, `src/sink.rs`, `src/text.rs`, `src/error.rs`: bytes, an in-memory file, text, errors.
* `app/main.rs`: the command-line tool.

The calls into `byteorder`, `serde_json` and `safetensors` stand in small functions whose contracts
are taken on trust; their doc comments say what is claimed.

## Usage

```
ggml-builder --input path/to/model.safetensors --output path/to/model.gguf
```

A `config.json` beside the input is used for the metadata.
