//! Building a GGUF file from a SafeTensors file and a configuration.

use crate::config::{ConfigValue, Json};
use crate::gguf_laws;
use crate::gguf_tensor::{GGMLTypeRenamed, TensorInfo, TensorInfoModel};
use crate::gguf_value::ValueModel;
use crate::gguf_writer;
use crate::gguf_writer::{GGUFWriter, WriterModel};
use crate::metadata;
use crate::metadata::{model_metadata, MetadataError, MetadataFault};
use crate::safetensors_model;
use crate::safetensors_model::{SafeTensorDtype, SafeTensorView, SafeTensorsModel, SourceTensor, TensorError};
use crate::sink::ByteSink;
use vstd::prelude::*;

verus! {

/// The element type in a GGUF file that stands for one in a SafeTensors file, where there is one.
pub open spec fn element_type(dtype: SafeTensorDtype) -> Option<GGMLTypeRenamed> {
    match dtype {
        SafeTensorDtype::F64 => Some(GGMLTypeRenamed::F64),
        SafeTensorDtype::F32 => Some(GGMLTypeRenamed::F32),
        SafeTensorDtype::F16 => Some(GGMLTypeRenamed::F16),
        SafeTensorDtype::BF16 => Some(GGMLTypeRenamed::BF16),
        SafeTensorDtype::I64 => Some(GGMLTypeRenamed::I64),
        SafeTensorDtype::I32 => Some(GGMLTypeRenamed::I32),
        SafeTensorDtype::I16 => Some(GGMLTypeRenamed::I16),
        SafeTensorDtype::I8 => Some(GGMLTypeRenamed::I8),
        _ => None,
    }
}

/// The element type in a GGUF file that stands for one in a SafeTensors file, where there is one.
pub fn ggml_type_of(dtype: SafeTensorDtype) -> (r: Option<GGMLTypeRenamed>)
    ensures
        r == element_type(dtype),
{
    match dtype {
        SafeTensorDtype::F64 => Some(GGMLTypeRenamed::F64),
        SafeTensorDtype::F32 => Some(GGMLTypeRenamed::F32),
        SafeTensorDtype::F16 => Some(GGMLTypeRenamed::F16),
        SafeTensorDtype::BF16 => Some(GGMLTypeRenamed::BF16),
        SafeTensorDtype::I64 => Some(GGMLTypeRenamed::I64),
        SafeTensorDtype::I32 => Some(GGMLTypeRenamed::I32),
        SafeTensorDtype::I16 => Some(GGMLTypeRenamed::I16),
        SafeTensorDtype::I8 => Some(GGMLTypeRenamed::I8),
        _ => None,
    }
}

/// The tensors whose element type a GGUF file can hold, in their order.
pub open spec fn kept(tensors: Seq<(Seq<char>, SourceTensor)>) -> Seq<(Seq<char>, SourceTensor)> {
    tensors.filter(|t: (Seq<char>, SourceTensor)| element_type(t.1.dtype) is Some)
}

/// What a GGUF file says about a tensor whose element type it can hold.
pub open spec fn info_of(t: (Seq<char>, SourceTensor)) -> TensorInfoModel {
    TensorInfoModel {
        name: t.0,
        dimensions: Seq::new(t.1.shape.len(), |i: int| t.1.shape[i] as u64),
        ggml_type: element_type(t.1.dtype)->0,
        offset: 0,
    }
}

/// What a GGUF file says about several tensors.
pub open spec fn infos_of(tensors: Seq<(Seq<char>, SourceTensor)>) -> Seq<TensorInfoModel> {
    Seq::new(tensors.len(), |i: int| info_of(tensors[i]))
}

/// The bytes of several tensors.
pub open spec fn data_of(tensors: Seq<(Seq<char>, SourceTensor)>) -> Seq<Seq<u8>> {
    Seq::new(tensors.len(), |i: int| tensors[i].1.data)
}

/// A writer with the given metadata and the given tensors.
pub open spec fn writer_of(
    entries: Seq<(Seq<char>, ValueModel)>,
    tensors: Seq<(Seq<char>, SourceTensor)>,
) -> WriterModel {
    WriterModel {
        metadata: entries,
        tensor_infos: infos_of(tensors),
        ..gguf_writer::empty_writer()
    }
}

/// Why a GGUF file could not be built.
#[derive(Debug)]
pub enum BuildError {
    /// The metadata could not be taken from the configuration.
    Metadata(MetadataError),
    /// The tensors could not be got from the SafeTensors file.
    Tensors(TensorError),
    /// A position in the file would be more than a 64-bit number holds.
    TooLarge,
}

impl BuildError {
    /// What the error says. `shown` is how a value of an unexpected type prints.
    pub open spec fn text(self, shown: Seq<char>) -> Seq<char> {
        match self {
            BuildError::Metadata(e) => e@.text(shown),
            BuildError::Tensors(e) => e.text(),
            BuildError::TooLarge => "The GGUF file would be too large"@,
        }
    }

    /// What the error says. `shown` is how a value of an unexpected type prints.
    pub fn message(&self, shown: &str) -> (r: String)
        ensures
            r@ == self.text(shown@),
    {
        match self {
            BuildError::Metadata(e) => e.message(shown),
            BuildError::Tensors(e) => e.message(),
            BuildError::TooLarge => "The GGUF file would be too large".to_owned(),
        }
    }
}

/// What building a file gives: its bytes, or what is wrong with the metadata, or that it is too
/// large.
pub enum BuildOutcome {
    File(Seq<u8>),
    BadMetadata(MetadataFault),
    TooLarge,
}

/// What building a file from tensors in a given order gives.
pub open spec fn build_outcome(
    tensors: Seq<(Seq<char>, SourceTensor)>,
    model_name: Seq<char>,
    config: Option<Json>,
) -> BuildOutcome {
    match metadata::metadata_of(config, model_name) {
        Err(fault) => BuildOutcome::BadMetadata(fault),
        Ok(entries) => {
            let w = writer_of(entries, kept(tensors));
            let data = data_of(kept(tensors));
            if w.fits(0, data) {
                BuildOutcome::File(w.file(0, data))
            } else {
                BuildOutcome::TooLarge
            }
        },
    }
}

/// `r` is what `outcome` says.
pub open spec fn agrees(r: Result<Vec<u8>, BuildError>, outcome: BuildOutcome) -> bool {
    match outcome {
        BuildOutcome::File(bytes) => r matches Ok(file) && file@ == bytes,
        BuildOutcome::BadMetadata(fault) => r matches Err(BuildError::Metadata(e)) && e@ == fault,
        BuildOutcome::TooLarge => r matches Err(BuildError::TooLarge),
    }
}

/// The content of an optional configuration.
pub open spec fn config_content(config: Option<&ConfigValue>) -> Option<Json> {
    match config {
        Some(c) => Some(c@),
        None => None,
    }
}

/// No value is an array.
pub open spec fn flat(entries: Seq<(Seq<char>, ValueModel)>) -> bool {
    forall|i: int| 0 <= i < entries.len() ==> (#[trigger] entries[i]).1 !is Array
}

/// No value in what was collected, if anything was, is an array.
pub open spec fn flat_result(
    entries: Result<Seq<(Seq<char>, ValueModel)>, MetadataFault>,
) -> bool {
    entries matches Ok(e) ==> flat(e)
}

proof fn lemma_put_flat(entries: Seq<(Seq<char>, ValueModel)>, key: Seq<char>, value: ValueModel)
    requires
        flat(entries),
        value !is Array,
    ensures
        flat(gguf_writer::put_entry(entries, key, value)),
{
    let after = gguf_writer::put_entry(entries, key, value);
    assert forall|i: int| 0 <= i < after.len() implies (#[trigger] after[i]).1 !is Array by {
        if i < entries.len() {
            assert(entries[i].1 !is Array);
        }
    }
}

broadcast proof fn lemma_count_flat(
    entries: Seq<(Seq<char>, ValueModel)>,
    key: Seq<char>,
    count: Option<u32>,
)
    requires
        flat(entries),
    ensures
        #[trigger] flat(metadata::with_count(entries, key, count)),
{
    if let Some(n) = count {
        lemma_put_flat(entries, key, ValueModel::Uint32(n));
    }
}

broadcast proof fn lemma_field_flat(
    entries: Result<Seq<(Seq<char>, ValueModel)>, MetadataFault>,
    config: Json,
    gguf_key: Seq<char>,
    config_key: Seq<char>,
    required: bool,
    default_val: Option<ValueModel>,
)
    requires
        flat_result(entries),
        default_val matches Some(v) ==> v !is Array,
    ensures
        #[trigger] flat_result(
            metadata::with_field(entries, config, gguf_key, config_key, required, default_val),
        ),
{
    if let Ok(e) = entries {
        if let Ok(Some(v)) = metadata::field(
            config,
            gguf_key,
            config_key,
            required,
            default_val,
        ) {
            lemma_put_flat(e, gguf_key, v);
        }
    }
}

proof fn lemma_dimensions_flat(
    entries: Seq<(Seq<char>, ValueModel)>,
    config: Json,
    prefix: Seq<char>,
)
    requires
        flat(entries),
    ensures
        flat_result(metadata::with_dimensions(entries, config, prefix)),
{
    broadcast use lemma_field_flat;

    assert(flat_result(Ok(entries)));
}

proof fn lemma_heads_flat(
    entries: Seq<(Seq<char>, ValueModel)>,
    config: Json,
    prefix: Seq<char>,
)
    requires
        flat(entries),
    ensures
        flat_result(metadata::with_heads_and_experts(entries, config, prefix)),
{
    broadcast use {lemma_field_flat, lemma_count_flat};

}

proof fn lemma_tokenizer_flat(entries: Seq<(Seq<char>, ValueModel)>, config: Json)
    requires
        flat(entries),
    ensures
        flat(metadata::with_tokenizer(entries, config)),
{
    broadcast use lemma_count_flat;

    let model = match metadata::arch_prefix(config) {
        Some(prefix) => prefix,
        None => "unknown"@,
    };
    lemma_put_flat(entries, "tokenizer.ggml.model"@, ValueModel::String(model));
}

/// The metadata of a model holds no arrays, so that it can always be written.
pub proof fn law_metadata_can_be_written(config: Option<Json>, model_name: Seq<char>)
    ensures
        metadata::metadata_of(config, model_name) matches Ok(entries) ==> flat(entries)
            && gguf_writer::metadata_emission(entries).complete,
{
    let nothing = Seq::<(Seq<char>, ValueModel)>::empty();
    match config {
        None => {
            lemma_put_flat(
                nothing,
                "general.architecture"@,
                ValueModel::String("unknown"@),
            );
        },
        Some(c) => {
            if let Ok(name) = metadata::arch_name(c) {
                let first = gguf_writer::put_entry(
                    nothing,
                    "general.architecture"@,
                    ValueModel::String(name),
                );
                lemma_put_flat(nothing, "general.architecture"@, ValueModel::String(name));
                lemma_put_flat(first, "general.name"@, ValueModel::String(model_name));
                let named = gguf_writer::put_entry(
                    first,
                    "general.name"@,
                    ValueModel::String(model_name),
                );
                let inner = metadata::text_config(c);
                if let Some(prefix) = metadata::arch_prefix(c) {
                    lemma_dimensions_flat(named, inner, prefix);
                    if let Ok(e) = metadata::with_dimensions(named, inner, prefix) {
                        lemma_heads_flat(e, inner, prefix);
                        if let Ok(e) = metadata::with_heads_and_experts(e, inner, prefix) {
                            lemma_tokenizer_flat(e, c);
                        }
                    }
                } else {
                    lemma_tokenizer_flat(named, c);
                }
            }
        },
    }
    if let Ok(entries) = metadata::metadata_of(config, model_name) {
        gguf_laws::law_metadata_written_iff_uniform(entries);
        assert forall|i: int| 0 <= i < entries.len() implies gguf_laws::uniform(
            (#[trigger] entries[i]).1,
        ) by {
            assert(entries[i].1 !is Array);
        }
    }
}

/// Every tensor that is kept has an element type that a GGUF file can hold.
pub proof fn lemma_kept_supported(tensors: Seq<(Seq<char>, SourceTensor)>, i: int)
    requires
        0 <= i < kept(tensors).len(),
    ensures
        element_type(kept(tensors)[i].1.dtype) is Some,
    decreases tensors.len(),
{
    reveal(Seq::filter);
    if tensors.len() > 0 && i < kept(tensors.drop_last()).len() {
        lemma_kept_supported(tensors.drop_last(), i);
    }
}

/// Puts the infos of the tensors whose element type a GGUF file can hold into a writer, and
/// collects their bytes.
fn add_tensors<'data>(
    writer: &mut GGUFWriter,
    tensors: &[(String, SafeTensorView<'data>)],
) -> (data: Vec<&'data [u8]>)
    ensures
        final(writer)@ == (WriterModel {
            tensor_infos: old(writer)@.tensor_infos + infos_of(
                kept(safetensors_model::tensor_contents(tensors@)),
            ),
            ..old(writer)@
        }),
        gguf_writer::contents(data@) == data_of(
            kept(safetensors_model::tensor_contents(tensors@)),
        ),
{
    let mut data: Vec<&'data [u8]> = Vec::new();
    let ghost all = safetensors_model::tensor_contents(tensors@);
    let ghost first = writer@;
    proof {
        assert(all.take(0) =~= Seq::empty());
        reveal(Seq::filter);
        assert(kept(all.take(0)) =~= Seq::empty());
        assert(writer@.tensor_infos =~= first.tensor_infos + infos_of(kept(all.take(0))));
        assert(gguf_writer::contents(data@) =~= data_of(kept(all.take(0))));
    }
    let mut i: usize = 0;
    while i < tensors.len()
        invariant
            i <= tensors@.len(),
            all == safetensors_model::tensor_contents(tensors@),
            first == old(writer)@,
            writer@ == (WriterModel {
                tensor_infos: first.tensor_infos + infos_of(kept(all.take(i as int))),
                ..first
            }),
            gguf_writer::contents(data@) == data_of(kept(all.take(i as int))),
        decreases tensors@.len() - i,
    {
        let ghost done = kept(all.take(i as int));
        let ghost here = all[i as int];
        let view = &tensors[i].1;
        proof {
            assert(all.take(i + 1).drop_last() =~= all.take(i as int));
            assert(all.take(i + 1).last() == here);
            reveal(Seq::filter);
        }
        match ggml_type_of(view.dtype()) {
            Some(ggml_type) => {
                let info = TensorInfo {
                    name: tensors[i].0.clone(),
                    dimensions: widened(view.shape()),
                    ggml_type,
                    offset: 0,
                };
                let ghost before = data@;
                proof {
                    assert(info@.at(0) =~= info_of(here));
                    assert(kept(all.take(i + 1)) =~= done.push(here));
                    assert(infos_of(done.push(here)) =~= infos_of(done).push(info_of(here)));
                    assert(data_of(done.push(here)) =~= data_of(done).push(here.1.data));
                }
                writer.add_tensor_info(info);
                data.push(view.data());
                proof {
                    assert(first.tensor_infos + infos_of(done).push(info_of(here)) =~= (
                    first.tensor_infos + infos_of(done)).push(info_of(here)));
                    assert(gguf_writer::contents(data@) =~= gguf_writer::contents(before).push(
                        here.1.data,
                    ));
                }
            },
            None => {
                assert(kept(all.take(i + 1)) =~= done);
            },
        }
        i = i + 1;
    }
    assert(all.take(i as int) =~= all);
    data
}

/// Dimensions as 64-bit numbers.
fn widened(shape: &[usize]) -> (r: Vec<u64>)
    ensures
        r@ == Seq::new(shape@.len(), |i: int| shape@[i] as u64),
{
    let mut r: Vec<u64> = Vec::new();
    let mut i: usize = 0;
    while i < shape.len()
        invariant
            i <= shape@.len(),
            r@.len() == i,
            forall|j: int| 0 <= j < i ==> #[trigger] r@[j] == shape@[j] as u64,
        decreases shape@.len() - i,
    {
        r.push(shape[i] as u64);
        i = i + 1;
    }
    assert(r@ =~= Seq::new(shape@.len(), |i: int| shape@[i] as u64));
    r
}

/// Writes the file of a model whose metadata the writer holds and whose tensors are given.
fn write_model(writer: GGUFWriter, tensors: &[(String, SafeTensorView<'_>)]) -> (r: Option<Vec<u8>>)
    requires
        writer@.tensor_infos.len() == 0,
        gguf_writer::metadata_emission(writer@.metadata).complete,
    ensures
        ({
            let all = kept(safetensors_model::tensor_contents(tensors@));
            let w = WriterModel { tensor_infos: infos_of(all), ..writer@ };
            if w.fits(0, data_of(all)) {
                r matches Some(file) && file@ == w.file(0, data_of(all))
            } else {
                r is None
            }
        }),
{
    let mut writer = writer;
    let ghost first = writer@;
    let ghost all = kept(safetensors_model::tensor_contents(tensors@));
    let data = add_tensors(&mut writer, tensors);
    proof {
        assert(first.tensor_infos + infos_of(all) =~= infos_of(all));
    }
    let ghost w = writer@;
    if !writer.fits(0, data.as_slice()) {
        return None;
    }
    let mut sink = ByteSink::new();
    let _ = writer.write(&mut sink, data.as_slice());
    proof {
        gguf_laws::law_empty_sink_holds_file(w, data_of(all));
    }
    Some(sink.into_inner())
}

/// Builds the GGUF file of a model from its tensors, its name and its configuration.
pub fn build_from_tensors(
    tensors: &[(String, SafeTensorView<'_>)],
    model_name: &str,
    config: Option<&ConfigValue>,
) -> (r: Result<Vec<u8>, BuildError>)
    ensures
        agrees(
            r,
            build_outcome(
                safetensors_model::tensor_contents(tensors@),
                model_name@,
                config_content(config),
            ),
        ),
{
    proof {
        law_metadata_can_be_written(config_content(config), model_name@);
    }
    let writer = match model_metadata(config, model_name) {
        Ok(writer) => writer,
        Err(e) => {
            return Err(BuildError::Metadata(e));
        },
    };
    match write_model(writer, tensors) {
        Some(file) => Ok(file),
        None => Err(BuildError::TooLarge),
    }
}

/// The name of a model: the stem of the name of its file, where that is text.
pub open spec fn name_of(stem: Option<&str>) -> Seq<char> {
    match stem {
        Some(s) => s@,
        None => "converted_model"@,
    }
}

/// Builds the GGUF file of a loaded model. `stem` is the stem of the name of the file to be
/// written. The tensors stand in the file in the order in which the model lists them.
pub fn build_gguf(
    model: &SafeTensorsModel,
    stem: Option<&str>,
    config: Option<&ConfigValue>,
) -> (r: Result<Vec<u8>, BuildError>)
    ensures
        exists|tensors: Seq<(Seq<char>, SourceTensor)>|
            safetensors_model::lists(tensors, model.content()) && agrees(
                r,
                #[trigger] build_outcome(tensors, name_of(stem), config_content(config)),
            ),
{
    let model_name = match stem {
        Some(s) => s,
        None => "converted_model",
    };
    let tensors = match model.tensors() {
        Ok(tensors) => tensors,
        Err(e) => {
            return Err(BuildError::Tensors(e));
        },
    };
    let r = build_from_tensors(tensors.as_slice(), model_name, config);
    assert(agrees(
        r,
        build_outcome(
            safetensors_model::tensor_contents(tensors@),
            name_of(stem),
            config_content(config),
        ),
    ));
    r
}

} // verus!
