//! A GGUF file as a whole: its header, its layout, and the writer that puts it together.

use crate::error::GGUFWriteError;
use crate::gguf_tensor::{write_tensor_info, TensorInfo, TensorInfoModel};
use crate::gguf_value;
use crate::gguf_value::{write_metadata_kv, Emission, GGUFValue, ValueModel};
use crate::le;
use crate::sink;
use crate::sink::ByteSink;
use vstd::prelude::*;

verus! {

/// "GGUF" in little-endian order.
pub const GGUF_MAGIC: u32 = 0x46554747;

/// The version of the format.
pub const GGUF_VERSION: u32 = 3;

/// Tensor data starts at multiples of this.
pub const GGUF_DEFAULT_ALIGNMENT: u64 = 32;

/// The first part of a file.
#[derive(Debug, Clone, Copy)]
pub struct GGUFHeader {
    pub magic: u32,
    pub version: u32,
    pub tensor_count: u64,
    pub metadata_kv_count: u64,
}

impl Default for GGUFHeader {
    /// The header of a file without tensors and metadata.
    fn default() -> (r: GGUFHeader)
        ensures
            r == empty_header(),
    {
        GGUFHeader {
            magic: GGUF_MAGIC,
            version: GGUF_VERSION,
            tensor_count: 0,
            metadata_kv_count: 0,
        }
    }
}

/// The header of a file without tensors and metadata.
pub open spec fn empty_header() -> GGUFHeader {
    GGUFHeader { magic: GGUF_MAGIC, version: GGUF_VERSION, tensor_count: 0, metadata_kv_count: 0 }
}

/// A header in a file.
pub open spec fn header_bytes(h: GGUFHeader) -> Seq<u8> {
    le::le_bytes(h.magic as nat, 4) + le::le_bytes(h.version as nat, 4) + le::le_bytes(
        h.tensor_count as nat,
        8,
    ) + le::le_bytes(h.metadata_kv_count as nat, 8)
}

/// How many bytes lie between `pos` and the next multiple of the alignment.
pub open spec fn padding_at(pos: nat) -> nat {
    ((GGUF_DEFAULT_ALIGNMENT - pos % (GGUF_DEFAULT_ALIGNMENT as nat))
        % (GGUF_DEFAULT_ALIGNMENT as int)) as nat
}

/// The first multiple of the alignment from `pos` on.
pub open spec fn align_up(pos: nat) -> nat {
    pos + padding_at(pos)
}

/// `n` bytes that are zero.
pub open spec fn zeros(n: nat) -> Seq<u8> {
    Seq::new(n, |i: int| 0u8)
}

/// Writes the header.
pub fn write_header(writer: &mut ByteSink, header: &GGUFHeader) -> (r: Result<(), GGUFWriteError>)
    requires
        old(writer).wf(),
    ensures
        r is Ok,
        final(writer).wf(),
        final(writer)@ == old(writer)@.after_write(header_bytes(*header)),
{
    let ghost start = writer@;
    writer.write_u32(header.magic);
    writer.write_u32(header.version);
    writer.write_u64(header.tensor_count);
    writer.write_u64(header.metadata_kv_count);
    proof {
        let a = le::le_bytes(header.magic as nat, 4);
        let b = le::le_bytes(header.version as nat, 4);
        let c = le::le_bytes(header.tensor_count as nat, 8);
        let d = le::le_bytes(header.metadata_kv_count as nat, 8);
        sink::lemma_write_write(start, a, b);
        sink::lemma_write_write(start, a + b, c);
        sink::lemma_write_write(start, a + b + c, d);
    }
    Ok(())
}

/// Writes zero bytes up to the next multiple of the alignment, and says how many.
pub fn write_padding(writer: &mut ByteSink) -> (r: Result<u64, GGUFWriteError>)
    requires
        old(writer).wf(),
    ensures
        r matches Ok(n) && n == padding_at(old(writer)@.pos),
        final(writer).wf(),
        final(writer)@ == old(writer)@.after_write(zeros(padding_at(old(writer)@.pos))),
{
    let ghost start = writer@;
    let current_pos: u64 = writer.stream_position();
    let alignment: u64 = GGUF_DEFAULT_ALIGNMENT;
    let padding: u64 = (alignment - (current_pos % alignment)) % alignment;
    if padding > 0 {
        let zero_buf: [u8; 32] = [0u8; 32];
        writer.write_all(vstd::slice::slice_subrange(zero_buf.as_slice(), 0, padding as usize));
        assert(zero_buf@.subrange(0, padding as int) =~= zeros(padding as nat));
    } else {
        proof {
            assert(zeros(0) =~= Seq::empty());
            sink::lemma_write_empty(start);
        }
    }
    Ok(padding)
}

/// Writes the bytes of a tensor as they are.
pub fn write_tensor_data(writer: &mut ByteSink, data: &[u8]) -> (r: Result<(), GGUFWriteError>)
    requires
        old(writer).wf(),
    ensures
        r is Ok,
        final(writer).wf(),
        final(writer)@ == old(writer)@.after_write(data@),
{
    writer.write_all(data);
    Ok(())
}

/// The content of a writer.
#[verifier::ext_equal]
pub struct WriterModel {
    pub header: GGUFHeader,
    pub metadata: Seq<(Seq<char>, ValueModel)>,
    pub tensor_infos: Seq<TensorInfoModel>,
}

/// What writing metadata puts out: the pairs in order, up to the first that is cut short.
pub open spec fn metadata_emission(entries: Seq<(Seq<char>, ValueModel)>) -> Emission
    decreases entries.len(),
{
    if entries.len() == 0 {
        gguf_value::whole(Seq::empty())
    } else {
        let before = metadata_emission(entries.drop_last());
        if !before.complete {
            before
        } else {
            let last = gguf_value::kv_emission(entries.last().0, entries.last().1);
            Emission { bytes: before.bytes + last.bytes, complete: last.complete }
        }
    }
}

/// Tensor infos in a file.
pub open spec fn infos_bytes(infos: Seq<TensorInfoModel>) -> Seq<u8>
    decreases infos.len(),
{
    if infos.len() == 0 {
        Seq::empty()
    } else {
        infos_bytes(infos.drop_last()) + infos.last().bytes()
    }
}

/// The position of tensor `i` when the data of the first tensor is at `start`: each tensor is
/// put at the first multiple of the alignment behind the one before it.
pub open spec fn tensor_offset(start: nat, data: Seq<Seq<u8>>, i: int) -> nat
    decreases i,
{
    if i <= 0 {
        start
    } else {
        align_up(tensor_offset(start, data, i - 1) + data[i - 1].len())
    }
}

/// The infos with the positions of their data filled in.
pub open spec fn place(
    infos: Seq<TensorInfoModel>,
    start: nat,
    data: Seq<Seq<u8>>,
) -> Seq<TensorInfoModel> {
    Seq::new(infos.len(), |i: int| infos[i].at(tensor_offset(start, data, i) as u64))
}

/// Tensor data in a file, from position `start` on: zero bytes fill the gaps between tensors,
/// and nothing follows the last one.
pub open spec fn data_section(start: nat, data: Seq<Seq<u8>>) -> Seq<u8>
    decreases data.len(),
{
    if data.len() == 0 {
        Seq::empty()
    } else if data.len() == 1 {
        data[0]
    } else {
        let before = data_section(start, data.drop_last());
        before + zeros(padding_at(start + before.len())) + data.last()
    }
}

impl WriterModel {
    /// The writer with the counts of its header brought up to date.
    pub open spec fn counted(self) -> WriterModel {
        WriterModel {
            header: GGUFHeader {
                tensor_count: self.tensor_infos.len() as u64,
                metadata_kv_count: self.metadata.len() as u64,
                ..self.header
            },
            ..self
        }
    }

    /// What is put out before the tensor infos: the header, then the metadata.
    pub open spec fn preamble(self) -> Emission {
        let meta = metadata_emission(self.metadata);
        Emission {
            bytes: header_bytes(self.counted().header) + meta.bytes,
            complete: meta.complete,
        }
    }

    /// Where the tensor infos end in a file that begins at `pos`.
    pub open spec fn infos_end(self, pos: nat) -> nat {
        pos + self.preamble().bytes.len() + infos_bytes(self.tensor_infos).len()
    }

    /// Where the tensor data starts in a file that begins at `pos`.
    pub open spec fn data_start(self, pos: nat) -> nat {
        align_up(self.infos_end(pos))
    }

    /// The writer with up-to-date counts and with the positions of `data` filled in.
    pub open spec fn placed(self, pos: nat, data: Seq<Seq<u8>>) -> WriterModel {
        WriterModel {
            tensor_infos: place(self.tensor_infos, self.data_start(pos), data),
            ..self.counted()
        }
    }

    /// A whole file that begins at `pos`: the header, the metadata, the tensor infos, padding
    /// up to the alignment, and the tensor data.
    pub open spec fn file(self, pos: nat, data: Seq<Seq<u8>>) -> Seq<u8> {
        self.preamble().bytes + infos_bytes(self.placed(pos, data).tensor_infos) + zeros(
            padding_at(self.infos_end(pos)),
        ) + data_section(self.data_start(pos), data)
    }

    /// Every position in a file that begins at `pos`, up to the first multiple of the alignment
    /// behind the last tensor, is a 64-bit number; nothing is asked where no file comes about.
    pub open spec fn fits(self, pos: nat, data: Seq<Seq<u8>>) -> bool {
        self.tensor_infos.len() == data.len() && self.preamble().complete ==> tensor_offset(
            self.data_start(pos),
            data,
            data.len() as int,
        ) <= u64::MAX
    }
}

/// The contents of several byte slices.
pub open spec fn contents(data: Seq<&[u8]>) -> Seq<Seq<u8>> {
    Seq::new(data.len(), |i: int| data[i]@)
}

/// The contents of several tensor infos.
pub open spec fn info_models(infos: Seq<TensorInfo>) -> Seq<TensorInfoModel> {
    Seq::new(infos.len(), |i: int| infos[i]@)
}

/// The contents of several metadata pairs.
pub open spec fn entry_models(entries: Seq<(String, GGUFValue)>) -> Seq<(Seq<char>, ValueModel)> {
    Seq::new(entries.len(), |i: int| (entries[i].0@, entries[i].1@))
}

/// What a sink holds after `file` has been written to it at its position and `header` over its
/// first bytes.
pub open spec fn finished(start: sink::SinkState, file: Seq<u8>, header: Seq<u8>) -> sink::SinkState {
    sink::SinkState {
        bytes: sink::overwrite(start.after_write(file).bytes, 0, header),
        pos: start.pos + file.len(),
    }
}

/// Aligning gives a multiple of the alignment, and less than one alignment further on.
pub proof fn lemma_align_up(pos: nat)
    ensures
        padding_at(pos) < GGUF_DEFAULT_ALIGNMENT,
        align_up(pos) % (GGUF_DEFAULT_ALIGNMENT as nat) == 0,
        pos <= align_up(pos) < pos + GGUF_DEFAULT_ALIGNMENT,
        padding_at(align_up(pos)) == 0,
{
}

/// Tensors lie one behind the other.
pub proof fn lemma_offsets_ascend(start: nat, data: Seq<Seq<u8>>, i: int, j: int)
    requires
        0 <= i <= j <= data.len(),
    ensures
        start <= tensor_offset(start, data, i) <= tensor_offset(start, data, j),
        i < j ==> tensor_offset(start, data, i) + data[i].len() <= tensor_offset(start, data, j),
    decreases j,
{
    if i < j {
        lemma_offsets_ascend(start, data, i, j - 1);
        lemma_align_up(tensor_offset(start, data, j - 1) + data[j - 1].len());
    } else if i > 0 {
        lemma_offsets_ascend(start, data, i - 1, j - 1);
        lemma_align_up(tensor_offset(start, data, j - 1) + data[j - 1].len());
    }
}

/// The size of a tensor info does not depend on its offset.
pub proof fn lemma_info_len(info: TensorInfoModel, offset: u64)
    ensures
        info.at(offset).bytes().len() == info.bytes().len(),
{
    le::lemma_le_bytes_len(info.offset as nat, 8);
    le::lemma_le_bytes_len(offset as nat, 8);
}

/// The size of the tensor infos does not depend on the positions filled in.
pub proof fn lemma_infos_len(infos: Seq<TensorInfoModel>, start: nat, data: Seq<Seq<u8>>)
    ensures
        infos_bytes(place(infos, start, data)).len() == infos_bytes(infos).len(),
    decreases infos.len(),
{
    if infos.len() > 0 {
        let placed = place(infos, start, data);
        assert(placed.drop_last() =~= place(infos.drop_last(), start, data));
        lemma_infos_len(infos.drop_last(), start, data);
        lemma_info_len(infos.last(), placed.last().offset);
    }
}

/// Up to tensor `i`, the data section ends where tensor `i` does.
pub proof fn lemma_section_end(start: nat, data: Seq<Seq<u8>>, i: int)
    requires
        0 <= i < data.len(),
    ensures
        start + data_section(start, data.take(i + 1)).len() == tensor_offset(start, data, i)
            + data[i].len(),
    decreases i,
{
    let part = data.take(i + 1);
    if i == 0 {
        assert(part.len() == 1);
    } else {
        assert(part.drop_last() =~= data.take(i));
        lemma_section_end(start, data, i - 1);
    }
}

/// Once metadata is cut short, nothing more of it is put out.
proof fn lemma_metadata_stop(entries: Seq<(Seq<char>, ValueModel)>, k: int)
    requires
        0 <= k <= entries.len(),
        !metadata_emission(entries.take(k)).complete,
    ensures
        metadata_emission(entries) == metadata_emission(entries.take(k)),
    decreases entries.len() - k,
{
    if k == entries.len() {
        assert(entries.take(k) =~= entries);
    } else {
        assert(entries.take(k + 1).drop_last() =~= entries.take(k));
        lemma_metadata_stop(entries, k + 1);
    }
}

/// Puts a GGUF file together from metadata and tensors.
pub struct GGUFWriter {
    header: GGUFHeader,
    metadata: Vec<(String, GGUFValue)>,
    tensor_infos: Vec<TensorInfo>,
}

impl View for GGUFWriter {
    type V = WriterModel;

    closed spec fn view(&self) -> WriterModel {
        WriterModel {
            header: self.header,
            metadata: entry_models(self.metadata@),
            tensor_infos: info_models(self.tensor_infos@),
        }
    }
}

/// `entries` has a pair with the key `key`.
pub open spec fn has_key(entries: Seq<(Seq<char>, ValueModel)>, key: Seq<char>) -> bool {
    exists|i: int| 0 <= i < entries.len() && (#[trigger] entries[i]).0 == key
}

/// No key occurs twice.
pub open spec fn distinct_keys(entries: Seq<(Seq<char>, ValueModel)>) -> bool {
    forall|i: int, j: int|
        0 <= i < j < entries.len() ==> (#[trigger] entries[i]).0 != (#[trigger] entries[j]).0
}

/// `entries` with `value` under `key`: in place of the value that was there, or at the end.
pub open spec fn put_entry(
    entries: Seq<(Seq<char>, ValueModel)>,
    key: Seq<char>,
    value: ValueModel,
) -> Seq<(Seq<char>, ValueModel)> {
    if has_key(entries, key) {
        Seq::new(
            entries.len(),
            |i: int|
                if entries[i].0 == key {
                    (key, value)
                } else {
                    entries[i]
                },
        )
    } else {
        entries.push((key, value))
    }
}

/// A writer without metadata and tensors.
pub open spec fn empty_writer() -> WriterModel {
    WriterModel { header: empty_header(), metadata: Seq::empty(), tensor_infos: Seq::empty() }
}

impl Default for GGUFWriter {
    /// A writer without metadata and tensors.
    fn default() -> (r: GGUFWriter)
        ensures
            r.wf(),
            r@ == empty_writer(),
    {
        let r = GGUFWriter {
            header: GGUFHeader::default(),
            metadata: Vec::new(),
            tensor_infos: Vec::new(),
        };
        assert(r@ =~= empty_writer());
        r
    }
}

impl GGUFWriter {
    /// No metadata key occurs twice.
    pub open spec fn wf(&self) -> bool {
        distinct_keys(self@.metadata)
    }

    /// Creates a new, empty writer.
    pub fn new() -> (r: GGUFWriter)
        ensures
            r.wf(),
            r@ == empty_writer(),
    {
        GGUFWriter::default()
    }

    /// Adds a metadata key-value pair. Replaces the value if the key is there already.
    pub fn add_metadata(&mut self, key: String, value: GGUFValue)
        requires
            old(self).wf(),
        ensures
            final(self).wf(),
            final(self)@ == (WriterModel {
                metadata: put_entry(old(self)@.metadata, key@, value@),
                ..old(self)@
            }),
    {
        let ghost entries = self@.metadata;
        let mut i: usize = 0;
        while i < self.metadata.len()
            invariant
                i <= self.metadata@.len(),
                *self == *old(self),
                entries == self@.metadata,
                entries == entry_models(self.metadata@),
                distinct_keys(entries),
                forall|j: int| 0 <= j < i ==> (#[trigger] entries[j]).0 != key@,
            decreases self.metadata@.len() - i,
        {
            if self.metadata[i].0 == key {
                let ghost new_entry = (key@, value@);
                assert(entries[i as int].0 == key@);
                self.metadata.set(i, (key, value));
                proof {
                    assert(self@.metadata =~= put_entry(entries, new_entry.0, new_entry.1));
                }
                return ;
            }
            assert(entries[i as int].0 != key@);
            i = i + 1;
        }
        let ghost new_entry = (key@, value@);
        self.metadata.push((key, value));
        assert(self@.metadata =~= put_entry(entries, new_entry.0, new_entry.1));
    }

    /// Adds tensor information. The data is handed over when the file is written, in the order
    /// in which the infos were added. The offset of `info` is ignored.
    pub fn add_tensor_info(&mut self, info: TensorInfo)
        ensures
            final(self)@ == (WriterModel {
                tensor_infos: old(self)@.tensor_infos.push(info@.at(0)),
                ..old(self)@
            }),
    {
        let mut info = info;
        let ghost model = info@.at(0);
        info.offset = 0;
        assert(info@ =~= model);
        self.tensor_infos.push(info);
        assert(self@.tensor_infos =~= old(self)@.tensor_infos.push(model));
        assert(self@.metadata =~= old(self)@.metadata);
    }

    /// Whether the positions in a file that begins at `start` are 64-bit numbers.
    pub fn fits(&self, start: u64, tensor_data: &[&[u8]]) -> (r: bool)
        ensures
            r == self@.fits(start as nat, contents(tensor_data@)),
    {
        if self.tensor_infos.len() != tensor_data.len() {
            return true;
        }
        let ghost data = contents(tensor_data@);
        let mut scratch = ByteSink::new();
        let ghost empty = scratch@;
        let header = GGUFHeader {
            tensor_count: self.tensor_infos.len() as u64,
            metadata_kv_count: self.metadata.len() as u64,
            magic: self.header.magic,
            version: self.header.version,
        };
        let _ = write_header(&mut scratch, &header);
        if self.write_metadata(&mut scratch).is_err() {
            return true;
        }
        self.write_tensor_infos(&mut scratch);
        let size: u64 = scratch.stream_position();
        proof {
            let a = header_bytes(header);
            let b = metadata_emission(self@.metadata).bytes;
            assert(header == self@.counted().header);
            sink::lemma_write_write(empty, a, b);
            sink::lemma_write_write(empty, a + b, infos_bytes(self@.tensor_infos));
            lemma_offsets_ascend(self@.data_start(start as nat), data, 0, data.len() as int);
            lemma_align_up(self@.infos_end(start as nat));
        }
        let end: u64 = match start.checked_add(size) {
            Some(end) => end,
            None => {
                return false;
            },
        };
        let alignment: u64 = GGUF_DEFAULT_ALIGNMENT;
        let mut next: u64 = match end.checked_add((alignment - (end % alignment)) % alignment) {
            Some(next) => next,
            None => {
                return false;
            },
        };
        let mut i: usize = 0;
        while i < tensor_data.len()
            invariant
                i <= tensor_data@.len(),
                data == contents(tensor_data@),
                alignment == GGUF_DEFAULT_ALIGNMENT,
                next == tensor_offset(self@.data_start(start as nat), data, i as int),
                self@.fits(start as nat, data) <==> tensor_offset(
                    self@.data_start(start as nat),
                    data,
                    data.len() as int,
                ) <= u64::MAX,
            decreases tensor_data@.len() - i,
        {
            proof {
                let first = self@.data_start(start as nat);
                lemma_offsets_ascend(first, data, i as int, i + 1);
                lemma_offsets_ascend(first, data, i + 1, data.len() as int);
                lemma_align_up((next + data[i as int].len()) as nat);
            }
            let after: u64 = match next.checked_add(tensor_data[i].len() as u64) {
                Some(after) => after,
                None => {
                    return false;
                },
            };
            next = match after.checked_add((alignment - (after % alignment)) % alignment) {
                Some(next) => next,
                None => {
                    return false;
                },
            };
            i = i + 1;
        }
        true
    }

    /// Writes the complete file. `tensor_data` holds the bytes of each tensor added with
    /// `add_tensor_info`, in the same order.
    pub fn write(&mut self, writer: &mut ByteSink, tensor_data: &[&[u8]]) -> (r: Result<
        (),
        GGUFWriteError,
    >)
        requires
            old(writer).wf(),
            old(self)@.fits(old(writer)@.pos, contents(tensor_data@)),
        ensures
            final(writer).wf(),
            old(self)@.tensor_infos.len() != tensor_data@.len() ==> {
                &&& r matches Err(GGUFWriteError::TensorCountMismatch { info_count, data_count })
                &&& info_count == old(self)@.tensor_infos.len()
                &&& data_count == tensor_data@.len()
                &&& final(self)@ == old(self)@
                &&& final(writer)@ == old(writer)@
            },
            old(self)@.tensor_infos.len() == tensor_data@.len() && !old(
                self,
            )@.preamble().complete ==> {
                &&& r matches Err(GGUFWriteError::InvalidMetadataValueType)
                &&& final(self)@ == old(self)@.counted()
                &&& final(writer)@ == old(writer)@.after_write(old(self)@.preamble().bytes)
            },
            old(self)@.tensor_infos.len() == tensor_data@.len() && old(
                self,
            )@.preamble().complete ==> {
                &&& r is Ok
                &&& final(self)@ == old(self)@.placed(old(writer)@.pos, contents(tensor_data@))
                &&& final(writer)@ == finished(
                    old(writer)@,
                    old(self)@.file(old(writer)@.pos, contents(tensor_data@)),
                    header_bytes(old(self)@.counted().header),
                )
            },
    {
        if self.tensor_infos.len() != tensor_data.len() {
            return Err(
                GGUFWriteError::TensorCountMismatch {
                    info_count: self.tensor_infos.len(),
                    data_count: tensor_data.len(),
                },
            );
        }
        let ghost start = writer@;
        let ghost first = self@;
        let ghost data = contents(tensor_data@);
        let ghost head = header_bytes(first.counted().header);
        let ghost meta = metadata_emission(first.metadata).bytes;
        self.header.metadata_kv_count = self.metadata.len() as u64;
        self.header.tensor_count = self.tensor_infos.len() as u64;
        assert(self@ =~= first.counted());

        let _ = write_header(writer, &self.header);
        let r = self.write_metadata(writer);
        proof {
            sink::lemma_write_write(start, head, meta);
        }
        if r.is_err() {
            return r;
        }
        let mut scratch = ByteSink::new();
        self.write_tensor_infos(&mut scratch);
        let tensor_info_total_size: u64 = scratch.stream_position();
        let current_pos: u64 = writer.stream_position();
        proof {
            lemma_align_up(first.infos_end(start.pos));
            lemma_offsets_ascend(first.data_start(start.pos), data, 0, data.len() as int);
        }
        let tensor_data_start_pos: u64 = current_pos + tensor_info_total_size;
        let alignment: u64 = GGUF_DEFAULT_ALIGNMENT;
        let padding_before_data: u64 = (alignment - (tensor_data_start_pos % alignment))
            % alignment;
        let final_tensor_data_start_offset: u64 = tensor_data_start_pos + padding_before_data;

        self.assign_offsets(final_tensor_data_start_offset, tensor_data);
        assert(self@ =~= first.placed(start.pos, data));
        self.write_tensor_infos(writer);
        let ghost infos = infos_bytes(self@.tensor_infos);
        proof {
            lemma_infos_len(first.tensor_infos, first.data_start(start.pos), data);
            sink::lemma_write_write(start, head + meta, infos);
        }
        let _ = write_padding(writer);
        let ghost pad = zeros(padding_at(first.infos_end(start.pos)));
        proof {
            sink::lemma_write_write(start, head + meta + infos, pad);
        }
        write_data(writer, tensor_data);
        proof {
            sink::lemma_write_write(
                start,
                head + meta + infos + pad,
                data_section(first.data_start(start.pos), data),
            );
        }
        let final_pos: u64 = writer.stream_position();
        writer.seek_start(0);
        let _ = write_header(writer, &self.header);
        writer.seek_start(final_pos);
        Ok(())
    }

    /// Writes the metadata pairs.
    fn write_metadata(&self, writer: &mut ByteSink) -> (r: Result<(), GGUFWriteError>)
        requires
            old(writer).wf(),
        ensures
            final(writer).wf(),
            final(writer)@ == old(writer)@.after_write(metadata_emission(self@.metadata).bytes),
            r is Ok <==> metadata_emission(self@.metadata).complete,
            r matches Err(e) ==> e is InvalidMetadataValueType,
    {
        let ghost start = writer@;
        let ghost entries = self@.metadata;
        proof {
            assert(entries.take(0) =~= Seq::empty());
            sink::lemma_write_empty(start);
        }
        let mut i: usize = 0;
        while i < self.metadata.len()
            invariant
                i <= self.metadata@.len(),
                start == old(writer)@,
                start.wf(),
                writer.wf(),
                entries == self@.metadata,
                entries == entry_models(self.metadata@),
                metadata_emission(entries.take(i as int)).complete,
                writer@ == start.after_write(metadata_emission(entries.take(i as int)).bytes),
            decreases self.metadata@.len() - i,
        {
            let r = write_metadata_kv(
                writer,
                self.metadata[i].0.as_str(),
                &self.metadata[i].1,
            );
            proof {
                let done = metadata_emission(entries.take(i as int)).bytes;
                let part = gguf_value::kv_emission(entries[i as int].0, entries[i as int].1);
                assert(entries.take(i + 1).drop_last() =~= entries.take(i as int));
                assert(entries.take(i + 1).last() == entries[i as int]);
                sink::lemma_write_write(start, done, part.bytes);
            }
            if r.is_err() {
                proof {
                    lemma_metadata_stop(entries, i + 1);
                }
                return r;
            }
            i = i + 1;
        }
        assert(entries.take(i as int) =~= entries);
        Ok(())
    }

    /// Writes the tensor infos.
    fn write_tensor_infos(&self, writer: &mut ByteSink)
        requires
            old(writer).wf(),
        ensures
            final(writer).wf(),
            final(writer)@ == old(writer)@.after_write(infos_bytes(self@.tensor_infos)),
    {
        let ghost start = writer@;
        let ghost infos = self@.tensor_infos;
        proof {
            assert(infos.take(0) =~= Seq::empty());
            sink::lemma_write_empty(start);
        }
        let mut i: usize = 0;
        while i < self.tensor_infos.len()
            invariant
                i <= self.tensor_infos@.len(),
                start == old(writer)@,
                start.wf(),
                writer.wf(),
                infos == self@.tensor_infos,
                infos == info_models(self.tensor_infos@),
                writer@ == start.after_write(infos_bytes(infos.take(i as int))),
            decreases self.tensor_infos@.len() - i,
        {
            let _ = write_tensor_info(writer, &self.tensor_infos[i]);
            proof {
                assert(infos.take(i + 1).drop_last() =~= infos.take(i as int));
                assert(infos.take(i + 1).last() == infos[i as int]);
                sink::lemma_write_write(
                    start,
                    infos_bytes(infos.take(i as int)),
                    infos[i as int].bytes(),
                );
            }
            i = i + 1;
        }
        assert(infos.take(i as int) =~= infos);
    }

    /// Fills in the position of each tensor's data, the first being at `start`.
    fn assign_offsets(&mut self, start: u64, tensor_data: &[&[u8]])
        requires
            old(self)@.tensor_infos.len() == tensor_data@.len(),
            tensor_offset(start as nat, contents(tensor_data@), tensor_data@.len() as int)
                <= u64::MAX,
        ensures
            final(self)@ == (WriterModel {
                tensor_infos: place(
                    old(self)@.tensor_infos,
                    start as nat,
                    contents(tensor_data@),
                ),
                ..old(self)@
            }),
    {
        let ghost data = contents(tensor_data@);
        let ghost infos = self@.tensor_infos;
        let alignment: u64 = GGUF_DEFAULT_ALIGNMENT;
        let mut next_tensor_offset: u64 = start;
        let mut i: usize = 0;
        while i < self.tensor_infos.len()
            invariant
                i <= self.tensor_infos@.len(),
                self.tensor_infos@.len() == infos.len(),
                infos.len() == data.len(),
                data == contents(tensor_data@),
                infos == old(self)@.tensor_infos,
                alignment == GGUF_DEFAULT_ALIGNMENT,
                next_tensor_offset == tensor_offset(start as nat, data, i as int),
                tensor_offset(start as nat, data, data.len() as int) <= u64::MAX,
                self.header == old(self).header,
                self.metadata == old(self).metadata,
                forall|j: int|
                    0 <= j < infos.len() ==> #[trigger] self.tensor_infos@[j]@ == if j < i {
                        infos[j].at(tensor_offset(start as nat, data, j) as u64)
                    } else {
                        infos[j]
                    },
            decreases self.tensor_infos@.len() - i,
        {
            let ghost before = self.tensor_infos@;
            self.tensor_infos[i].offset = next_tensor_offset;
            proof {
                assert(before[i as int]@ == infos[i as int]);
                assert(self.tensor_infos@[i as int]@ =~= infos[i as int].at(next_tensor_offset));
                assert forall|j: int| 0 <= j < infos.len() && j != i implies
                    #[trigger] self.tensor_infos@[j] == before[j] by {}
                assert forall|j: int| 0 <= j < infos.len() implies
                    #[trigger] self.tensor_infos@[j]@ == if j < i + 1 {
                    infos[j].at(tensor_offset(start as nat, data, j) as u64)
                } else {
                    infos[j]
                } by {
                    if j != i {
                        assert(before[j]@ == self.tensor_infos@[j]@);
                    }
                }
            }
            let data_len: u64 = tensor_data[i].len() as u64;
            proof {
                lemma_offsets_ascend(start as nat, data, i as int, i + 1);
                lemma_offsets_ascend(start as nat, data, i + 1, data.len() as int);
                lemma_align_up((next_tensor_offset + data_len) as nat);
            }
            let next_pos_unaligned: u64 = next_tensor_offset + data_len;
            let padding_for_next: u64 = (alignment - (next_pos_unaligned % alignment)) % alignment;
            next_tensor_offset = next_pos_unaligned + padding_for_next;
            i = i + 1;
        }
        assert(self@.tensor_infos =~= place(infos, start as nat, data));
        assert(self@.metadata =~= old(self)@.metadata);
    }
}

/// Writes the data of the tensors, each but the last followed by padding.
fn write_data(writer: &mut ByteSink, tensor_data: &[&[u8]])
    requires
        old(writer).wf(),
    ensures
        final(writer).wf(),
        final(writer)@ == old(writer)@.after_write(
            data_section(old(writer)@.pos, contents(tensor_data@)),
        ),
{
    let ghost start = writer@;
    let ghost data = contents(tensor_data@);
    proof {
        assert(data.take(0) =~= Seq::empty());
        sink::lemma_write_empty(start);
    }
    let mut i: usize = 0;
    let ghost mut written: Seq<u8> = Seq::empty();
    while i < tensor_data.len()
        invariant
            i <= tensor_data@.len(),
            start == old(writer)@,
            start.wf(),
            writer.wf(),
            data == contents(tensor_data@),
            writer@ == start.after_write(written),
            written == {
                let done = data_section(start.pos, data.take(i as int));
                if 0 < i < data.len() {
                    done + zeros(padding_at(start.pos + done.len()))
                } else {
                    done
                }
            },
        decreases tensor_data@.len() - i,
    {
        let ghost done = data_section(start.pos, data.take(i as int));
        proof {
            assert(data.take(i + 1).drop_last() =~= data.take(i as int));
            assert(data.take(i + 1).last() == tensor_data@[i as int]@);
        }
        let _ = write_tensor_data(writer, tensor_data[i]);
        proof {
            sink::lemma_write_write(start, written, tensor_data@[i as int]@);
            written = written + tensor_data@[i as int]@;
            assert(written =~= data_section(start.pos, data.take(i + 1)));
        }
        if i < tensor_data.len() - 1 {
            let ghost pad = zeros(padding_at(writer@.pos));
            let _ = write_padding(writer);
            proof {
                sink::lemma_write_write(start, written, pad);
                written = written + pad;
            }
        }
        i = i + 1;
    }
    assert(data.take(i as int) =~= data);
}

} // verus!
