//! What holds of every file that the writer puts together.

use crate::gguf_read;
use crate::gguf_tensor;
use crate::gguf_tensor::{GGMLType, GGMLTypeRenamed, TensorInfoModel};
use crate::gguf_value;
use crate::gguf_value::{GGUFValueType, ValueModel};
use crate::gguf_writer;
use crate::gguf_writer::WriterModel;
use crate::le;
use crate::sink;
use vstd::prelude::*;

verus! {

/// The elements of every array in a value, at every depth, are of one type.
pub open spec fn uniform(v: ValueModel) -> bool
    decreases v,
{
    match v {
        ValueModel::Array(items) => forall|i: int|
            0 <= i < items.len() ==> uniform(#[trigger] items[i]) && items[i].value_type()
                == items[0].value_type(),
        _ => true,
    }
}

/// A value can be written exactly when the elements of each of its arrays are of one type.
pub proof fn law_written_iff_uniform(v: ValueModel)
    ensures
        v.emission().complete <==> uniform(v),
    decreases v, 0nat,
{
    if let ValueModel::Array(items) = v {
        if items.len() > 0 {
            lemma_items_complete(items, items[0].value_type());
        }
    }
}

proof fn lemma_items_complete(items: Seq<ValueModel>, t: GGUFValueType)
    ensures
        gguf_value::items_emission(items, t).complete <==> forall|i: int|
            0 <= i < items.len() ==> uniform(#[trigger] items[i]) && items[i].value_type() == t,
    decreases items, 0nat,
{
    if items.len() > 0 {
        let front = items.drop_last();
        lemma_items_complete(front, t);
        law_written_iff_uniform(items.last());
        if gguf_value::items_emission(items, t).complete {
            assert forall|i: int| 0 <= i < items.len() implies uniform(#[trigger] items[i])
                && items[i].value_type() == t by {
                if i < items.len() - 1 {
                    assert(front[i] == items[i]);
                }
            }
        } else if forall|i: int|
            0 <= i < items.len() ==> uniform(#[trigger] items[i]) && items[i].value_type() == t {
            assert forall|i: int| 0 <= i < front.len() implies uniform(#[trigger] front[i])
                && front[i].value_type() == t by {
                assert(front[i] == items[i]);
            }
        }
    }
}

/// The metadata of a writer can be written exactly when every value in it can.
pub proof fn law_metadata_written_iff_uniform(entries: Seq<(Seq<char>, ValueModel)>)
    ensures
        gguf_writer::metadata_emission(entries).complete <==> forall|i: int|
            0 <= i < entries.len() ==> uniform((#[trigger] entries[i]).1),
    decreases entries.len(),
{
    if entries.len() > 0 {
        let front = entries.drop_last();
        law_metadata_written_iff_uniform(front);
        law_written_iff_uniform(entries.last().1);
        if gguf_writer::metadata_emission(entries).complete {
            assert forall|i: int| 0 <= i < entries.len() implies uniform(
                (#[trigger] entries[i]).1,
            ) by {
                if i < entries.len() - 1 {
                    assert(front[i] == entries[i]);
                }
            }
        } else if forall|i: int|
            0 <= i < entries.len() ==> uniform((#[trigger] entries[i]).1) {
            assert forall|i: int| 0 <= i < front.len() implies uniform((#[trigger] front[i]).1) by {
                assert(front[i] == entries[i]);
            }
        }
    }
}

/// The numbers of value types and of element types tell them apart, and every number in the one
/// list of element types is one in the other.
pub proof fn law_codes_are_distinct(
    a: GGUFValueType,
    b: GGUFValueType,
    s: GGMLTypeRenamed,
    t: GGMLTypeRenamed,
    x: GGMLType,
    y: GGMLType,
)
    ensures
        gguf_value::value_type_code(a) == gguf_value::value_type_code(b) ==> a == b,
        gguf_read::value_type_of(gguf_value::value_type_code(a) as nat) == Some(a),
        gguf_tensor::ggml_renamed_code(s) == gguf_tensor::ggml_renamed_code(t) ==> s == t,
        gguf_read::ggml_type_of(gguf_tensor::ggml_renamed_code(s) as nat) == Some(s),
        gguf_tensor::ggml_code(x) == gguf_tensor::ggml_code(y) ==> x == y,
        gguf_read::ggml_type_of(gguf_tensor::ggml_code(x) as nat) is Some,
{
}

/// A file written to an empty sink is all that the sink then holds: the header that is written
/// over its first bytes at the end is the one that stands there.
pub proof fn law_empty_sink_holds_file(w: WriterModel, data: Seq<Seq<u8>>)
    ensures
        gguf_writer::finished(
            sink::SinkState { bytes: Seq::empty(), pos: 0 },
            w.file(0, data),
            gguf_writer::header_bytes(w.counted().header),
        ) == (sink::SinkState { bytes: w.file(0, data), pos: w.file(0, data).len() }),
{
    let file = w.file(0, data);
    let head = gguf_writer::header_bytes(w.counted().header);
    let empty = sink::SinkState { bytes: Seq::empty(), pos: 0 };
    assert(empty.after_write(file).bytes =~= file);
    assert(file.take(head.len() as int) =~= head);
    assert(sink::overwrite(file, 0, head) =~= file);
}

/// Written behind bytes that a sink holds already, a file leaves them alone but for the first
/// ones, over which its header is written.
pub proof fn law_file_behind_other_bytes(bytes: Seq<u8>, w: WriterModel, data: Seq<Seq<u8>>)
    ensures
        ({
            let start = sink::SinkState { bytes, pos: bytes.len() };
            let head = gguf_writer::header_bytes(w.counted().header);
            let file = w.file(bytes.len(), data);
            let held = gguf_writer::finished(start, file, head).bytes;
            &&& held.len() == bytes.len() + file.len()
            &&& held.take(head.len() as int) == head
            &&& held.skip(head.len() as int) == (bytes + file).skip(head.len() as int)
        }),
{
    let start = sink::SinkState { bytes, pos: bytes.len() };
    let head = gguf_writer::header_bytes(w.counted().header);
    let file = w.file(bytes.len(), data);
    let held = gguf_writer::finished(start, file, head).bytes;
    assert(start.after_write(file).bytes =~= bytes + file);
    assert(held.take(head.len() as int) =~= head);
    assert(held.skip(head.len() as int) =~= (bytes + file).skip(head.len() as int));
}

/// Every tensor starts at a multiple of the alignment.
pub proof fn law_offsets_aligned(w: WriterModel, pos: nat, data: Seq<Seq<u8>>, i: int)
    requires
        w.preamble().complete,
        w.tensor_infos.len() == data.len(),
        w.fits(pos, data),
        0 <= i < data.len(),
    ensures
        w.placed(pos, data).tensor_infos[i].offset % 32 == 0,
{
    let start = w.data_start(pos);
    gguf_writer::lemma_align_up(w.infos_end(pos));
    gguf_writer::lemma_offsets_ascend(start, data, i, data.len() as int);
    if i > 0 {
        gguf_writer::lemma_align_up(
            gguf_writer::tensor_offset(start, data, i - 1) + data[i - 1].len(),
        );
    }
}

/// Tensors lie in the order of their infos and do not overlap.
pub proof fn law_tensors_disjoint(w: WriterModel, pos: nat, data: Seq<Seq<u8>>, i: int, j: int)
    requires
        w.preamble().complete,
        w.tensor_infos.len() == data.len(),
        w.fits(pos, data),
        0 <= i < j < data.len(),
    ensures
        ({
            let infos = w.placed(pos, data).tensor_infos;
            infos[i].offset + data[i].len() <= infos[j].offset
        }),
{
    let start = w.data_start(pos);
    gguf_writer::lemma_offsets_ascend(start, data, i, j);
    gguf_writer::lemma_offsets_ascend(start, data, j, data.len() as int);
}

/// The tensor data starts less than one alignment behind the tensor infos, and the next tensor
/// less than one alignment behind the one before it.
pub proof fn law_gaps_are_short(w: WriterModel, pos: nat, data: Seq<Seq<u8>>, i: int)
    requires
        w.preamble().complete,
        w.tensor_infos.len() == data.len(),
        w.fits(pos, data),
        0 <= i < data.len(),
    ensures
        ({
            let infos = w.placed(pos, data).tensor_infos;
            let before = if i == 0 {
                w.infos_end(pos) as int
            } else {
                infos[i - 1].offset + data[i - 1].len()
            };
            before <= infos[i].offset < before + 32
        }),
{
    let start = w.data_start(pos);
    gguf_writer::lemma_align_up(w.infos_end(pos));
    gguf_writer::lemma_offsets_ascend(start, data, i, data.len() as int);
    if i > 0 {
        gguf_writer::lemma_offsets_ascend(start, data, i - 1, data.len() as int);
        gguf_writer::lemma_align_up(
            gguf_writer::tensor_offset(start, data, i - 1) + data[i - 1].len(),
        );
    }
}

/// The bytes between the tensor infos and the first tensor, and between two tensors, are zero.
pub proof fn law_gaps_are_zero(w: WriterModel, pos: nat, data: Seq<Seq<u8>>, i: int, k: int)
    requires
        w.preamble().complete,
        w.tensor_infos.len() == data.len(),
        w.fits(pos, data),
        0 <= i < data.len(),
        (if i == 0 {
            w.infos_end(pos) as int
        } else {
            w.placed(pos, data).tensor_infos[i - 1].offset + data[i - 1].len()
        }) <= k < w.placed(pos, data).tensor_infos[i].offset,
    ensures
        pos <= k < pos + w.file(pos, data).len(),
        w.file(pos, data)[k - pos] == 0,
{
    let start = w.data_start(pos);
    gguf_writer::lemma_align_up(w.infos_end(pos));
    gguf_writer::lemma_offsets_ascend(start, data, i, data.len() as int);
    gguf_writer::lemma_infos_len(w.tensor_infos, start, data);
    let front = w.preamble().bytes + gguf_writer::infos_bytes(w.placed(pos, data).tensor_infos);
    let head = front + gguf_writer::zeros(gguf_writer::padding_at(w.infos_end(pos)));
    let section = gguf_writer::data_section(start, data);
    assert(w.file(pos, data) == head + section);
    assert(head.len() == start - pos);
    assert(front.len() == w.infos_end(pos) - pos);
    if i > 0 {
        gguf_writer::lemma_offsets_ascend(start, data, 0, i - 1);
        gguf_writer::lemma_offsets_ascend(start, data, i - 1, data.len() as int);
        lemma_section_gap(start, data, i, k);
        assert((head + section)[k - pos] == section[k - start]);
    } else {
        assert((head + section)[k - pos] == head[k - pos]);
    }
}

proof fn lemma_section_gap(start: nat, data: Seq<Seq<u8>>, i: int, k: int)
    requires
        0 < i < data.len(),
        gguf_writer::tensor_offset(start, data, i - 1) + data[i - 1].len() <= k
            < gguf_writer::tensor_offset(start, data, i),
    ensures
        start <= k < start + gguf_writer::data_section(start, data).len(),
        gguf_writer::data_section(start, data)[k - start] == 0,
    decreases data.len(),
{
    let front = data.drop_last();
    let before = gguf_writer::data_section(start, front);
    gguf_writer::lemma_offsets_ascend(start, data, 0, i - 1);
    if i < data.len() - 1 {
        gguf_read::lemma_offset_prefix(start, data, front, i);
        gguf_read::lemma_offset_prefix(start, data, front, i - 1);
        lemma_section_gap(start, front, i, k);
    } else {
        gguf_writer::lemma_section_end(start, data, i - 1);
        assert(data.take(i) =~= front);
    }
}

/// The size of the tensor infos is known before the positions in them are: filling the positions
/// in does not change it.
pub proof fn law_infos_size_known(w: WriterModel, pos: nat, data: Seq<Seq<u8>>)
    ensures
        gguf_writer::infos_bytes(w.placed(pos, data).tensor_infos).len()
            == gguf_writer::infos_bytes(w.tensor_infos).len(),
{
    gguf_writer::lemma_infos_len(w.tensor_infos, w.data_start(pos), data);
}

/// When the data of a tensor is about to be written, with the tensors before it and the padding
/// behind them written, the position is the one that was calculated for the tensor.
pub proof fn law_position_is_offset(start: nat, data: Seq<Seq<u8>>, i: int)
    requires
        0 < i < data.len(),
    ensures
        ({
            let end = start + gguf_writer::data_section(start, data.take(i)).len();
            end + gguf_writer::padding_at(end) == gguf_writer::tensor_offset(start, data, i)
        }),
{
    gguf_writer::lemma_section_end(start, data, i - 1);
}

/// A file ends with its last tensor; without tensors it ends at a multiple of the alignment
/// behind the tensor infos.
pub proof fn law_file_end(w: WriterModel, pos: nat, data: Seq<Seq<u8>>)
    requires
        w.preamble().complete,
        w.tensor_infos.len() == data.len(),
        w.fits(pos, data),
    ensures
        pos + w.file(pos, data).len() == if data.len() == 0 {
            w.data_start(pos) as int
        } else {
            w.placed(pos, data).tensor_infos.last().offset + data.last().len()
        },
{
    let start = w.data_start(pos);
    gguf_writer::lemma_infos_len(w.tensor_infos, start, data);
    if data.len() > 0 {
        let i = data.len() - 1;
        gguf_writer::lemma_offsets_ascend(start, data, i, data.len() as int);
        gguf_writer::lemma_section_end(start, data, i);
        assert(data.take(i + 1) =~= data);
    }
}

/// Padding ends at a multiple of the alignment, so that padding again writes nothing.
pub proof fn law_padding_once(pos: nat)
    ensures
        (pos + gguf_writer::padding_at(pos)) % 32 == 0,
        gguf_writer::padding_at(pos) < 32,
        gguf_writer::padding_at(pos + gguf_writer::padding_at(pos)) == 0,
{
    gguf_writer::lemma_align_up(pos);
}

/// The two writers differ only in the offsets of their tensor infos.
pub open spec fn same_but_offsets(a: WriterModel, b: WriterModel) -> bool {
    &&& a.header == b.header
    &&& a.metadata == b.metadata
    &&& a.tensor_infos.len() == b.tensor_infos.len()
    &&& forall|i: int|
        0 <= i < a.tensor_infos.len() ==> (#[trigger] a.tensor_infos[i]).at(0)
            == b.tensor_infos[i].at(0)
}

/// The offsets that the infos of a writer hold have no influence on what writing gives: not on
/// whether the metadata can be written, nor on the bytes up to where it cannot, nor on the file,
/// nor on the writer afterwards.
pub proof fn law_offsets_ignored(a: WriterModel, b: WriterModel, pos: nat, data: Seq<Seq<u8>>)
    requires
        same_but_offsets(a, b),
    ensures
        a.file(pos, data) == b.file(pos, data),
        a.placed(pos, data) == b.placed(pos, data),
        a.fits(pos, data) == b.fits(pos, data),
        a.preamble() == b.preamble(),
        a.counted().header == b.counted().header,
{
    lemma_infos_len_agree(a.tensor_infos, b.tensor_infos);
    assert(a.preamble() =~= b.preamble());
    let start = a.data_start(pos);
    let pa = gguf_writer::place(a.tensor_infos, start, data);
    let pb = gguf_writer::place(b.tensor_infos, start, data);
    assert forall|i: int| 0 <= i < pa.len() implies pa[i] == pb[i] by {
        assert(a.tensor_infos[i].at(0) == b.tensor_infos[i].at(0));
        let offset = gguf_writer::tensor_offset(start, data, i) as u64;
        assert(a.tensor_infos[i].at(offset) == a.tensor_infos[i].at(0).at(offset));
    }
    assert(pa =~= pb);
}

proof fn lemma_infos_len_agree(a: Seq<TensorInfoModel>, b: Seq<TensorInfoModel>)
    requires
        a.len() == b.len(),
        forall|i: int| 0 <= i < a.len() ==> (#[trigger] a[i]).at(0) == b[i].at(0),
    ensures
        gguf_writer::infos_bytes(a).len() == gguf_writer::infos_bytes(b).len(),
    decreases a.len(),
{
    if a.len() > 0 {
        assert forall|i: int| 0 <= i < a.drop_last().len() implies (#[trigger] a.drop_last()[i]).at(
            0,
        ) == b.drop_last()[i].at(0) by {
            assert(a.drop_last()[i] == a[i]);
        }
        lemma_infos_len_agree(a.drop_last(), b.drop_last());
        assert(a[a.len() - 1].at(0) == b[a.len() - 1].at(0));
        gguf_writer::lemma_info_len(a.last(), 0);
        gguf_writer::lemma_info_len(b.last(), 0);
    }
}

/// A writer that has written a file writes the same file again: the metadata can still be
/// written, the header is the same, and so are the positions of the tensors.
pub proof fn law_write_again(w: WriterModel, pos: nat, data: Seq<Seq<u8>>)
    ensures
        w.placed(pos, data).file(pos, data) == w.file(pos, data),
        w.placed(pos, data).placed(pos, data) == w.placed(pos, data),
        w.placed(pos, data).fits(pos, data) == w.fits(pos, data),
        w.placed(pos, data).preamble() == w.preamble(),
        w.placed(pos, data).counted().header == w.counted().header,
        w.placed(pos, data).tensor_infos.len() == w.tensor_infos.len(),
{
    let again = w.placed(pos, data);
    let counted = w.counted();
    assert(same_but_offsets(counted, again));
    law_offsets_ignored(counted, again, pos, data);
    assert(counted.counted() =~= counted);
    assert(counted.preamble() =~= w.preamble());
}

/// The value under `key`.
pub open spec fn value_at(entries: Seq<(Seq<char>, ValueModel)>, key: Seq<char>) -> Option<
    ValueModel,
> {
    if gguf_writer::has_key(entries, key) {
        Some(entries[choose|i: int| 0 <= i < entries.len() && (#[trigger] entries[i]).0 == key].1)
    } else {
        None
    }
}

/// Metadata is a map: a value that was put under a key is found there, and nothing changes
/// under another key.
pub proof fn law_put_then_get(
    entries: Seq<(Seq<char>, ValueModel)>,
    key: Seq<char>,
    value: ValueModel,
    other: Seq<char>,
)
    requires
        gguf_writer::distinct_keys(entries),
    ensures
        gguf_writer::distinct_keys(gguf_writer::put_entry(entries, key, value)),
        value_at(gguf_writer::put_entry(entries, key, value), key) == Some(value),
        other != key ==> value_at(gguf_writer::put_entry(entries, key, value), other) == value_at(
            entries,
            other,
        ),
{
    let after = gguf_writer::put_entry(entries, key, value);
    if !gguf_writer::has_key(entries, key) {
        assert(after[entries.len() as int].0 == key);
    } else {
        let i = choose|i: int| 0 <= i < entries.len() && (#[trigger] entries[i]).0 == key;
        assert(after[i].0 == key);
    }
    assert(gguf_writer::has_key(after, key));
    if other != key {
        if gguf_writer::has_key(entries, other) {
            let i = choose|i: int| 0 <= i < entries.len() && (#[trigger] entries[i]).0 == other;
            assert(after[i] == entries[i]);
            assert(gguf_writer::has_key(after, other));
            let j = choose|j: int| 0 <= j < after.len() && (#[trigger] after[j]).0 == other;
            assert(j == i);
        } else if gguf_writer::has_key(after, other) {
            let j = choose|j: int| 0 <= j < after.len() && (#[trigger] after[j]).0 == other;
            assert(entries[j].0 == other);
            assert(false);
        }
    }
}

/// Of two values put under one key only the second is kept, and a pair stays where it was first
/// put.
pub proof fn law_last_value_wins(
    entries: Seq<(Seq<char>, ValueModel)>,
    key: Seq<char>,
    first: ValueModel,
    second: ValueModel,
)
    ensures
        gguf_writer::put_entry(gguf_writer::put_entry(entries, key, first), key, second)
            == gguf_writer::put_entry(entries, key, second),
{
    let once = gguf_writer::put_entry(entries, key, first);
    let twice = gguf_writer::put_entry(once, key, second);
    let direct = gguf_writer::put_entry(entries, key, second);
    if !gguf_writer::has_key(entries, key) {
        assert(once[entries.len() as int].0 == key);
    } else {
        let i = choose|i: int| 0 <= i < entries.len() && (#[trigger] entries[i]).0 == key;
        assert(once[i].0 == key);
    }
    assert(gguf_writer::has_key(once, key));
    assert(twice.len() == direct.len());
    assert forall|i: int| 0 <= i < twice.len() implies twice[i] == direct[i] by {
        if i < entries.len() {
            if entries[i].0 == key {
                assert(gguf_writer::has_key(entries, key));
            }
        }
    }
    assert(twice =~= direct);
}

} // verus!
