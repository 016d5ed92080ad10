use byteorder::{LittleEndian, ReadBytesExt};
use ggml_builder::{
    gguf_value_type_to_u32, write_header, write_metadata_kv, write_metadata_value, write_padding,
    write_string, write_tensor_data, write_tensor_info, ByteSink, GGMLType, GGMLTypeRenamed,
    GGUFHeader, GGUFValue, GGUFValueType, GGUFWriteError, GGUFWriter, TensorInfo,
    GGUF_DEFAULT_ALIGNMENT, GGUF_MAGIC, GGUF_VERSION,
};
use std::io::{Cursor, Read, Seek, SeekFrom};

#[test]
fn test_write_string() {
    let mut buf = ByteSink::new();
    let test_str = "hello";
    write_string(&mut buf, test_str).unwrap();

    let written_bytes = buf.into_inner();
    let mut reader = Cursor::new(written_bytes);

    let len = reader.read_u64::<LittleEndian>().unwrap();
    assert_eq!(len, test_str.len() as u64);

    let mut str_bytes = vec![0u8; len as usize];
    reader.read_exact(&mut str_bytes).unwrap();
    assert_eq!(str_bytes, test_str.as_bytes());
}

#[test]
fn test_write_header() {
    let mut buf = ByteSink::new();
    let header = GGUFHeader {
        magic: GGUF_MAGIC,
        version: GGUF_VERSION,
        tensor_count: 5,
        metadata_kv_count: 10,
    };
    write_header(&mut buf, &header).unwrap();

    let written_bytes = buf.into_inner();
    assert_eq!(written_bytes.len(), 4 + 4 + 8 + 8);
    let mut reader = Cursor::new(written_bytes);

    assert_eq!(reader.read_u32::<LittleEndian>().unwrap(), GGUF_MAGIC);
    assert_eq!(reader.read_u32::<LittleEndian>().unwrap(), GGUF_VERSION);
    assert_eq!(reader.read_u64::<LittleEndian>().unwrap(), 5);
    assert_eq!(reader.read_u64::<LittleEndian>().unwrap(), 10);
}

#[test]
fn test_write_metadata_kv_simple() {
    let mut buf = ByteSink::new();
    let key = "my_key";
    let value = GGUFValue::Uint32(12345);
    let value_type = value.get_type();

    write_metadata_kv(&mut buf, key, &value).unwrap();

    let written_bytes = buf.into_inner();
    let mut reader = Cursor::new(written_bytes);

    let key_len = reader.read_u64::<LittleEndian>().unwrap();
    assert_eq!(key_len, key.len() as u64);
    let mut key_bytes = vec![0u8; key_len as usize];
    reader.read_exact(&mut key_bytes).unwrap();
    assert_eq!(key_bytes, key.as_bytes());

    let type_id = reader.read_u32::<LittleEndian>().unwrap();
    assert_eq!(type_id, gguf_value_type_to_u32(value_type));
    let val_read = reader.read_u32::<LittleEndian>().unwrap();
    assert_eq!(val_read, 12345);
}

#[test]
fn test_write_metadata_kv_array() {
    let mut buf = ByteSink::new();
    let key = "my_array";
    let value = GGUFValue::Array(vec![GGUFValue::Int16(10), GGUFValue::Int16(-20)]);
    let value_type = value.get_type();
    let element_type = GGUFValueType::Int16;

    write_metadata_kv(&mut buf, key, &value).unwrap();

    let written_bytes = buf.into_inner();
    let mut reader = Cursor::new(written_bytes);

    let key_len = reader.read_u64::<LittleEndian>().unwrap();
    reader.seek(SeekFrom::Current(key_len as i64)).unwrap();

    let type_id = reader.read_u32::<LittleEndian>().unwrap();
    assert_eq!(type_id, gguf_value_type_to_u32(value_type));

    let arr_element_type_id = reader.read_u32::<LittleEndian>().unwrap();
    let arr_count = reader.read_u64::<LittleEndian>().unwrap();
    assert_eq!(arr_element_type_id, gguf_value_type_to_u32(element_type));
    assert_eq!(arr_count, 2);

    assert_eq!(reader.read_i16::<LittleEndian>().unwrap(), 10);
    assert_eq!(reader.read_i16::<LittleEndian>().unwrap(), -20);
}

#[test]
fn test_write_tensor_info() {
    let info = TensorInfo {
        name: "test.tensor".to_string(),
        dimensions: vec![10, 20, 30],
        ggml_type: GGMLTypeRenamed::F32,
        offset: 123456789,
    };

    let mut sink = ByteSink::new();
    write_tensor_info(&mut sink, &info).unwrap();
    let mut buffer = Cursor::new(sink.into_inner());

    let name_len = buffer.read_u64::<LittleEndian>().unwrap();
    assert_eq!(name_len, info.name.len() as u64);
    let mut name_bytes = vec![0u8; name_len as usize];
    buffer.read_exact(&mut name_bytes).unwrap();
    assert_eq!(String::from_utf8(name_bytes).unwrap(), info.name);

    let n_dims = buffer.read_u32::<LittleEndian>().unwrap();
    assert_eq!(n_dims, info.dimensions.len() as u32);
    let mut read_dims = vec![0u64; n_dims as usize];
    for i in 0..(n_dims as usize) {
        read_dims[i] = buffer.read_u64::<LittleEndian>().unwrap();
    }
    assert_eq!(read_dims, vec![30, 20, 10]);

    let ggml_type_u32 = buffer.read_u32::<LittleEndian>().unwrap();
    assert_eq!(ggml_type_u32, info.ggml_type.to_u32());

    let offset = buffer.read_u64::<LittleEndian>().unwrap();
    assert_eq!(offset, info.offset);
}

#[test]
fn test_write_padding() {
    let mut buf = ByteSink::new();
    buf.write_all(&[1, 2, 3, 4, 5]);
    assert_eq!(buf.stream_position(), 5);

    let padding_written = write_padding(&mut buf).unwrap();
    let expected_padding =
        (GGUF_DEFAULT_ALIGNMENT - (5 % GGUF_DEFAULT_ALIGNMENT)) % GGUF_DEFAULT_ALIGNMENT;
    assert_eq!(padding_written, expected_padding);
    assert_eq!(buf.stream_position(), 5 + expected_padding);

    let padding_written_2 = write_padding(&mut buf).unwrap();
    assert_eq!(padding_written_2, 0);
    assert_eq!(buf.stream_position(), 5 + expected_padding);
}

#[test]
fn test_gguf_writer_integration() {
    let mut writer = GGUFWriter::new();

    writer.add_metadata("test.int".to_string(), GGUFValue::Int32(123));
    writer.add_metadata("test.bool".to_string(), GGUFValue::Bool(true));
    writer.add_metadata("test.string".to_string(), GGUFValue::String("hello gguf".to_string()));

    let tensor1_info = TensorInfo {
        name: "tensor1".to_string(),
        dimensions: vec![100, 200],
        ggml_type: GGMLTypeRenamed::F32,
        offset: 0,
    };
    let tensor2_info = TensorInfo {
        name: "tensor2".to_string(),
        dimensions: vec![50],
        ggml_type: GGMLTypeRenamed::Q8_0,
        offset: 0,
    };

    writer.add_tensor_info(tensor1_info.clone());
    writer.add_tensor_info(tensor2_info.clone());

    let tensor1_data: Vec<f32> = vec![1.0f32; 100 * 200];
    let tensor2_data: Vec<i8> = vec![5i8; 50];
    let tensor_data_slices: Vec<&[u8]> =
        vec![bytemuck::cast_slice(&tensor1_data), bytemuck::cast_slice(&tensor2_data)];

    let mut sink = ByteSink::new();
    assert!(writer.fits(0, &tensor_data_slices));
    writer.write(&mut sink, &tensor_data_slices).unwrap();

    assert!(sink.stream_position() > 0);
    println!("Integration test wrote {} bytes.", sink.stream_position());

    let mut buffer = Cursor::new(sink.into_inner());
    assert_eq!(buffer.read_u32::<LittleEndian>().unwrap(), GGUF_MAGIC);
    assert_eq!(buffer.read_u32::<LittleEndian>().unwrap(), GGUF_VERSION);
    assert_eq!(buffer.read_u64::<LittleEndian>().unwrap(), 2);
    assert_eq!(buffer.read_u64::<LittleEndian>().unwrap(), 3);
}

fn bytes_of(value: &GGUFValue) -> Vec<u8> {
    let mut sink = ByteSink::new();
    write_metadata_value(&mut sink, value).unwrap();
    sink.into_inner()
}

#[test]
fn every_scalar_has_its_bytes() {
    assert_eq!(bytes_of(&GGUFValue::Uint8(0xab)), [0xab]);
    assert_eq!(bytes_of(&GGUFValue::Int8(-2)), [0xfe]);
    assert_eq!(bytes_of(&GGUFValue::Uint16(0x1234)), [0x34, 0x12]);
    assert_eq!(bytes_of(&GGUFValue::Int16(-2)), [0xfe, 0xff]);
    assert_eq!(bytes_of(&GGUFValue::Uint32(0x12345678)), [0x78, 0x56, 0x34, 0x12]);
    assert_eq!(bytes_of(&GGUFValue::Int32(-2)), [0xfe, 0xff, 0xff, 0xff]);
    assert_eq!(bytes_of(&GGUFValue::Float32(1.5f32.to_bits())), 1.5f32.to_le_bytes());
    assert_eq!(
        bytes_of(&GGUFValue::Uint64(0x0123456789abcdef)),
        [0xef, 0xcd, 0xab, 0x89, 0x67, 0x45, 0x23, 0x01]
    );
    assert_eq!(bytes_of(&GGUFValue::Int64(i64::MIN)), [0, 0, 0, 0, 0, 0, 0, 0x80]);
    assert_eq!(bytes_of(&GGUFValue::Float64((-0.1f64).to_bits())), (-0.1f64).to_le_bytes());
    assert_eq!(bytes_of(&GGUFValue::Bool(true)), [1]);
    assert_eq!(bytes_of(&GGUFValue::Bool(false)), [0]);
    assert_eq!(
        bytes_of(&GGUFValue::String("\u{e9}".to_string())),
        [2, 0, 0, 0, 0, 0, 0, 0, 0xc3, 0xa9]
    );
}

#[test]
fn empty_array_is_of_type_zero() {
    assert_eq!(bytes_of(&GGUFValue::Array(vec![])), [0; 12]);
}

#[test]
fn nested_array_is_written() {
    let inner = GGUFValue::Array(vec![GGUFValue::Uint8(7)]);
    let written = bytes_of(&GGUFValue::Array(vec![inner.clone(), inner]));
    let mut expected = vec![9, 0, 0, 0, 2, 0, 0, 0, 0, 0, 0, 0];
    for _ in 0..2 {
        expected.extend_from_slice(&[0, 0, 0, 0, 1, 0, 0, 0, 0, 0, 0, 0, 7]);
    }
    assert_eq!(written, expected);
}

#[test]
fn mixed_array_is_refused_where_the_type_changes() {
    let mixed = GGUFValue::Array(vec![
        GGUFValue::Uint8(1),
        GGUFValue::Uint8(2),
        GGUFValue::Bool(true),
        GGUFValue::Uint8(4),
    ]);
    let mut sink = ByteSink::new();
    let r = write_metadata_value(&mut sink, &mixed);
    assert!(matches!(r, Err(GGUFWriteError::InvalidMetadataValueType)));
    assert_eq!(sink.as_bytes(), [0, 0, 0, 0, 4, 0, 0, 0, 0, 0, 0, 0, 1, 2]);

    let nested = GGUFValue::Array(vec![mixed]);
    let mut sink = ByteSink::new();
    let r = write_metadata_value(&mut sink, &nested);
    assert!(matches!(r, Err(GGUFWriteError::InvalidMetadataValueType)));
}

#[test]
fn value_types_are_numbered_in_order() {
    let all = [
        GGUFValueType::Uint8,
        GGUFValueType::Int8,
        GGUFValueType::Uint16,
        GGUFValueType::Int16,
        GGUFValueType::Uint32,
        GGUFValueType::Int32,
        GGUFValueType::Float32,
        GGUFValueType::Bool,
        GGUFValueType::String,
        GGUFValueType::Array,
        GGUFValueType::Uint64,
        GGUFValueType::Int64,
        GGUFValueType::Float64,
    ];
    for (i, t) in all.iter().enumerate() {
        assert_eq!(gguf_value_type_to_u32(*t), i as u32);
    }
}

#[test]
fn element_types_have_their_numbers() {
    assert_eq!(GGMLTypeRenamed::F32.to_u32(), 0);
    assert_eq!(GGMLTypeRenamed::F16.to_u32(), 1);
    assert_eq!(GGMLTypeRenamed::Q4_1.to_u32(), 3);
    assert_eq!(GGMLTypeRenamed::Q5_0.to_u32(), 6);
    assert_eq!(GGMLTypeRenamed::Q2K.to_u32(), 10);
    assert_eq!(GGMLTypeRenamed::Q8K.to_u32(), 15);
    assert_eq!(GGMLTypeRenamed::I8.to_u32(), 16);
    assert_eq!(GGMLTypeRenamed::BF16.to_u32(), 21);
    assert_eq!(GGMLType::Q2_K.to_u32(), 10);
    assert_eq!(GGMLType::Q8_K.to_u32(), 15);
    assert_eq!(GGMLType::BF16.to_u32(), 21);
}

#[test]
fn default_header_is_that_of_an_empty_file() {
    let header = GGUFHeader::default();
    assert_eq!(header.magic, 0x46554747);
    assert_eq!(header.version, 3);
    assert_eq!(header.tensor_count, 0);
    assert_eq!(header.metadata_kv_count, 0);
    assert_eq!(header.magic.to_le_bytes(), *b"GGUF");
}

#[test]
fn tensor_data_is_written_as_it_is() {
    let mut sink = ByteSink::new();
    write_tensor_data(&mut sink, &[3, 1, 2]).unwrap();
    assert_eq!(sink.as_bytes(), [3, 1, 2]);
}

#[test]
fn sink_overwrites_and_extends() {
    let mut sink = ByteSink::new();
    sink.write_all(&[1, 2, 3, 4]);
    sink.seek_start(2);
    sink.write_all(&[8, 9, 10]);
    assert_eq!(sink.as_bytes(), [1, 2, 8, 9, 10]);
    assert_eq!(sink.stream_position(), 5);
    sink.seek_start(0);
    sink.write_all(&[7]);
    assert_eq!(sink.as_bytes(), [7, 2, 8, 9, 10]);
    assert_eq!(sink.stream_position(), 1);
}

fn info(name: &str, dimensions: Vec<u64>, offset: u64) -> TensorInfo {
    TensorInfo { name: name.to_string(), dimensions, ggml_type: GGMLTypeRenamed::I8, offset }
}

struct Parsed {
    keys: Vec<String>,
    offsets: Vec<u64>,
    infos_end: usize,
}

fn read_text(reader: &mut Cursor<Vec<u8>>) -> String {
    let len = reader.read_u64::<LittleEndian>().unwrap();
    let mut bytes = vec![0u8; len as usize];
    reader.read_exact(&mut bytes).unwrap();
    String::from_utf8(bytes).unwrap()
}

fn parse(file: &[u8]) -> Parsed {
    let mut reader = Cursor::new(file.to_vec());
    assert_eq!(reader.read_u32::<LittleEndian>().unwrap(), GGUF_MAGIC);
    assert_eq!(reader.read_u32::<LittleEndian>().unwrap(), 3);
    let tensors = reader.read_u64::<LittleEndian>().unwrap();
    let pairs = reader.read_u64::<LittleEndian>().unwrap();
    let mut keys = Vec::new();
    for _ in 0..pairs {
        keys.push(read_text(&mut reader));
        assert_eq!(reader.read_u32::<LittleEndian>().unwrap(), 4);
        reader.read_u32::<LittleEndian>().unwrap();
    }
    let mut offsets = Vec::new();
    for _ in 0..tensors {
        read_text(&mut reader);
        let n = reader.read_u32::<LittleEndian>().unwrap();
        for _ in 0..n {
            reader.read_u64::<LittleEndian>().unwrap();
        }
        assert_eq!(reader.read_u32::<LittleEndian>().unwrap(), 16);
        offsets.push(reader.read_u64::<LittleEndian>().unwrap());
    }
    Parsed { keys, offsets, infos_end: reader.position() as usize }
}

#[test]
fn tensors_lie_at_their_offsets() {
    let mut writer = GGUFWriter::new();
    writer.add_metadata("a".to_string(), GGUFValue::Uint32(1));
    writer.add_tensor_info(info("x", vec![33], 77));
    writer.add_tensor_info(info("y", vec![], 78));
    writer.add_tensor_info(info("z", vec![2, 3], 79));
    let x = vec![1u8; 33];
    let y = vec![2u8; 32];
    let z = vec![3u8; 6];
    let data: Vec<&[u8]> = vec![&x, &y, &z];
    let mut sink = ByteSink::new();
    writer.write(&mut sink, &data).unwrap();
    let file = sink.into_inner();
    let parsed = parse(&file);
    let mut end = parsed.infos_end;
    for (i, bytes) in data.iter().enumerate() {
        let at = parsed.offsets[i] as usize;
        assert_eq!(at % 32, 0);
        assert!(end <= at && at < end + 32);
        assert!(file[end..at].iter().all(|b| *b == 0));
        assert_eq!(&file[at..at + bytes.len()], *bytes);
        end = at + bytes.len();
    }
    assert_eq!(parsed.offsets[1], parsed.offsets[0] + 64);
    assert_eq!(parsed.offsets[2], parsed.offsets[1] + 32);
    assert_eq!(end, file.len());
}

#[test]
fn file_without_tensors_ends_at_the_alignment() {
    let mut writer = GGUFWriter::new();
    let mut sink = ByteSink::new();
    writer.write(&mut sink, &[]).unwrap();
    let file = sink.into_inner();
    assert_eq!(file.len(), 32);
    assert_eq!(&file[24..], [0; 8]);
}

#[test]
fn writing_again_gives_the_same_file() {
    let mut writer = GGUFWriter::new();
    writer.add_tensor_info(info("x", vec![3], 5));
    let x = [1u8, 2, 3];
    let data: Vec<&[u8]> = vec![&x];
    let mut first = ByteSink::new();
    writer.write(&mut first, &data).unwrap();
    let mut second = ByteSink::new();
    writer.write(&mut second, &data).unwrap();
    assert_eq!(first.as_bytes(), second.as_bytes());
}

#[test]
fn header_is_written_over_the_start_of_the_sink() {
    let mut writer = GGUFWriter::new();
    let mut sink = ByteSink::new();
    sink.write_all(&[9; 30]);
    writer.write(&mut sink, &[]).unwrap();
    let bytes = sink.into_inner();
    assert_eq!(&bytes[0..4], b"GGUF");
    assert_eq!(&bytes[24..30], [9; 6]);
    assert_eq!(&bytes[30..34], b"GGUF");
    assert_eq!(bytes.len(), 64);
}

#[test]
fn last_value_of_a_key_wins() {
    let mut writer = GGUFWriter::new();
    writer.add_metadata("a".to_string(), GGUFValue::Uint32(1));
    writer.add_metadata("b".to_string(), GGUFValue::Uint32(2));
    writer.add_metadata("a".to_string(), GGUFValue::Uint32(3));
    let mut sink = ByteSink::new();
    writer.write(&mut sink, &[]).unwrap();
    let file = sink.into_inner();
    let parsed = parse(&file);
    assert_eq!(parsed.keys, ["a", "b"]);
    assert_eq!(&file[24 + 9 + 4..24 + 9 + 8], [3, 0, 0, 0]);
}

#[test]
fn count_mismatch_is_reported() {
    let mut writer = GGUFWriter::new();
    writer.add_tensor_info(info("x", vec![1], 0));
    let mut sink = ByteSink::new();
    let r = writer.write(&mut sink, &[]);
    assert!(matches!(
        r,
        Err(GGUFWriteError::TensorCountMismatch { info_count: 1, data_count: 0 })
    ));
    assert!(sink.as_bytes().is_empty());
}

#[test]
fn bad_metadata_stops_the_file() {
    let mut writer = GGUFWriter::new();
    writer.add_metadata(
        "k".to_string(),
        GGUFValue::Array(vec![GGUFValue::Uint8(1), GGUFValue::Int8(1)]),
    );
    let mut sink = ByteSink::new();
    let r = writer.write(&mut sink, &[]);
    assert!(matches!(r, Err(GGUFWriteError::InvalidMetadataValueType)));
    assert_eq!(sink.as_bytes().len(), 24 + 9 + 4 + 12 + 1);
}

#[test]
fn positions_must_fit_in_64_bits() {
    let writer = GGUFWriter::new();
    assert!(writer.fits(0, &[]));
    assert!(writer.fits(u64::MAX - 63, &[]));
    assert!(!writer.fits(u64::MAX - 30, &[]));
    assert!(writer.fits(u64::MAX, &[&[1u8][..]]));
}

#[test]
fn errors_say_what_is_wrong() {
    assert_eq!(
        GGUFWriteError::InvalidMetadataValueType.message(),
        "Invalid metadata value type used in array or nested array detected"
    );
    assert_eq!(
        GGUFWriteError::TensorCountMismatch { info_count: 1203, data_count: 0 }.message(),
        "Tensor info count (1203) does not match tensor data count (0)"
    );
    assert_eq!(
        GGUFWriteError::TooManyDimensions("t".to_string(), 9, 4).message(),
        "Tensor 't' has too many dimensions (9 > max 4)"
    );
    for t in [GGUFValueType::Uint8, GGUFValueType::Array, GGUFValueType::Float64] {
        assert_eq!(
            GGUFWriteError::UnsupportedValue(t).message(),
            format!("Unsupported GGUFValue for direct writing: {:?}", t)
        );
    }
}

#[test]
fn values_are_compared_as_numbers() {
    let single = |x: f32| GGUFValue::Float32(x.to_bits());
    let double = |x: f64| GGUFValue::Float64(x.to_bits());
    for (a, b) in [(0.0, -0.0), (1.5, 1.5), (1.5, -1.5), (f32::NAN, f32::NAN), (1.0, f32::NAN)] {
        assert_eq!(single(a) == single(b), a == b);
        assert_eq!(double(a as f64) == double(b as f64), a as f64 == b as f64);
    }
    assert!(single(f32::INFINITY) == single(f32::INFINITY));
    assert!(single(f32::INFINITY) != single(f32::NEG_INFINITY));
    assert!(double(f64::INFINITY) == double(f64::INFINITY));
    assert!(GGUFValue::Uint8(1) != GGUFValue::Int8(1));
    assert!(GGUFValue::Float32(0) != GGUFValue::Uint32(0));
    let text = |s: &str| GGUFValue::String(s.to_string());
    assert!(text("a") == text("a") && text("a") != text("b"));
    let list = |x: f32| GGUFValue::Array(vec![GGUFValue::Array(vec![single(x)]), text("a")]);
    assert!(list(0.0) == list(-0.0));
    assert!(list(0.0) != list(1.0));
    assert!(list(f32::NAN) != list(f32::NAN));
    assert!(GGUFValue::Array(vec![]) != GGUFValue::Array(vec![text("a")]));
}
