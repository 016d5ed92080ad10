use ggml_builder::{
    load_safetensors, FileRead, LoadError, SafeTensorDtype, SafeTensorsModel, TensorError,
};
use rand::{thread_rng, RngCore};
use safetensors::tensor::{Dtype, TensorView};
use std::collections::HashMap;
use std::path::Path;

fn read(path: &str) -> FileRead {
    if Path::new(path).exists() {
        FileRead::OpenFailed("not expected to exist".to_string())
    } else {
        FileRead::NotFound
    }
}

#[test]
fn test_load_safetensors_not_found() {
    let mut rng = thread_rng();
    let non_existent_path =
        format!("/tmp/non_existent_safetensor_{}.safetensors", rng.next_u64());
    let result = load_safetensors(&non_existent_path, read(&non_existent_path));
    assert!(result.is_err());
    assert!(result.err().unwrap().message().contains(&non_existent_path));
}

fn serialized(tensors: &HashMap<String, TensorView>) -> Vec<u8> {
    safetensors::serialize(tensors, &None).unwrap()
}

fn loaded(tensors: &HashMap<String, TensorView>) -> SafeTensorsModel {
    load_safetensors("model.safetensors", FileRead::Contents(serialized(tensors))).unwrap()
}

#[test]
fn test_load_safetensors_success() {
    let mut tensors = HashMap::new();
    let data1: Vec<f32> = vec![1.0, 2.0, 3.0, 4.0];
    let data2: Vec<i8> = vec![5, 6];
    let view1 = TensorView::new(Dtype::F32, vec![2, 2], bytemuck::cast_slice(&data1)).unwrap();
    let view2 = TensorView::new(Dtype::I8, vec![2], bytemuck::cast_slice(&data2)).unwrap();
    tensors.insert("tensor1".to_string(), view1);
    tensors.insert("tensor2".to_string(), view2);

    let bytes = serialized(&tensors);
    let model = load_safetensors("some/model.safetensors", FileRead::Contents(bytes.clone()))
        .expect("Loading failed");

    assert_eq!(model.path(), "some/model.safetensors");
    assert_eq!(model.buffer(), bytes);

    let loaded_view1 = model.tensor("tensor1").expect("Tensor 1 not found");
    assert_eq!(loaded_view1.dtype(), SafeTensorDtype::F32);
    assert_eq!(loaded_view1.shape(), &[2, 2]);
    assert_eq!(loaded_view1.data(), bytemuck::cast_slice::<f32, u8>(&data1));

    let loaded_view2 = model.tensor("tensor2").expect("Tensor 2 not found");
    assert_eq!(loaded_view2.dtype(), SafeTensorDtype::I8);
    assert_eq!(loaded_view2.shape(), &[2]);
    assert_eq!(loaded_view2.data(), bytemuck::cast_slice::<i8, u8>(&data2));

    let mut count = 0;
    for item in model.tensors().expect("Failed to get tensors iterator") {
        let (name, view) = item;
        assert!(name == "tensor1" || name == "tensor2");
        let looked_up = model.tensor(&name).unwrap();
        assert_eq!(looked_up.dtype(), view.dtype());
        assert_eq!(looked_up.shape(), view.shape());
        assert_eq!(looked_up.data(), view.data());
        count += 1;
    }
    assert_eq!(count, 2);
}

#[test]
fn test_load_safetensors_invalid_file() {
    let read = FileRead::Contents(b"this is not a safetensor file".to_vec());
    let result = load_safetensors("bad.safetensors", read);
    assert!(result.is_err());
    let error = result.err().unwrap();
    assert!(matches!(error, LoadError::InvalidFormat { .. }));
    assert_eq!(
        error.message(),
        "Failed initial validation of safetensors format in: bad.safetensors"
    );
}

#[test]
fn test_get_non_existent_tensor() {
    let model = loaded(&HashMap::new());
    let result = model.tensor("non_existent_tensor");
    assert!(result.is_err());
    let error = result.err().unwrap();
    assert!(error.message().contains("non_existent_tensor"));
    assert_eq!(error.message(), "Failed to find tensor named 'non_existent_tensor'");
    assert!(model.tensors().unwrap().is_empty());
}

#[test]
fn every_element_type_is_told_apart() {
    let all = [
        (Dtype::BOOL, SafeTensorDtype::BOOL, 1),
        (Dtype::U8, SafeTensorDtype::U8, 1),
        (Dtype::I8, SafeTensorDtype::I8, 1),
        (Dtype::F8_E5M2, SafeTensorDtype::F8_E5M2, 1),
        (Dtype::F8_E4M3, SafeTensorDtype::F8_E4M3, 1),
        (Dtype::I16, SafeTensorDtype::I16, 2),
        (Dtype::U16, SafeTensorDtype::U16, 2),
        (Dtype::F16, SafeTensorDtype::F16, 2),
        (Dtype::BF16, SafeTensorDtype::BF16, 2),
        (Dtype::I32, SafeTensorDtype::I32, 4),
        (Dtype::U32, SafeTensorDtype::U32, 4),
        (Dtype::F32, SafeTensorDtype::F32, 4),
        (Dtype::F64, SafeTensorDtype::F64, 8),
        (Dtype::I64, SafeTensorDtype::I64, 8),
        (Dtype::U64, SafeTensorDtype::U64, 8),
    ];
    for (outside, inside, size) in all {
        let data: Vec<u8> = (0..size as u8 * 3).collect();
        let mut tensors = HashMap::new();
        tensors.insert("t".to_string(), TensorView::new(outside, vec![3], &data).unwrap());
        let model = loaded(&tensors);
        let view = model.tensor("t").unwrap();
        assert_eq!(view.dtype(), inside);
        assert_eq!(view.shape(), [3]);
        assert_eq!(view.data(), data);
    }
}

#[test]
fn errors_of_reading_are_passed_on() {
    let r = load_safetensors("a", FileRead::OpenFailed("denied".to_string()));
    let e = r.err().unwrap();
    assert_eq!(e.message(), "Failed to open file: a");
    assert!(matches!(e, LoadError::OpenFailed { cause, .. } if cause == "denied"));
    let r = load_safetensors("b", FileRead::ReadFailed("broken".to_string()));
    let e = r.err().unwrap();
    assert_eq!(e.message(), "Failed to read file content: b");
    assert!(matches!(e, LoadError::ReadFailed { cause, .. } if cause == "broken"));
    let r = load_safetensors("c", FileRead::NotFound);
    assert_eq!(r.err().unwrap().message(), "Safetensors file not found: c");
    let e = TensorError::InvalidHeader { cause: "x".to_string() };
    assert_eq!(e.message(), "Failed to deserialize SafeTensors header from buffer");
}

fn with_header(header: &str, data: &[u8]) -> Vec<u8> {
    let mut file = (header.len() as u64).to_le_bytes().to_vec();
    file.extend_from_slice(header.as_bytes());
    file.extend_from_slice(data);
    file
}

#[test]
fn header_by_hand_is_read() {
    let header = r#"{"t":{"dtype":"I16","shape":[1,2],"data_offsets":[0,4]}}"#;
    let model =
        load_safetensors("m", FileRead::Contents(with_header(header, &[1, 2, 3, 4]))).unwrap();
    let view = model.tensor("t").unwrap();
    assert_eq!(view.dtype(), SafeTensorDtype::I16);
    assert_eq!(view.shape(), [1, 2]);
    assert_eq!(view.data(), [1, 2, 3, 4]);
    let short = with_header(header, &[1, 2, 3]);
    assert!(load_safetensors("m", FileRead::Contents(short)).is_err());
}

fn cause_of(bytes: Vec<u8>) -> String {
    match load_safetensors("m", FileRead::Contents(bytes)) {
        Err(LoadError::InvalidFormat { path, cause }) => {
            assert_eq!(path, "m");
            cause
        }
        other => panic!("{:?}", other),
    }
}

fn bytes_at(name: &str, start: usize, end: usize, count: usize) -> String {
    format!(
        r#""{}":{{"dtype":"U8","shape":[{}],"data_offsets":[{},{}]}}"#,
        name, count, start, end
    )
}

#[test]
fn tensor_that_ends_too_far_out_is_refused() {
    let max = usize::MAX;
    let far = bytes_at("t", 0, max, max);
    let incomplete = "MetadataIncompleteBuffer";
    assert_eq!(cause_of(with_header(&format!("{{{}}}", far), &[])), incomplete);
    let a = bytes_at("a", 0, 0, 0);
    let b = bytes_at("b", 0, 7, 7);
    let c = bytes_at("c", 7, 7, 0);
    let d = bytes_at("d", 7, max, max - 7);
    let e = bytes_at("e", max, max, 0);
    let header = format!("{{{},{},{},{},{},{}}}", e, d, c, b, a, bytes_at("f", 0, 0, 0));
    assert_eq!(cause_of(with_header(&header, &[])), incomplete);
}

#[test]
fn other_faults_come_before_a_far_end() {
    let max = usize::MAX;
    let one = |t: String| cause_of(with_header(&format!("{{{}}}", t), &[]));
    assert_eq!(one(bytes_at("t", 5, max, max - 5)), "InvalidOffset(\"t\")");
    assert_eq!(one(bytes_at("t", 0, max, 3)), "TensorInvalidInfo");
    let wide = format!(r#""t":{{"dtype":"I16","shape":[{}],"data_offsets":[0,{}]}}"#, max, max);
    assert_eq!(one(wide), "ValidationOverflow");
    let deep = format!(r#""t":{{"dtype":"U8","shape":[{},2,0],"data_offsets":[0,{}]}}"#, max, max);
    assert_eq!(one(deep), "ValidationOverflow");
    let twice = format!("{},{}", bytes_at("t", 0, max, max), bytes_at("u", 0, max, max));
    let cause = one(twice);
    assert!(cause == "InvalidOffset(\"t\")" || cause == "InvalidOffset(\"u\")");
    let gap = format!("{},{}", bytes_at("t", 0, 4, 4), bytes_at("u", 5, max, max - 5));
    assert_eq!(one(gap), "InvalidOffset(\"u\")");
}

#[test]
fn faults_are_passed_on() {
    assert_eq!(cause_of(vec![1, 2, 3]), "HeaderTooSmall");
    assert_eq!(cause_of(vec![255; 8]), "HeaderTooLarge");
    assert_eq!(cause_of(vec![9, 0, 0, 0, 0, 0, 0, 0, b'{']), "InvalidHeaderLength");
    assert_eq!(cause_of(with_header("[", &[])), "InvalidHeaderDeserialization");
    assert_eq!(cause_of(vec![1, 0, 0, 0, 0, 0, 0, 0, 0xff]), "InvalidHeader");
    let header = format!("{{{}}}", bytes_at("t", 0, 4, 4));
    assert_eq!(cause_of(with_header(&header, &[1, 2, 3])), "MetadataIncompleteBuffer");
}

#[test]
fn truncated_files_are_refused() {
    for bytes in [vec![], vec![1, 2, 3], vec![255; 8], vec![9, 0, 0, 0, 0, 0, 0, 0, b'{']] {
        let r = load_safetensors("m", FileRead::Contents(bytes));
        assert!(matches!(r, Err(LoadError::InvalidFormat { .. })));
    }
}
