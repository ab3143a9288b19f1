use ferrinx::engine::{
    extract_i64_data, extract_i8_data, CacheStatus, ModelCache, PreloadDecision, SessionLookup,
};
use ferrinx::errors::{CoreError, Result as CoreResult, StorageError, TransformError};
use ferrinx::model::{check_onnxruntime_library, default_dtype, init_onnxruntime, LocalStorage, ModelLoader};
use ferrinx::tensor::{Tensor, TensorDecodeError};
use ferrinx::types::TensorDataType;
use ferrinx::transform::base64_input_decode;
use ferrinx::pipeline::{
    center_crop_origin, label_for, pad_extents, reshape_sizes, slice_range, squeeze_dims, unsqueeze_dims,
};

#[test]
fn test_tensor_new_i8_and_decode() {
    let data = vec![1i8, -2, 3, -4, 5];
    let shape = vec![5];
    let tensor = Tensor::new_i8(shape.clone(), &data);

    assert_eq!(tensor.dtype, TensorDataType::Int8);
    assert_eq!(tensor.shape, shape);

    let decoded = tensor.decode_i8().unwrap();
    assert_eq!(decoded, data);
}

#[test]
fn test_tensor_new_i64_and_decode() {
    let data = vec![1i64, 2, 3, 4, 5];
    let shape = vec![5];
    let tensor = Tensor::new_i64(shape.clone(), &data);

    assert_eq!(tensor.dtype, TensorDataType::Int64);
    assert_eq!(tensor.shape, shape);

    let decoded = tensor.decode_i64().unwrap();
    assert_eq!(decoded, data);
}

#[test]
fn test_tensor_decode_type_mismatch() {
    let tensor = Tensor::new_i8(vec![2], &[1, 2]);
    let result = tensor.decode_i64();
    assert!(matches!(result, Err(TensorDecodeError::TypeMismatch)));

    let tensor2 = Tensor::new_i64(vec![2], &[1, 2]);
    let result2 = tensor2.decode_i8();
    assert!(matches!(result2, Err(TensorDecodeError::TypeMismatch)));
}

#[test]
fn test_model_not_found_display() {
    let error = CoreError::ModelNotFound("test-model".to_string());
    assert_eq!(error.to_string(), "Model not found: test-model");
}

#[test]
fn test_model_load_failed_display() {
    let error = CoreError::ModelLoadFailed("Invalid format".to_string());
    assert_eq!(error.to_string(), "Model load failed: Invalid format");
}

#[test]
fn test_invalid_model_format_display() {
    let error = CoreError::InvalidModelFormat("Missing layer".to_string());
    assert_eq!(error.to_string(), "Invalid model format: Missing layer");
}

#[test]
fn test_model_parse_failed_display() {
    let error = CoreError::ModelParseFailed("Syntax error".to_string());
    assert_eq!(error.to_string(), "Model parse failed: Syntax error");
}

#[test]
fn test_session_creation_failed_display() {
    let error = CoreError::SessionCreationFailed("Out of memory".to_string());
    assert_eq!(error.to_string(), "Session creation failed: Out of memory");
}

#[test]
fn test_inference_failed_display() {
    let error = CoreError::InferenceFailed("Shape mismatch".to_string());
    assert_eq!(error.to_string(), "Inference failed: Shape mismatch");
}

#[test]
fn test_inference_timeout_display() {
    let error = CoreError::InferenceTimeout;
    assert_eq!(error.to_string(), "Inference timeout");
}

#[test]
fn test_concurrency_limit_reached_display() {
    let error = CoreError::ConcurrencyLimitReached;
    assert_eq!(error.to_string(), "Concurrency limit reached");
}

#[test]
fn test_input_not_found_display() {
    let error = CoreError::InputNotFound("input.1".to_string());
    assert_eq!(error.to_string(), "Input not found: input.1");
}

#[test]
fn test_invalid_input_display() {
    let error = CoreError::InvalidInput("Wrong shape".to_string());
    assert_eq!(error.to_string(), "Invalid input: Wrong shape");
}

#[test]
fn test_unsupported_tensor_type_display() {
    let error = CoreError::UnsupportedTensorType;
    assert_eq!(error.to_string(), "Unsupported tensor type");
}

#[test]
fn test_unsupported_input_type_display() {
    let error = CoreError::UnsupportedInputType;
    assert_eq!(error.to_string(), "Unsupported input type");
}

#[test]
fn test_execution_provider_error_display() {
    let error = CoreError::ExecutionProviderError("CUDA not available".to_string());
    assert_eq!(error.to_string(), "Execution provider error: CUDA not available");
}

#[test]
fn test_validation_timeout_display() {
    let error = CoreError::ValidationTimeout;
    assert_eq!(error.to_string(), "Validation timeout");
}

#[test]
fn test_blocking_task_failed_display() {
    let error = CoreError::BlockingTaskFailed("Thread panic".to_string());
    assert_eq!(error.to_string(), "Blocking task failed: Thread panic");
}

#[test]
fn test_ndarray_error_display() {
    let error = CoreError::NdarrayError("Shape mismatch".to_string());
    assert_eq!(error.to_string(), "Ndarray error: Shape mismatch");
}

#[test]
fn test_storage_error_io() {
    let io_error = std::io::Error::new(std::io::ErrorKind::NotFound, "file not found");
    let storage_error = StorageError::IoError(io_error);
    assert!(storage_error.to_string().contains("IO error"));
}

#[test]
fn test_storage_error_invalid_path() {
    let error = StorageError::InvalidPath("../invalid".to_string());
    assert_eq!(error.to_string(), "Invalid path: ../invalid");
}

#[test]
fn test_storage_error_file_not_found() {
    let error = StorageError::FileNotFound("/models/missing.onnx".to_string());
    assert_eq!(error.to_string(), "File not found: /models/missing.onnx");
}

#[test]
fn test_storage_error_into_core_error() {
    let storage_error = StorageError::FileNotFound("test.onnx".to_string());
    let core_error: CoreError = storage_error.into();
    assert!(matches!(core_error, CoreError::StorageError(_)));
}

#[test]
fn test_io_error_into_core_error() {
    let io_error = std::io::Error::new(std::io::ErrorKind::NotFound, "not found");
    let core_error: CoreError = io_error.into();
    assert!(matches!(core_error, CoreError::IoError(_)));
}

#[test]
fn test_json_error_into_core_error() {
    let json_result: std::result::Result<serde_json::Value, _> = serde_json::from_str("invalid");
    let json_error = json_result.unwrap_err();
    let core_error: CoreError = json_error.into();
    assert!(matches!(core_error, CoreError::JsonError(_)));
}

#[test]
fn test_error_debug() {
    let error = CoreError::ModelNotFound("test".to_string());
    let debug_str = format!("{:?}", error);
    assert!(debug_str.contains("ModelNotFound"));
}

#[test]
fn test_result_type() {
    fn returns_result() -> CoreResult<String> {
        Ok("success".to_string())
    }
    assert!(returns_result().is_ok());
}

#[test]
fn test_result_error() {
    fn returns_error() -> CoreResult<String> {
        Err(CoreError::InferenceTimeout)
    }
    assert!(returns_error().is_err());
}

#[test]
fn test_onnx_runtime_library_not_found_display() {
    let error = CoreError::OnnxRuntimeLibraryNotFound("/path/to/lib.so".to_string());
    assert_eq!(error.to_string(), "ONNX Runtime library not found: /path/to/lib.so");
}

#[test]
fn test_init_onnxruntime_nonexistent_path() {
    let lib = "/nonexistent/path/libonnxruntime.so";
    let path = std::path::Path::new(lib);
    let result = check_onnxruntime_library(lib, path.exists(), path.is_file());
    assert!(result.is_err());
    let err = result.unwrap_err();
    assert!(matches!(err, CoreError::OnnxRuntimeLibraryNotFound(_)));
    assert!(err.to_string().contains("Path does not exist"));
}

#[test]
fn test_init_onnxruntime_directory_path() {
    let lib = "/tmp";
    let path = std::path::Path::new(lib);
    let result = check_onnxruntime_library(lib, path.exists(), path.is_file());
    assert!(result.is_err());
    let err = result.unwrap_err();
    assert!(matches!(err, CoreError::OnnxRuntimeLibraryNotFound(_)));
    assert!(err.to_string().contains("Path is not a file"));
}

#[test]
fn test_cache_status() {
    let cache = ModelCache::new(3);
    let status = cache.status();
    assert_eq!(status.loaded_models, 0);
    assert_eq!(status.max_size, 3);
}

// Own tests.

#[test]
fn linked_runtime_needs_no_initialization() {
    assert!(init_onnxruntime("/any/path").is_ok());
    assert_eq!(default_dtype(), "float32");
}

#[test]
fn onnx_header_check() {
    let loader = ModelLoader::new(LocalStorage::new("/models"));
    assert!(loader.check_onnx_magic(&[0x08, 0, 0, 0]).is_ok());
    assert!(loader.check_onnx_magic(&[0x0a, 1, 2, 3, 4]).is_ok());
    match loader.check_onnx_magic(&[0x08, 0, 0]) {
        Err(CoreError::InvalidModelFormat(m)) => assert_eq!(m, "File too small"),
        _ => panic!("expected a format error"),
    }
    match loader.check_onnx_magic(&[0x07, 0, 0, 0]) {
        Err(CoreError::InvalidModelFormat(m)) => assert_eq!(m, "Invalid ONNX file header"),
        _ => panic!("expected a format error"),
    }
}

#[test]
fn local_storage_model_paths() {
    assert_eq!(LocalStorage::new("/data/models").model_file_path("abc"), "/data/models/abc.onnx");
    assert_eq!(LocalStorage::new("/data/models/").model_file_path("abc"), "/data/models/abc.onnx");
    assert_eq!(LocalStorage::new("").model_file_path("abc"), "abc.onnx");
    assert_eq!(LocalStorage::new("/data").model_file_path("/abs/x"), "/abs/x.onnx");
}

#[test]
fn session_cache_hits_waits_loads_and_evicts_least_recent() {
    let mut cache = ModelCache::new(2);
    assert_eq!(cache.lookup(1), SessionLookup::Load { evicted: None });
    assert_eq!(cache.lookup(1), SessionLookup::Wait);
    assert_eq!(cache.begin_preload(1), PreloadDecision::AlreadyLoading);
    cache.finish_load(1, Some(100));
    assert_eq!(cache.lookup(1), SessionLookup::Hit(100));

    assert_eq!(cache.lookup(2), SessionLookup::Load { evicted: None });
    cache.finish_load(2, Some(200));
    // 1 is used again, so 2 becomes the least recently used.
    assert_eq!(cache.lookup(1), SessionLookup::Hit(100));
    assert_eq!(cache.cached_model_ids(), vec![1, 2]);
    assert_eq!(cache.lookup(3), SessionLookup::Load { evicted: Some(2) });
    cache.finish_load(3, Some(300));
    assert_eq!(cache.cached_model_ids(), vec![3, 1]);
    assert_eq!(cache.status(), CacheStatus { loaded_models: 2, max_size: 2 });
    assert_eq!(cache.begin_preload(3), PreloadDecision::AlreadyCached);
}

#[test]
fn failed_load_lets_the_next_request_load_again() {
    let mut cache = ModelCache::new(0);
    assert_eq!(cache.status().max_size, 5);
    assert_eq!(cache.lookup(9), SessionLookup::Load { evicted: None });
    cache.finish_load(9, None);
    assert_eq!(cache.lookup(9), SessionLookup::Load { evicted: None });
}

#[test]
fn clearing_the_cache_reports_sessions_most_recent_first() {
    let mut cache = ModelCache::new(3);
    for id in [1u128, 2, 3] {
        assert!(matches!(cache.begin_preload(id), PreloadDecision::Load { evicted: None }));
        cache.finish_load(id, Some(id as u64 * 10));
    }
    assert_eq!(cache.clear(), vec![3, 2, 1]);
    assert_eq!(cache.status().loaded_models, 0);
}

#[test]
fn extracting_int8_input_checks_type_shape_and_size() {
    let t = Tensor::new_i8(vec![2, 2], &[1, 2, 3, 4]);
    let (data, shape) = extract_i8_data(&t, &[2, 2]).unwrap();
    assert_eq!(data, vec![1, 2, 3, 4]);
    assert_eq!(shape, vec![2, 2]);

    match extract_i8_data(&t, &[4]) {
        Err(CoreError::InvalidInput(m)) => assert_eq!(m, "Shape mismatch: model expects [4], but tensor has [2, 2]"),
        _ => panic!("expected a shape error"),
    }
    let wide = Tensor::new_i64(vec![1], &[7]);
    match extract_i8_data(&wide, &[1]) {
        Err(CoreError::InvalidInput(m)) => assert_eq!(m, "Expected int8 tensor, got Int64"),
        _ => panic!("expected a type error"),
    }
    let broken = Tensor { dtype: TensorDataType::Int8, shape: vec![2], data: "!!".to_string() };
    match extract_i8_data(&broken, &[2]) {
        Err(CoreError::InvalidInput(m)) => assert_eq!(m, "Failed to decode tensor: Invalid base64 encoding"),
        _ => panic!("expected a decode error"),
    }
}

#[test]
fn extracting_int64_input_counts_elements() {
    let t = Tensor::new_i64(vec![3], &[5, -6, 7]);
    let (data, shape) = extract_i64_data(&t, &[3]).unwrap();
    assert_eq!(data, vec![5, -6, 7]);
    assert_eq!(shape, vec![3]);
    let unknown = Tensor::new_i64(vec![-1], &[5]);
    match extract_i64_data(&unknown, &[-1, 0]) {
        Err(CoreError::InvalidInput(m)) => assert!(m.starts_with("Shape mismatch")),
        _ => panic!("expected a shape error"),
    }
}

#[test]
fn transform_error_messages() {
    let e = TransformError::ShapeMismatch { expected: vec![1, 2], actual: vec![3] };
    assert_eq!(e.to_string(), "Shape mismatch: expected [1, 2], got [3]");
    assert_eq!(TransformError::NoLabels.to_string(), "No labels loaded");
}

#[test]
fn base64_inputs_bare_or_in_data_urls() {
    assert_eq!(base64_input_decode("AQID").unwrap(), vec![1, 2, 3]);
    assert_eq!(base64_input_decode("data:image/png;base64,AQID").unwrap(), vec![1, 2, 3]);
    assert_eq!(base64_input_decode("data:x,AQID,ignored").unwrap(), vec![1, 2, 3]);
    assert!(matches!(base64_input_decode("data:no-comma"), Err(TransformError::InvalidBase64)));
    assert!(matches!(base64_input_decode("!!"), Err(TransformError::InvalidBase64)));
}

#[test]
fn pipeline_shape_and_range_decisions() {
    assert_eq!(squeeze_dims(&[1, 3, 1, 5], &[0, 2]), vec![3, 5]);
    assert_eq!(squeeze_dims(&[1, 3], &[1, 7]), vec![1, 3]);
    assert_eq!(unsqueeze_dims(&[3, 5], &[0, 3]), vec![1, 3, 5, 1]);
    assert_eq!(unsqueeze_dims(&[3], &[5]), vec![3]);
    assert_eq!(reshape_sizes(&[-1, 28, 28]), vec![1, 28, 28]);
    assert_eq!(slice_range(10, 2, 0), (2, 10));
    assert_eq!(slice_range(10, 2, 5), (2, 5));
    assert_eq!(center_crop_origin(100, 50, 60, 80), (20, 0));
    assert_eq!(pad_extents(&[1, 2]), (1, 2, 1, 2));
    assert_eq!(pad_extents(&[1, 2, 3, 4]), (1, 2, 3, 4));
    let labels = vec!["cat".to_string(), "dog".to_string()];
    assert_eq!(label_for(&labels, 1), "dog");
    assert_eq!(label_for(&labels, 2), "");
}

#[test]
fn unsqueezing_then_squeezing_an_axis_gives_back_the_shape() {
    let t = Tensor::new_i8(vec![2, 3], &[1, 2, 3, 4, 5, 6]);
    let u = t.unsqueeze(&[1]).unwrap();
    assert_eq!(u.shape, vec![2, 1, 3]);
    let s = u.squeeze(&[1]).unwrap();
    assert_eq!(s.shape, vec![2, 3]);
    assert_eq!(s.decode_i8().unwrap(), vec![1, 2, 3, 4, 5, 6]);
}

#[test]
fn transposing_moves_elements() {
    let t = Tensor::new_i64(vec![2, 3], &[1, 2, 3, 4, 5, 6]);
    let tt = t.transpose(&[1, 0]).unwrap();
    assert_eq!(tt.shape, vec![3, 2]);
    assert_eq!(tt.decode_i64().unwrap(), vec![1, 4, 2, 5, 3, 6]);
    let back = tt.transpose(&[1, 0]).unwrap();
    assert_eq!(back.decode_i64().unwrap(), vec![1, 2, 3, 4, 5, 6]);
    assert_eq!(t.numel(), 6);
    assert_eq!(t.ndim(), 2);
}

#[test]
fn transposing_back_by_the_inverse_axes_restores_the_tensor() {
    let data: Vec<i8> = (0..24).map(|x| x as i8).collect();
    let t = Tensor::new_i8(vec![2, 3, 4], &data);
    let moved = t.transpose(&[1, 2, 0]).unwrap();
    assert_eq!(moved.shape, vec![3, 4, 2]);
    let moved_data = moved.decode_i8().unwrap();
    assert_eq!(moved_data[0], 0);
    assert_eq!(moved_data[1], 12);
    assert_eq!(moved_data[2], 1);
    let back = moved.transpose(&[2, 0, 1]).unwrap();
    assert_eq!(back.shape, vec![2, 3, 4]);
    assert_eq!(back.decode_i8().unwrap(), data);
}

#[test]
fn unsqueezing_then_squeezing_several_axes_gives_back_the_tensor() {
    let t = Tensor::new_i64(vec![2, 3], &[1, 2, 3, 4, 5, 6]);
    let u = t.unsqueeze(&[0, 2, 4]).unwrap();
    assert_eq!(u.shape, vec![1, 2, 1, 3, 1]);
    let s = u.squeeze(&[0, 2, 4]).unwrap();
    assert_eq!(s.shape, vec![2, 3]);
    assert_eq!(s.decode_i64().unwrap(), vec![1, 2, 3, 4, 5, 6]);
}
