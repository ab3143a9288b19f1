use chrono::{Duration, Utc};
use ferrinx::types::{
    ApiKeyInfo, ApiKeyRecord, InferenceTask, ModelInfo, ModelState, Permissions, TaskPriority, TaskStatus,
    TensorDataType,
};
use ferrinx::utils::{
    generate_api_key, generate_request_id, generate_secure_password, generate_uuid, hash_key, parse_uuid,
    sha256_hash, validate_api_key_format, api_key_from_bytes, password_from_bytes,
};
use ferrinx::redis::{
    api_key_store_key, hash_api_key, result_cache_key, RedisClient, RedisError, RedisFields, RedisPoolConfig, RedisValue,
};
use uuid::Uuid;

fn millis(t: chrono::DateTime<Utc>) -> i64 {
    t.timestamp_millis()
}

#[test]
fn test_model_state_as_str() {
    assert_eq!(ModelState::Cached.as_str(), "cached");
    assert_eq!(ModelState::Available.as_str(), "available");
}

#[test]
fn test_model_state_from_str() {
    assert_eq!(ModelState::from_str("cached"), Some(ModelState::Cached));
    assert_eq!(ModelState::from_str("available"), Some(ModelState::Available));
    assert_eq!(ModelState::from_str("invalid"), None);
}

#[test]
fn test_model_state_priority_score() {
    assert_eq!(ModelState::Cached.priority_score(), 0);
    assert_eq!(ModelState::Available.priority_score(), 1);
}

#[test]
fn test_permissions_user_default() {
    let perms = Permissions::user_default();
    assert!(perms.can_read_models());
    assert!(!perms.can_write_models());
    assert!(!perms.can_delete_models());
    assert!(perms.can_execute_inference());
    assert!(!perms.admin);
}

#[test]
fn test_permissions_admin_default() {
    let perms = Permissions::admin_default();
    assert!(perms.can_read_models());
    assert!(perms.can_write_models());
    assert!(perms.can_delete_models());
    assert!(perms.can_execute_inference());
    assert!(perms.admin);
}

#[test]
fn test_permissions_can_methods_with_admin() {
    let mut perms = Permissions::default();
    perms.admin = true;
    assert!(perms.can_read_models());
    assert!(perms.can_write_models());
    assert!(perms.can_delete_models());
    assert!(perms.can_execute_inference());
}

#[test]
fn test_permissions_can_methods_without_admin() {
    let mut perms = Permissions::default();
    perms.models = vec!["read".to_string()];
    perms.inference = vec!["execute".to_string()];
    assert!(perms.can_read_models());
    assert!(!perms.can_write_models());
    assert!(!perms.can_delete_models());
    assert!(perms.can_execute_inference());
}

fn record(expires_at: Option<i64>) -> ApiKeyRecord {
    ApiKeyRecord {
        id: Uuid::nil(),
        user_id: Uuid::nil(),
        key_hash: "hash".to_string(),
        name: "test".to_string(),
        permissions: Permissions::default(),
        is_active: true,
        is_temporary: false,
        last_used_at: None,
        expires_at,
        created_at: millis(Utc::now()),
        updated_at: millis(Utc::now()),
    }
}

#[test]
fn test_api_key_record_is_expired_no_expiry() {
    let key = record(None);
    assert!(!key.is_expired());
}

#[test]
fn test_api_key_record_is_expired_future() {
    let key = record(Some(millis(Utc::now() + Duration::hours(1))));
    assert!(!key.is_expired());
}

#[test]
fn test_api_key_record_is_expired_past() {
    let key = record(Some(millis(Utc::now() - Duration::hours(1))));
    assert!(key.is_expired());
}

#[test]
fn test_api_key_record_is_valid() {
    let mut key = record(None);
    assert!(key.is_valid());

    key.is_active = false;
    assert!(!key.is_valid());

    key.is_active = true;
    key.expires_at = Some(millis(Utc::now() - Duration::hours(1)));
    assert!(!key.is_valid());
}

#[test]
fn test_task_status_as_str() {
    assert_eq!(TaskStatus::Pending.as_str(), "pending");
    assert_eq!(TaskStatus::Running.as_str(), "running");
    assert_eq!(TaskStatus::Completed.as_str(), "completed");
    assert_eq!(TaskStatus::Failed.as_str(), "failed");
    assert_eq!(TaskStatus::Cancelled.as_str(), "cancelled");
}

#[test]
fn test_task_status_from_str() {
    assert_eq!(TaskStatus::from_str("pending"), Some(TaskStatus::Pending));
    assert_eq!(TaskStatus::from_str("running"), Some(TaskStatus::Running));
    assert_eq!(TaskStatus::from_str("completed"), Some(TaskStatus::Completed));
    assert_eq!(TaskStatus::from_str("failed"), Some(TaskStatus::Failed));
    assert_eq!(TaskStatus::from_str("cancelled"), Some(TaskStatus::Cancelled));
    assert_eq!(TaskStatus::from_str("invalid"), None);
}

#[test]
fn test_task_status_is_terminal() {
    assert!(!TaskStatus::Pending.is_terminal());
    assert!(!TaskStatus::Running.is_terminal());
    assert!(TaskStatus::Completed.is_terminal());
    assert!(TaskStatus::Failed.is_terminal());
    assert!(TaskStatus::Cancelled.is_terminal());
}

#[test]
fn test_task_priority_as_i32() {
    assert_eq!(TaskPriority::Low.as_i32(), 1);
    assert_eq!(TaskPriority::Normal.as_i32(), 5);
    assert_eq!(TaskPriority::High.as_i32(), 10);
}

#[test]
fn test_task_priority_from_i32() {
    assert_eq!(TaskPriority::from_i32(1), TaskPriority::Low);
    assert_eq!(TaskPriority::from_i32(2), TaskPriority::Low);
    assert_eq!(TaskPriority::from_i32(3), TaskPriority::Low);
    assert_eq!(TaskPriority::from_i32(4), TaskPriority::Normal);
    assert_eq!(TaskPriority::from_i32(5), TaskPriority::Normal);
    assert_eq!(TaskPriority::from_i32(7), TaskPriority::Normal);
    assert_eq!(TaskPriority::from_i32(8), TaskPriority::High);
    assert_eq!(TaskPriority::from_i32(10), TaskPriority::High);
    assert_eq!(TaskPriority::from_i32(100), TaskPriority::High);
}

#[test]
fn test_task_priority_default() {
    assert_eq!(TaskPriority::default(), TaskPriority::Normal);
}

fn task() -> InferenceTask {
    InferenceTask {
        id: Uuid::nil(),
        model_id: Uuid::nil(),
        user_id: Uuid::nil(),
        api_key_id: Uuid::nil(),
        status: TaskStatus::Pending,
        inputs: serde_json::Value::Object(serde_json::Map::new()),
        outputs: None,
        error_message: None,
        priority: 5,
        retry_count: 0,
        created_at: millis(Utc::now()),
        started_at: None,
        completed_at: None,
    }
}

#[test]
fn test_inference_task_priority_enum() {
    let mut task = task();
    assert_eq!(task.priority_enum(), TaskPriority::Normal);

    task.priority = 1;
    assert_eq!(task.priority_enum(), TaskPriority::Low);

    task.priority = 10;
    assert_eq!(task.priority_enum(), TaskPriority::High);
}

#[test]
fn test_inference_task_latency_ms() {
    let mut task = task();
    assert!(task.latency_ms().is_none());

    let start = Utc::now();
    task.started_at = Some(millis(start));
    assert!(task.latency_ms().is_none());

    task.completed_at = Some(millis(Utc::now() + Duration::milliseconds(100)));
    let latency = task.latency_ms().unwrap();
    assert!(latency >= 100 && latency <= 110);
}

#[test]
fn test_api_key_info_from_record() {
    let mut record = record(None);
    record.permissions = Permissions::user_default();
    let info: ApiKeyInfo = record.into();
    assert_eq!(info.id, Uuid::nil());
    assert_eq!(info.user_id, Uuid::nil());
    assert_eq!(info.name, "test");
    assert!(info.is_active);
    assert!(!info.is_temporary);
}

#[test]
fn test_api_key_info_is_valid() {
    let mut info = ApiKeyInfo {
        id: Uuid::nil(),
        user_id: Uuid::nil(),
        name: "test".to_string(),
        permissions: Permissions::default(),
        is_active: true,
        is_temporary: false,
        expires_at: None,
    };
    assert!(info.is_valid());

    info.is_active = false;
    assert!(!info.is_valid());

    info.is_active = true;
    info.expires_at = Some(millis(Utc::now() - Duration::hours(1)));
    assert!(!info.is_valid());
}

fn model(input_shapes: Option<serde_json::Value>, metadata: Option<serde_json::Value>) -> ModelInfo {
    ModelInfo {
        id: Uuid::nil(),
        name: "resnet".to_string(),
        version: "1.0".to_string(),
        file_path: "/path/to/model.onnx".to_string(),
        file_size: Some(1024),
        storage_backend: "local".to_string(),
        input_shapes,
        output_shapes: None,
        metadata,
        created_at: millis(Utc::now()),
        updated_at: millis(Utc::now()),
    }
}

fn empty_object() -> serde_json::Value {
    serde_json::Value::Object(serde_json::Map::new())
}

fn empty_array() -> serde_json::Value {
    serde_json::Value::Array(Vec::new())
}

#[test]
fn test_model_info_unique_key() {
    let model = model(None, None);
    assert_eq!(model.unique_key(), "resnet:1.0");
}

#[test]
fn test_model_info_is_valid() {
    let mut model = model(Some(empty_array()), Some(empty_object()));
    assert!(model.is_valid());

    model.metadata = None;
    assert!(!model.is_valid());

    model.metadata = Some(empty_object());
    model.input_shapes = None;
    assert!(!model.is_valid());
}

#[test]
fn test_model_info_validation_error() {
    let mut model = model(Some(empty_array()), Some(empty_object()));
    assert!(model.validation_error().is_none());

    model.metadata = None;
    assert_eq!(model.validation_error(), Some("Missing preprocessing config".to_string()));

    model.input_shapes = None;
    assert_eq!(model.validation_error(), Some("Model failed validation".to_string()));

    model.metadata = Some(empty_object());
    assert_eq!(model.validation_error(), Some("Model failed validation".to_string()));
}

#[test]
fn test_model_info_has_config() {
    let mut model = model(None, Some(empty_object()));
    assert!(model.has_config());

    model.metadata = None;
    assert!(!model.has_config());
}

#[test]
fn test_tensor_data_type_as_str() {
    assert_eq!(TensorDataType::Float32.as_str(), "float32");
    assert_eq!(TensorDataType::Int8.as_str(), "int8");
    assert_eq!(TensorDataType::Int64.as_str(), "int64");
}

#[test]
fn test_tensor_data_type_from_str() {
    assert_eq!(TensorDataType::from_str("float32"), Some(TensorDataType::Float32));
    assert_eq!(TensorDataType::from_str("f32"), Some(TensorDataType::Float32));
    assert_eq!(TensorDataType::from_str("int8"), Some(TensorDataType::Int8));
    assert_eq!(TensorDataType::from_str("i8"), Some(TensorDataType::Int8));
    assert_eq!(TensorDataType::from_str("int64"), Some(TensorDataType::Int64));
    assert_eq!(TensorDataType::from_str("i64"), Some(TensorDataType::Int64));
    assert_eq!(TensorDataType::from_str("invalid"), None);
}

#[test]
fn test_tensor_data_type_element_size() {
    assert_eq!(TensorDataType::Float32.element_size(), 4);
    assert_eq!(TensorDataType::Int8.element_size(), 1);
    assert_eq!(TensorDataType::Int64.element_size(), 8);
}

#[test]
fn test_sha256_hash() {
    let input = "test_api_key";
    let hash = sha256_hash(input);
    assert_eq!(hash.len(), 64);
    assert_ne!(hash, input);
}

#[test]
fn test_sha256_hash_consistency() {
    let input = "test_api_key";
    let hash1 = sha256_hash(input);
    let hash2 = sha256_hash(input);
    assert_eq!(hash1, hash2);
}

#[test]
fn test_generate_api_key() {
    let key = generate_api_key("frx_sk");
    assert!(key.starts_with("frx_sk_"));
    assert!(key.len() > 10);
}

#[test]
fn test_generate_api_key_uniqueness() {
    let key1 = generate_api_key("frx_sk");
    let key2 = generate_api_key("frx_sk");
    assert_ne!(key1, key2);
}

#[test]
fn test_generate_uuid() {
    let uuid = generate_uuid();
    assert!(!uuid.is_nil());
}

#[test]
fn test_validate_api_key_format() {
    assert!(validate_api_key_format("frx_sk_abc123", "frx_sk"));
    assert!(!validate_api_key_format("frx_sk", "frx_sk"));
    assert!(!validate_api_key_format("wrong_prefix_abc", "frx_sk"));
}

#[test]
fn test_generate_request_id() {
    let id = generate_request_id();
    assert!(id.starts_with("req-"));
}

#[test]
fn test_parse_uuid() {
    let uuid_str = "550e8400-e29b-41d4-a716-446655440000";
    let result = parse_uuid(uuid_str);
    assert!(result.is_ok());
}

#[test]
fn test_parse_uuid_invalid() {
    let result = parse_uuid("invalid-uuid");
    assert!(result.is_err());
}

#[test]
fn test_hash_api_key() {
    let key = "frx_sk_test123";
    let hash = hash_api_key(key);
    assert_eq!(hash.len(), 64);
    assert_ne!(hash, key);
}

#[test]
fn test_redis_config_default() {
    let config = RedisPoolConfig::default();
    assert_eq!(config.url, "redis://127.0.0.1:6379");
    assert_eq!(config.pool_size, 10);
    assert_eq!(config.api_key_cache_ttl, 3600);
    assert_eq!(config.result_cache_ttl, 86400);
}

#[test]
fn redis_defaults_connect_within_five_seconds() {
    let config = RedisPoolConfig::default();
    assert_eq!(config.connection_timeout, std::time::Duration::from_secs(5));
    assert_eq!(config.task_timeout_ms, 300000);
}

// Own tests.

#[test]
fn hash_of_known_input_is_the_sha256_hex_digest() {
    assert_eq!(sha256_hash("abc"), "ba7816bf8f01cfea414140de5dae2223b00361a396177a9cb410ff61f20015ad");
    assert_eq!(hash_key("abc"), sha256_hash("abc"));
}

#[test]
fn api_key_from_known_bytes_is_prefix_and_hex() {
    let key = api_key_from_bytes("frx_sk", &[0x00, 0xab, 0x10]);
    assert_eq!(key, "frx_sk_00ab10");
    assert!(validate_api_key_format(&generate_api_key("frx_sk"), "frx_sk"));
    assert_eq!(generate_api_key("frx_sk").len(), "frx_sk_".len() + 64);
}

#[test]
fn password_from_known_bytes_uses_the_charset() {
    assert_eq!(password_from_bytes(&[0, 1, 26, 52, 62, 69, 70]), "ABa0!*A");
    let p = generate_secure_password(24);
    assert_eq!(p.len(), 24);
}

#[test]
fn api_key_validity_at_given_times() {
    let mut key = record(Some(1_000));
    assert!(!key.is_expired_at(1_000));
    assert!(key.is_expired_at(1_001));
    assert!(key.is_valid_at(999));
    key.is_active = false;
    assert!(!key.is_valid_at(999));
}

#[test]
fn redis_fields_are_read_in_pairs_and_later_pairs_win() {
    let client = RedisClient::new(RedisPoolConfig::default());
    let items = vec![
        RedisValue::BulkString(b"priority".to_vec()),
        RedisValue::BulkString(b"7".to_vec()),
        RedisValue::Int(3),
        RedisValue::BulkString(b"ignored".to_vec()),
        RedisValue::BulkString(b"created_at".to_vec()),
        RedisValue::BulkString(b"now".to_vec()),
        RedisValue::BulkString(b"priority".to_vec()),
        RedisValue::BulkString(b"-12".to_vec()),
        RedisValue::BulkString(b"dangling".to_vec()),
    ];
    let fields: RedisFields = client.parse_fields(&items).unwrap();
    assert_eq!(client.get_field_as_i32(&fields, "priority").unwrap(), -12);
    assert_eq!(client.get_field_as_string(&fields, "created_at").unwrap(), "now");
    assert!(matches!(client.get_field_as_string(&fields, "dangling"), Err(RedisError::EntryNotFound)));
    assert!(matches!(client.get_field_as_string(&fields, "ignored"), Err(RedisError::EntryNotFound)));
}

#[test]
fn redis_field_that_is_not_an_integer_is_refused() {
    let client = RedisClient::new(RedisPoolConfig::default());
    let items = vec![RedisValue::BulkString(b"priority".to_vec()), RedisValue::BulkString(b"high".to_vec())];
    let fields = client.parse_fields(&items).unwrap();
    assert!(matches!(client.get_field_as_i32(&fields, "priority"), Err(RedisError::EntryNotFound)));
    let lossy = vec![RedisValue::BulkString(b"k".to_vec()), RedisValue::BulkString(vec![0x66, 0xff])];
    let fields = client.parse_fields(&lossy).unwrap();
    assert_eq!(client.get_field_as_string(&fields, "k").unwrap(), "f\u{FFFD}");
}

fn task_entry(fields: &[(&str, &str)]) -> Vec<RedisValue> {
    let mut items = Vec::new();
    for (k, v) in fields {
        items.push(RedisValue::BulkString(k.as_bytes().to_vec()));
        items.push(RedisValue::BulkString(v.as_bytes().to_vec()));
    }
    vec![RedisValue::BulkString(b"1700000000000-0".to_vec()), RedisValue::Array(items)]
}

const TASK_FIELDS: [(&str, &str); 7] = [
    ("task_id", "67e55044-10b1-426f-9247-bb680e5fe0c8"),
    ("model_id", "67e55044-10b1-426f-9247-bb680e5fe0c9"),
    ("user_id", "67e5504410b1426f9247bb680e5fe0ca"),
    ("api_key_id", "67e55044-10b1-426f-9247-bb680e5fe0cb"),
    ("priority", "2"),
    ("created_at", "2024-01-01T00:00:00Z"),
    ("inputs", "{\"x\": [1, 2]}"),
];

#[test]
fn redis_stream_entry_is_read_into_a_task() {
    let client = RedisClient::new(RedisPoolConfig::default());
    let entry = task_entry(&TASK_FIELDS);
    let task = client.parse_stream_entry("ferrinx:tasks:high", &entry).unwrap();
    assert_eq!(task.stream, "ferrinx:tasks:high");
    assert_eq!(task.entry_id, "1700000000000-0");
    assert_eq!(task.task_id.to_string(), "67e55044-10b1-426f-9247-bb680e5fe0c8");
    assert_eq!(task.model_id.to_string(), "67e55044-10b1-426f-9247-bb680e5fe0c9");
    assert_eq!(task.user_id.to_string(), "67e55044-10b1-426f-9247-bb680e5fe0ca");
    assert_eq!(task.api_key_id.to_string(), "67e55044-10b1-426f-9247-bb680e5fe0cb");
    assert_eq!(task.priority, 2);
    assert_eq!(task.created_at, "2024-01-01T00:00:00Z");
    assert_eq!(task.inputs, Some(serde_json::Value::Object({
        let mut m = serde_json::Map::new();
        m.insert("x".to_string(), serde_json::Value::Array(vec![1.into(), 2.into()]));
        m
    })));
}

#[test]
fn redis_stream_entry_without_json_inputs_keeps_no_inputs() {
    let client = RedisClient::new(RedisPoolConfig::default());
    let mut fields = TASK_FIELDS.to_vec();
    fields[6] = ("inputs", "not json");
    let task = client.parse_stream_entry("s", &task_entry(&fields)).unwrap();
    assert!(task.inputs.is_none());
    let task = client.parse_stream_entry("s", &task_entry(&fields[..6])).unwrap();
    assert!(task.inputs.is_none());
}

#[test]
fn redis_stream_entry_missing_or_bad_fields_is_refused() {
    let client = RedisClient::new(RedisPoolConfig::default());
    let mut bad_uuid = TASK_FIELDS.to_vec();
    bad_uuid[1] = ("model_id", "not-a-uuid");
    assert!(matches!(client.parse_stream_entry("s", &task_entry(&bad_uuid)), Err(RedisError::EntryNotFound)));
    let missing: Vec<(&str, &str)> = TASK_FIELDS.iter().copied().filter(|(k, _)| *k != "created_at").collect();
    assert!(matches!(client.parse_stream_entry("s", &task_entry(&missing)), Err(RedisError::EntryNotFound)));
    let short = vec![RedisValue::BulkString(b"1-0".to_vec())];
    assert!(matches!(client.parse_stream_entry("s", &short), Err(RedisError::EntryNotFound)));
    let not_a_list = vec![RedisValue::BulkString(b"1-0".to_vec()), RedisValue::Int(5)];
    assert!(matches!(client.parse_stream_entry("s", &not_a_list), Err(RedisError::EntryNotFound)));
}

fn entry_of(id: &str, fields: &[(String, String)]) -> Vec<RedisValue> {
    let mut items = Vec::new();
    for (k, v) in fields {
        items.push(RedisValue::BulkString(k.as_bytes().to_vec()));
        items.push(RedisValue::BulkString(v.as_bytes().to_vec()));
    }
    vec![RedisValue::BulkString(id.as_bytes().to_vec()), RedisValue::Array(items)]
}

#[test]
fn a_pushed_task_reads_back_from_its_stream() {
    let client = RedisClient::new(RedisPoolConfig::default());
    let mut t = task();
    t.id = generate_uuid();
    t.model_id = generate_uuid();
    t.user_id = generate_uuid();
    t.api_key_id = generate_uuid();
    t.priority = -42;
    t.created_at = 1_700_000_000_123;
    let (stream, fields) = client.task_stream_entry(&t);
    assert_eq!(stream, "ferrinx:tasks:high");
    assert_eq!(fields[4], ("priority".to_string(), "-42".to_string()));
    assert_eq!(fields[5].1, "2023-11-14T22:13:20.123+00:00");
    assert_eq!(fields[6].1, "{}");
    let read = client.parse_stream_entry(stream, &entry_of("5-1", &fields)).unwrap();
    assert_eq!(read.stream, "ferrinx:tasks:high");
    assert_eq!(read.entry_id, "5-1");
    assert_eq!(read.task_id, t.id);
    assert_eq!(read.model_id, t.model_id);
    assert_eq!(read.user_id, t.user_id);
    assert_eq!(read.api_key_id, t.api_key_id);
    assert_eq!(read.priority, -42);
    assert_eq!(read.created_at, "2023-11-14T22:13:20.123+00:00");
    assert_eq!(read.inputs, Some(serde_json::Value::Object(serde_json::Map::new())));
}

#[test]
fn tasks_go_to_the_stream_of_their_priority() {
    let client = RedisClient::new(RedisPoolConfig::default());
    let mut t = task();
    t.priority = 2;
    assert_eq!(client.task_stream_entry(&t).0, "ferrinx:tasks:low");
    t.priority = 5;
    assert_eq!(client.task_stream_entry(&t).0, "ferrinx:tasks:normal");
    t.priority = 10;
    assert_eq!(client.task_stream_entry(&t).0, "ferrinx:tasks:high");
}

#[test]
fn a_group_read_reply_gives_the_entry_of_its_stream() {
    let client = RedisClient::new(RedisPoolConfig::default());
    let fields: Vec<(String, String)> = TASK_FIELDS.iter().map(|(k, v)| (k.to_string(), v.to_string())).collect();
    let entry = RedisValue::Array(entry_of("9-0", &fields));
    let other = RedisValue::Array(vec![
        RedisValue::BulkString(b"ferrinx:tasks:low".to_vec()),
        RedisValue::Array(vec![RedisValue::Array(entry_of("1-0", &fields))]),
    ]);
    let ours = RedisValue::Array(vec![
        RedisValue::BulkString(b"ferrinx:tasks:normal".to_vec()),
        RedisValue::Array(vec![entry]),
    ]);
    let reply = RedisValue::Array(vec![RedisValue::Int(1), other, ours]);
    let task = client.read_from_stream("ferrinx:tasks:normal", &reply).unwrap().unwrap();
    assert_eq!(task.entry_id, "9-0");
    assert_eq!(task.stream, "ferrinx:tasks:normal");
    assert!(client.read_from_stream("ferrinx:tasks:normal", &RedisValue::Nil).unwrap().is_none());
    let empty = RedisValue::Array(vec![RedisValue::Array(vec![
        RedisValue::BulkString(b"ferrinx:tasks:normal".to_vec()),
        RedisValue::Array(vec![]),
    ])]);
    assert!(client.read_from_stream("ferrinx:tasks:normal", &empty).unwrap().is_none());
    let broken = RedisValue::Array(vec![RedisValue::Array(vec![
        RedisValue::BulkString(b"ferrinx:tasks:normal".to_vec()),
        RedisValue::Array(vec![RedisValue::Array(vec![RedisValue::BulkString(b"2-0".to_vec())])]),
    ])]);
    assert!(matches!(client.read_from_stream("ferrinx:tasks:normal", &broken), Err(RedisError::EntryNotFound)));
}

#[test]
fn pending_replies_name_entry_ids_and_claimed_entries_read_into_tasks() {
    let client = RedisClient::new(RedisPoolConfig::default());
    let pending = vec![
        RedisValue::Array(vec![RedisValue::BulkString(b"1-0".to_vec()), RedisValue::BulkString(b"worker".to_vec())]),
        RedisValue::Int(4),
        RedisValue::Array(vec![]),
        RedisValue::Array(vec![RedisValue::BulkString(b"2-0".to_vec())]),
    ];
    assert_eq!(client.pending_entry_ids(&pending), vec!["1-0".to_string(), "2-0".to_string()]);
    let fields: Vec<(String, String)> = TASK_FIELDS.iter().map(|(k, v)| (k.to_string(), v.to_string())).collect();
    let claimed = vec![
        entry_of("1-0", &fields),
        vec![RedisValue::BulkString(b"x".to_vec())],
        entry_of("2-0", &fields[..3]),
        entry_of("3-0", &fields),
    ];
    let tasks = client.claimed_tasks("ferrinx:tasks:low", &claimed);
    assert_eq!(tasks.len(), 2);
    assert_eq!(tasks[0].entry_id, "1-0");
    assert_eq!(tasks[1].entry_id, "3-0");
    assert_eq!(tasks[1].stream, "ferrinx:tasks:low");
}

#[test]
fn test_task_message_extraction() {
    let id = generate_uuid().to_string();
    let model = generate_uuid().to_string();
    assert!(parse_uuid(&id).is_ok());
    assert_eq!(parse_uuid(&id).unwrap().to_string(), id);
    assert!(parse_uuid(&model).is_ok());
}

#[test]
fn cache_keys_carry_their_prefix() {
    let hash = hash_api_key("frx_sk_example");
    assert_eq!(api_key_store_key(&hash), format!("ferrinx:api_keys:{}", hash));
    let id = Uuid::parse_str("67e55044-10b1-426f-9247-bb680e5fe0c8").unwrap();
    assert_eq!(result_cache_key(&id), "ferrinx:results:67e55044-10b1-426f-9247-bb680e5fe0c8");
}

#[test]
fn generated_api_keys_pass_validation() {
    for prefix in ["frx_sk", "frx_sk_temp", "", "ключ"] {
        let key = generate_api_key(prefix);
        assert!(validate_api_key_format(&key, prefix));
    }
}

#[test]
fn utf8_fields_are_read_as_their_text() {
    let client = RedisClient::new(RedisPoolConfig::default());
    let items = vec![
        RedisValue::BulkString("名前".as_bytes().to_vec()),
        RedisValue::BulkString("モデル✓".as_bytes().to_vec()),
    ];
    let fields = client.parse_fields(&items).unwrap();
    assert_eq!(client.get_field_as_string(&fields, "名前").unwrap(), "モデル✓");
}
