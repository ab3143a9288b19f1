use ferrinx::api::{
    authenticate, bearer_token, check_bootstrap_allowed, check_cancellable, check_task_access, generate_session_key,
    key_from_record, session_permissions, usable_cached_key, ApiError,
};
use ferrinx::dto::{ApiKeyDetail, ModelDetail, TaskDetail, UserDetail};
use ferrinx::types::{ApiKeyInfo, ApiKeyRecord, InferenceTask, ModelInfo, Permissions, TaskStatus, User, UserRole};
use ferrinx::utils::hash_password;
use uuid::Uuid;

const T0: i64 = 1_700_000_000_000;

fn user(active: bool, password: &str) -> User {
    User {
        id: Uuid::nil(),
        username: "alice".to_string(),
        password_hash: hash_password(password).unwrap(),
        role: UserRole::Admin,
        is_active: active,
        created_at: T0,
        updated_at: T0,
    }
}

#[test]
fn login_needs_an_active_user_and_the_right_password() {
    let u = user(true, "s3cret");
    assert!(authenticate(Some(&u), "s3cret").is_ok());
    assert!(matches!(authenticate(Some(&u), "wrong"), Err(ApiError::InvalidCredentials)));
    assert!(matches!(authenticate(None, "s3cret"), Err(ApiError::InvalidCredentials)));
    let inactive = user(false, "s3cret");
    assert!(matches!(authenticate(Some(&inactive), "s3cret"), Err(ApiError::InvalidCredentials)));
    let mut broken = user(true, "s3cret");
    broken.password_hash = "not a hash".to_string();
    assert!(matches!(authenticate(Some(&broken), "s3cret"), Err(ApiError::InvalidCredentials)));
}

#[test]
fn bearer_tokens() {
    assert_eq!(bearer_token(Some("Bearer frx_sk_1")).unwrap(), "frx_sk_1");
    assert!(matches!(bearer_token(Some("Basic abc")), Err(ApiError::InvalidApiKeyFormat)));
    assert!(matches!(bearer_token(None), Err(ApiError::MissingApiKey)));
}

#[test]
fn sessions_and_bootstrap() {
    assert!(session_permissions(UserRole::Admin).admin);
    let p = session_permissions(UserRole::User);
    assert!(!p.admin && p.can_read_models() && p.can_execute_inference() && !p.can_write_models());
    let k = generate_session_key();
    assert_eq!(k.len(), 64);
    assert!(k.chars().all(|c| c.is_ascii_hexdigit() && !c.is_ascii_uppercase()));
    assert_ne!(generate_session_key(), k);
    assert!(check_bootstrap_allowed(false).is_ok());
    assert!(matches!(check_bootstrap_allowed(true), Err(ApiError::BadRequest(m)) if m == "System already initialized"));
}

#[test]
fn tasks_are_for_their_owner_or_an_administrator() {
    let owner = Uuid::from_u128(7);
    let key = |user_id: Uuid, admin: bool| {
        let mut permissions = Permissions::default();
        permissions.admin = admin;
        ApiKeyInfo {
            id: Uuid::nil(),
            user_id,
            name: "k".to_string(),
            permissions,
            is_active: true,
            is_temporary: false,
            expires_at: None,
        }
    };
    assert!(check_task_access(&owner, &key(owner, false)).is_ok());
    assert!(matches!(check_task_access(&owner, &key(Uuid::from_u128(8), false)), Err(ApiError::PermissionDenied)));
    assert!(check_task_access(&owner, &key(Uuid::from_u128(8), true)).is_ok());
    assert!(check_cancellable(TaskStatus::Pending).is_ok());
    assert!(matches!(check_cancellable(TaskStatus::Running), Err(ApiError::TaskNotCancellable)));
}

#[test]
fn records_are_shown_with_text_ids_and_times() {
    let key = ApiKeyRecord {
        id: Uuid::from_u128(0x550e8400_e29b_41d4_a716_446655440000),
        user_id: Uuid::nil(),
        key_hash: "h".to_string(),
        name: "ci".to_string(),
        permissions: Permissions::default(),
        is_active: true,
        is_temporary: false,
        last_used_at: None,
        expires_at: Some(0),
        created_at: 0,
        updated_at: 0,
    };
    let d = ApiKeyDetail::from_record(key);
    assert_eq!(d.id, "550e8400-e29b-41d4-a716-446655440000");
    assert_eq!(d.created_at, "1970-01-01T00:00:00+00:00");
    assert_eq!(d.expires_at.as_deref(), Some("1970-01-01T00:00:00+00:00"));
    assert!(d.last_used_at.is_none());

    let u = UserDetail::from_user(User {
        id: Uuid::nil(),
        username: "bob".to_string(),
        password_hash: "x".to_string(),
        role: UserRole::User,
        is_active: true,
        created_at: 0,
        updated_at: 0,
    });
    assert_eq!(u.role, "user");
    assert_eq!(u.id, "00000000-0000-0000-0000-000000000000");
}

#[test]
fn models_and_tasks_are_shown_with_their_state() {
    let m = ModelDetail::from_model(ModelInfo {
        id: Uuid::nil(),
        name: "resnet".to_string(),
        version: "1.0".to_string(),
        file_path: "/m.onnx".to_string(),
        file_size: Some(3),
        storage_backend: "local".to_string(),
        input_shapes: Some(serde_json::Value::Array(Vec::new())),
        output_shapes: None,
        metadata: None,
        created_at: 0,
        updated_at: 0,
    });
    assert!(!m.is_valid);
    assert_eq!(m.validation_error.as_deref(), Some("Missing preprocessing config"));

    let t = TaskDetail::from_task(InferenceTask {
        id: Uuid::nil(),
        model_id: Uuid::nil(),
        user_id: Uuid::nil(),
        api_key_id: Uuid::nil(),
        status: TaskStatus::Completed,
        inputs: serde_json::Value::Null,
        outputs: Some(serde_json::Value::Array(Vec::new())),
        error_message: None,
        priority: 5,
        retry_count: 0,
        created_at: T0,
        started_at: Some(T0),
        completed_at: Some(T0 + 250),
    });
    assert_eq!(t.status, "completed");
    assert_eq!(t.latency_ms, Some(250));
    assert!(t.outputs.is_none());
    assert!(t.completed_at.is_some());
}

#[test]
fn keys_are_taken_from_the_cache_or_the_store_while_valid() {
    let info = ApiKeyInfo {
        id: Uuid::nil(),
        user_id: Uuid::nil(),
        name: "k".to_string(),
        permissions: Permissions::default(),
        is_active: true,
        is_temporary: true,
        expires_at: Some(T0),
    };
    assert!(usable_cached_key(Some(info.clone()), T0).is_some());
    assert!(usable_cached_key(Some(info), T0 + 1).is_none());
    assert!(usable_cached_key(None, T0).is_none());

    let record = ApiKeyRecord {
        id: Uuid::from_u128(3),
        user_id: Uuid::from_u128(4),
        key_hash: "h".to_string(),
        name: "stored".to_string(),
        permissions: Permissions::user_default(),
        is_active: true,
        is_temporary: false,
        last_used_at: None,
        expires_at: None,
        created_at: T0,
        updated_at: T0,
    };
    let found = key_from_record(Some(record.clone()), T0).unwrap();
    assert_eq!(found.id, Uuid::from_u128(3));
    assert_eq!(found.name, "stored");
    let mut inactive = record;
    inactive.is_active = false;
    assert!(matches!(key_from_record(Some(inactive), T0), Err(ApiError::InvalidApiKey)));
    assert!(matches!(key_from_record(None, T0), Err(ApiError::InvalidApiKey)));
}
