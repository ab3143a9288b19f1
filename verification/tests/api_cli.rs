use ferrinx::api::{
    check_permission, check_upload_form, check_user_deletion, default_priority, default_timeout, format_config,
    get_rate_limit, is_public_path, mask_secrets, model_exists_error, rate_limit_key, resolve_image_model,
    role_from_name, task_priority_value, ApiError, ErrorCode, HttpMethod, ImageInferRequest, ModelReference,
};
use ferrinx::cli::{
    default_api_url, model_list_path, plan_inference, resolve_model_source, task_list_path, CliConfig, CliError,
    InferPlan, ModelConfigFacts, ModelSourceCommand, OutputFormat,
};
use ferrinx::config::Config;
use ferrinx::errors::CoreError;
use ferrinx::ratelimit::RateLimiter;
use ferrinx::types::{ApiKeyInfo, Permissions, UserRole};
use uuid::Uuid;

fn create_test_api_key(admin: bool, can_delete: bool, can_execute: bool) -> ApiKeyInfo {
    let mut perms = Permissions::default();
    perms.admin = admin;
    if can_delete {
        perms.models.push("delete".to_string());
    }
    if can_execute {
        perms.inference.push("execute".to_string());
    }
    ApiKeyInfo {
        id: Uuid::nil(),
        user_id: Uuid::nil(),
        name: "test".to_string(),
        permissions: perms,
        is_active: true,
        is_temporary: false,
        expires_at: None,
    }
}

#[test]
fn test_is_public_path() {
    assert!(is_public_path("/api/v1/health"));
    assert!(is_public_path("/api/v1/ready"));
    assert!(is_public_path("/api/v1/bootstrap"));
    assert!(is_public_path("/api/v1/auth/login"));
    assert!(is_public_path("/api/v1/metrics"));
    assert!(!is_public_path("/api/v1/models"));
    assert!(!is_public_path("/api/v1/inference"));
    assert!(!is_public_path("/api/v1/admin/users"));
}

#[test]
fn test_check_permission_admin() {
    let api_key = create_test_api_key(true, false, false);
    assert!(check_permission(&api_key, "/api/v1/models", HttpMethod::Get));
    assert!(check_permission(&api_key, "/api/v1/models/123", HttpMethod::Delete));
    assert!(check_permission(&api_key, "/api/v1/inference", HttpMethod::Post));
    assert!(check_permission(&api_key, "/api/v1/admin/users", HttpMethod::Get));
}

#[test]
fn test_check_permission_non_admin_admin_path() {
    let api_key = create_test_api_key(false, true, true);
    assert!(!check_permission(&api_key, "/api/v1/admin/users", HttpMethod::Get));
}

#[test]
fn test_check_permission_delete_model() {
    let api_key_with_delete = create_test_api_key(false, true, false);
    let api_key_without_delete = create_test_api_key(false, false, false);

    assert!(check_permission(&api_key_with_delete, "/api/v1/models/123", HttpMethod::Delete));
    assert!(!check_permission(&api_key_without_delete, "/api/v1/models/123", HttpMethod::Delete));
}

#[test]
fn test_check_permission_inference() {
    let api_key_with_inference = create_test_api_key(false, false, true);
    let api_key_without_inference = create_test_api_key(false, false, false);

    assert!(check_permission(&api_key_with_inference, "/api/v1/inference", HttpMethod::Post));
    assert!(!check_permission(&api_key_without_inference, "/api/v1/inference", HttpMethod::Post));
}

#[test]
fn test_check_permission_read_models() {
    let api_key = create_test_api_key(false, false, false);
    assert!(check_permission(&api_key, "/api/v1/models", HttpMethod::Get));
    assert!(check_permission(&api_key, "/api/v1/models/123", HttpMethod::Get));
}

#[test]
fn test_check_permission_write_models() {
    let api_key = create_test_api_key(false, false, false);
    assert!(check_permission(&api_key, "/api/v1/models", HttpMethod::Post));
    assert!(check_permission(&api_key, "/api/v1/models/123", HttpMethod::Put));
}

#[test]
fn test_rate_limiter() {
    let mut limiter = RateLimiter::new(5, 60);
    let now = 1_000_000u64;

    for i in 0..5 {
        let result = limiter.check("test_key", 5, now);
        assert!(result, "Request {} should be allowed", i + 1);
    }

    let result = limiter.check("test_key", 5, now);
    assert!(!result, "Request 6 should be denied");
}

#[test]
fn cli_config_defaults() {
    let config = CliConfig::default();
    assert_eq!(config.api_url, "http://localhost:8080/api/v1");
    assert!(config.api_key.is_none());
    assert_eq!(config.timeout, 30);
    assert_eq!(config.output_format, OutputFormat::Table);
    assert!(config.verify_ssl);
}

// Own tests.

#[test]
fn rate_limits_are_per_key_and_windows_expire() {
    let mut limiter = RateLimiter::new(2, 60);
    assert!(limiter.check("a", 2, 100_000));
    assert!(limiter.check("a", 2, 100_000));
    assert!(!limiter.check("a", 2, 100_500));
    assert!(limiter.check("b", 2, 100_500));
    // Both requests of "a" leave the window at 160_000.
    assert!(!limiter.check("a", 2, 159_999));
    assert!(limiter.check("a", 2, 160_000));
}

#[test]
fn rate_limit_window_slides() {
    let mut limiter = RateLimiter::new(1, 60);
    let t0 = 1_000_000u64;
    assert!(limiter.check("k", 1, t0));
    assert!(!limiter.check("k", 1, t0 + 30_000));
    assert!(limiter.check("k", 1, t0 + 62_000));
    let mut limiter = RateLimiter::new(2, 60);
    assert!(limiter.check("k", 2, t0));
    assert!(limiter.check("k", 2, t0 + 40_000));
    assert!(!limiter.check("k", 2, t0 + 59_999));
    // The first request has left the window, the second has not.
    assert!(limiter.check("k", 2, t0 + 60_000));
    assert!(!limiter.check("k", 2, t0 + 99_999));
}

#[test]
fn rate_limit_by_path() {
    let config = Config::default_dev().rate_limit;
    assert_eq!(get_rate_limit("/api/v1/inference/sync", &config), config.sync_inference_rpm);
    assert_eq!(get_rate_limit("/api/v1/inference", &config), config.async_inference_rpm);
    assert_eq!(get_rate_limit("/api/v1/models", &config), config.default_rpm);
    assert_eq!(rate_limit_key(Some("k1"), Some("1.2.3.4")), "rate_limit:k1");
    assert_eq!(rate_limit_key(None, Some("1.2.3.4")), "rate_limit:ip:1.2.3.4");
    assert_eq!(rate_limit_key(None, None), "rate_limit:ip:unknown");
}

#[test]
fn error_answers_have_status_code_and_message() {
    let e = ApiError::PermissionDenied;
    assert_eq!(e.status_code(), 403);
    assert_eq!(e.error_code(), ErrorCode::PermissionDenied);
    let body = e.body();
    assert_eq!(body.code, "PERMISSION_DENIED");
    assert_eq!(body.message, "Permission denied");

    let e = ApiError::BadRequest("No file uploaded".to_string());
    assert_eq!(e.status_code(), 400);
    assert_eq!(e.to_string(), "Bad request: No file uploaded");
    assert_eq!(ApiError::InvalidCredentials.status_code(), 401);
    assert_eq!(ApiError::RateLimitExceeded.status_code(), 429);
    assert_eq!(ApiError::RedisUnavailable.error_code().as_str(), "SERVICE_UNAVAILABLE");
    let core = ApiError::CoreError(CoreError::InferenceTimeout);
    assert_eq!(core.status_code(), 500);
    assert_eq!(core.to_string(), "Core error: Inference timeout");
    let uuid_err = Uuid::parse_str("nope").unwrap_err();
    assert!(ApiError::UuidError(uuid_err).to_string().starts_with("UUID parse error: "));
    assert_eq!(ErrorCode::NoWorkerAvailable.as_str(), "NO_WORKER_AVAILABLE");
}

#[test]
fn secrets_are_masked() {
    assert_eq!(mask_secrets("api_key_secret", "abc"), "********");
    assert_eq!(mask_secrets("url", "postgres://user:pw@db:5432/x"), "***@db:5432/x");
    assert_eq!(mask_secrets("url", "a@b@c"), "***@c");
    assert_eq!(mask_secrets("url", "sqlite://./data.db"), "sqlite://./data.db");
    assert_eq!(mask_secrets("host", "x@y"), "x@y");
}

#[test]
fn startup_report_of_the_development_configuration() {
    let report = format_config(&Config::default_dev());
    let expected = "Loaded configuration:\n  Server:\n    host: 127.0.0.1\n    port: 8080\n  Database:\n    backend: Sqlite\n    url: sqlite://./data/ferrinx.db\n  Storage:\n    backend: Local\n    path: ./models\n  ONNX:\n    execution_provider: CPU\n  Auth:\n    api_key_secret: ********\n  Redis:\n    url: redis://127.0.0.1:6379";
    assert_eq!(report, expected);
}

#[test]
fn inference_request_defaults_and_priorities() {
    assert_eq!(default_priority(), "normal");
    assert_eq!(default_timeout(), 300);
    assert_eq!(task_priority_value("high"), 10);
    assert_eq!(task_priority_value("low"), 1);
    assert_eq!(task_priority_value("normal"), 5);
    assert_eq!(task_priority_value("HIGH"), 5);
}

#[test]
fn image_form_names_the_model() {
    let form = ImageInferRequest { model_id: Some("m".to_string()), name: Some("n".to_string()), version: None };
    assert!(matches!(resolve_image_model(form, true), Ok(ModelReference::ById(id)) if id == "m"));
    let form = ImageInferRequest { model_id: None, name: Some("n".to_string()), version: Some("1".to_string()) };
    assert!(matches!(resolve_image_model(form, true), Ok(ModelReference::ByNameVersion(n, v)) if n == "n" && v == "1"));
    let form = ImageInferRequest { model_id: None, name: Some("n".to_string()), version: None };
    assert!(matches!(resolve_image_model(form, true), Err(ApiError::BadRequest(m)) if m == "Either model_id or name+version is required"));
    let form = ImageInferRequest { model_id: Some("m".to_string()), name: None, version: None };
    assert!(matches!(resolve_image_model(form, false), Err(ApiError::BadRequest(m)) if m == "No image uploaded"));
}

#[test]
fn upload_form_and_user_rules() {
    assert!(matches!(check_upload_form("", "1", true), Err(ApiError::BadRequest(m)) if m == "Missing name or version"));
    assert!(matches!(check_upload_form("n", "1", false), Err(ApiError::BadRequest(m)) if m == "No file uploaded"));
    assert!(check_upload_form("n", "1", true).is_ok());
    assert_eq!(model_exists_error("resnet", "1.0").to_string(), "Bad request: Model resnet:1.0 already exists");
    assert_eq!(role_from_name(Some("admin")), UserRole::Admin);
    assert_eq!(role_from_name(Some("Admin")), UserRole::User);
    assert_eq!(role_from_name(None), UserRole::User);
    assert!(check_user_deletion(UserRole::Admin, 1).is_err());
    assert!(check_user_deletion(UserRole::Admin, 2).is_ok());
    assert!(check_user_deletion(UserRole::User, 0).is_ok());
}

#[test]
fn cli_config_set_edits_one_value() {
    let mut config = CliConfig::default();
    config.set("api_url", "http://example:9000").unwrap();
    assert_eq!(config.api_url, "http://example:9000");
    config.set("api_key", "frx_sk_1").unwrap();
    assert_eq!(config.api_key.as_deref(), Some("frx_sk_1"));
    config.set("timeout", "45").unwrap();
    assert_eq!(config.timeout, 45);
    config.set("output_format", "JSON").unwrap();
    assert_eq!(config.output_format, OutputFormat::Json);
    config.set("verify_ssl", "false").unwrap();
    assert!(!config.verify_ssl);

    match config.set("timeout", "soon") {
        Err(CliError::InvalidInput(m)) => assert_eq!(m, "Invalid timeout value: soon"),
        _ => panic!("expected an input error"),
    }
    match config.set("output_format", "xml") {
        Err(CliError::InvalidInput(m)) => assert_eq!(m, "Invalid output format: xml"),
        _ => panic!("expected an input error"),
    }
    match config.set("verify_ssl", "yes") {
        Err(CliError::InvalidInput(m)) => assert_eq!(m, "Invalid boolean value: yes"),
        _ => panic!("expected an input error"),
    }
    match config.set("colour", "red") {
        Err(e) => assert_eq!(e.to_string(), "Invalid input: Unknown configuration key: colour"),
        _ => panic!("expected an input error"),
    }
    assert_eq!(config.timeout, 45);
    assert_eq!(default_api_url(), "http://localhost:8080/api/v1");
    assert_eq!(OutputFormat::Toml.as_str(), "toml");
}

fn facts(file: Option<&str>, name: Option<&str>, version: Option<&str>) -> Option<Result<ModelConfigFacts, String>> {
    Some(Ok(ModelConfigFacts {
        model_file: file.map(|s| s.to_string()),
        meta_name: name.map(|s| s.to_string()),
        meta_version: version.map(|s| s.to_string()),
    }))
}

#[test]
fn model_source_comes_from_arguments_then_config() {
    let s = resolve_model_source(ModelSourceCommand::Upload, Some("m.onnx".to_string()), Some("n".to_string()),
        Some("1".to_string()), &None).unwrap();
    assert_eq!((s.path.as_str(), s.name.as_str(), s.version.as_str()), ("m.onnx", "n", "1"));

    let s = resolve_model_source(ModelSourceCommand::Upload, None, Some("cli".to_string()), None,
        &facts(Some("dir/m.onnx"), Some("cfg"), Some("2"))).unwrap();
    assert_eq!((s.path.as_str(), s.name.as_str(), s.version.as_str()), ("dir/m.onnx", "cli", "2"));

    match resolve_model_source(ModelSourceCommand::Register, None, None, None, &None) {
        Err(CliError::Config(m)) => assert_eq!(m, "Either server_path or --model-config must be provided"),
        _ => panic!("expected a configuration error"),
    }
    match resolve_model_source(ModelSourceCommand::Upload, None, None, None, &facts(None, Some("n"), Some("1"))) {
        Err(CliError::Config(m)) => assert_eq!(m, "model.file not specified in config"),
        _ => panic!("expected a configuration error"),
    }
    match resolve_model_source(ModelSourceCommand::Upload, Some("p".to_string()), None, None, &facts(None, Some(""), Some("1"))) {
        Err(CliError::Config(m)) => assert_eq!(m, "meta.name not specified in config"),
        _ => panic!("expected a configuration error"),
    }
    match resolve_model_source(ModelSourceCommand::Upload, Some("p".to_string()), Some("n".to_string()), None, &None) {
        Err(e) => assert_eq!(e.to_string(), "Configuration error: Either --version or --model-config must be provided"),
        _ => panic!("expected a configuration error"),
    }
    match resolve_model_source(ModelSourceCommand::Upload, None, None, None, &Some(Err("bad".to_string()))) {
        Err(CliError::Config(m)) => assert_eq!(m, "Invalid config TOML: bad"),
        _ => panic!("expected a configuration error"),
    }
}

#[test]
fn inference_plans() {
    let s = |v: &str| Some(v.to_string());
    match plan_inference(s("id"), None, None, s("{}"), s("cat.png")) {
        Ok(InferPlan::Image { image_path, model: ModelReference::ById(id) }) => {
            assert_eq!(image_path, "cat.png");
            assert_eq!(id, "id");
        },
        _ => panic!("expected an image plan"),
    }
    match plan_inference(None, s("n"), s("1"), s("{}"), None) {
        Ok(InferPlan::Input { input, model: ModelReference::ByNameVersion(n, v) }) => {
            assert_eq!((input.as_str(), n.as_str(), v.as_str()), ("{}", "n", "1"));
        },
        _ => panic!("expected an input plan"),
    }
    assert!(matches!(plan_inference(None, s("n"), None, None, s("x.png")),
        Err(CliError::InvalidInput(m)) if m == "Either model_id or name+version is required"));
    assert!(matches!(plan_inference(None, None, None, s("{}"), None),
        Err(CliError::InvalidInput(m)) if m == "Model name is required"));
    assert!(matches!(plan_inference(None, s("n"), None, s("{}"), None),
        Err(CliError::InvalidInput(m)) if m == "Model version is required"));
    assert!(matches!(plan_inference(s("id"), None, None, None, None),
        Err(CliError::InvalidInput(m)) if m == "Either --input or --image is required"));
}

#[test]
fn request_paths() {
    assert_eq!(task_list_path(None, None), "/inference");
    assert_eq!(task_list_path(Some("pending"), None), "/inference?status=pending");
    assert_eq!(task_list_path(None, Some(20)), "/inference?limit=20");
    assert_eq!(task_list_path(Some("failed"), Some(5)), "/inference?status=failed&limit=5");
    assert_eq!(model_list_path(Some("resnet")), "/models?name=resnet");
    assert_eq!(model_list_path(None), "/models");
}

#[test]
fn test_cli_error_display() {
    let error = CliError::ApiError { code: "TEST_ERROR".to_string(), message: "Test error message".to_string() };
    let display = error.to_string();
    assert!(display.contains("TEST_ERROR"));
    assert!(display.contains("Test error message"));
}

#[test]
fn test_cli_http_error() {
    let error = CliError::HttpError { status: 404, message: "Not Found".to_string() };
    let display = error.to_string();
    assert!(display.contains("404"));
    assert!(display.contains("Not Found"));
}

#[test]
fn http_errors_are_described() {
    let e = CliError::HttpError { status: 404, message: "missing".to_string() };
    assert_eq!(e.to_string(), "HTTP error 404: missing");
    let e = CliError::ApiError { code: "INVALID_INPUT".to_string(), message: "bad".to_string() };
    assert_eq!(e.to_string(), "API error [INVALID_INPUT]: bad");
    assert_eq!(CliError::AuthRequired.to_string(), "Authentication required");
}

#[test]
fn config_keys_may_be_written_with_hyphens() {
    let mut config = CliConfig::default();
    config.set("api-url", "http://localhost:8080/api/v1").unwrap();
    assert_eq!(config.api_url, "http://localhost:8080/api/v1");
    config.set("api-key", "frx_sk_abc").unwrap();
    assert_eq!(config.api_key, Some("frx_sk_abc".to_string()));
    config.set("output-format", "toml").unwrap();
    assert_eq!(config.output_format, OutputFormat::Toml);
    config.set("verify-ssl", "false").unwrap();
    assert!(!config.verify_ssl);
    assert!(config.set("api url", "x").is_err());
}

#[test]
fn error_answer_bodies_carry_the_message_of_every_error() {
    let json_err = serde_json::from_str::<serde_json::Value>("{").unwrap_err();
    let text = json_err.to_string();
    let e = ApiError::JsonError(json_err);
    assert_eq!(e.body().message, format!("JSON error: {}", text));
    assert_eq!(e.body().message, e.to_string());
    let io = std::io::Error::new(std::io::ErrorKind::Other, "disk gone");
    let e = ApiError::CoreError(CoreError::IoError(io));
    assert_eq!(e.body().message, "Core error: IO error: disk gone");
    let e = ApiError::CoreError(CoreError::StorageError(ferrinx::errors::StorageError::FileNotFound("m.onnx".to_string())));
    assert_eq!(e.body().message, "Core error: Storage error: File not found: m.onnx");
}

#[test]
fn shared_error_code_names_are_distinct() {
    let codes = [
        ferrinx::constants::ErrorCode::InvalidApiKey,
        ferrinx::constants::ErrorCode::PermissionDenied,
        ferrinx::constants::ErrorCode::BootstrapDisabled,
        ferrinx::constants::ErrorCode::ModelNotFound,
        ferrinx::constants::ErrorCode::TaskNotFound,
        ferrinx::constants::ErrorCode::UserNotFound,
        ferrinx::constants::ErrorCode::ApiKeyNotFound,
        ferrinx::constants::ErrorCode::InvalidInput,
        ferrinx::constants::ErrorCode::InvalidModelFormat,
        ferrinx::constants::ErrorCode::ModelAlreadyExists,
        ferrinx::constants::ErrorCode::ModelNotValid,
        ferrinx::constants::ErrorCode::TaskNotCancellable,
        ferrinx::constants::ErrorCode::InferenceFailed,
        ferrinx::constants::ErrorCode::InternalError,
        ferrinx::constants::ErrorCode::InferenceTimeout,
        ferrinx::constants::ErrorCode::ServiceUnavailable,
        ferrinx::constants::ErrorCode::RedisUnavailable,
        ferrinx::constants::ErrorCode::RateLimitExceeded,
    ];
    for (i, a) in codes.iter().enumerate() {
        for (j, b) in codes.iter().enumerate() {
            assert_eq!(i == j, a.as_str() == b.as_str());
        }
    }
    assert_eq!(ferrinx::constants::ErrorCode::BootstrapDisabled.as_str(), "BOOTSTRAP_DISABLED");
}
