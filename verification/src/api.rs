//! The rules of the HTTP API: error answers, which paths need no key, what a
//! key may do on a path, which rate limit a path falls under, and the
//! checks of request bodies and forms before any work is done.
use vstd::prelude::*;
use vstd::string::*;
use uuid::Uuid;
use crate::config::{Config, DatabaseBackend, ExecutionProvider, RateLimitConfig, StorageBackend};
use crate::errors::{CoreError, StorageError, core_error_message, core_error_text, storage_error_message, storage_error_text};
use crate::text::{
    after_last, decimal_of, seq_contains_seq, seq_starts_with, str_after_last, str_contains,
    str_contains_char, str_eq, str_starts_with, str_trim_end, string_of, strings_view, trim_end, u64_to_decimal,
};
use crate::types::{ApiKeyInfo, ApiKeyRecord, Permissions, TaskStatus, User, UserRole, expired_at, grants};
use crate::utils::{bcrypt_verdict, hex_lower, random_bytes, to_hex_lower, verify_password};

verus! {

#[verifier::external_type_specification]
#[verifier::external_body]
pub struct ExUuidError(uuid::Error);

/// The machine-readable code of an error answer.
#[derive(Debug, Clone, Copy, PartialEq, Eq, Structural)]
pub enum ErrorCode {
    InvalidApiKey,
    PermissionDenied,
    ModelNotFound,
    TaskNotFound,
    UserNotFound,
    InvalidInput,
    RateLimitExceeded,
    ServiceUnavailable,
    NoWorkerAvailable,
    InternalError,
}

pub open spec fn error_code_text(c: ErrorCode) -> Seq<char> {
    match c {
        ErrorCode::InvalidApiKey => "INVALID_API_KEY"@,
        ErrorCode::PermissionDenied => "PERMISSION_DENIED"@,
        ErrorCode::ModelNotFound => "MODEL_NOT_FOUND"@,
        ErrorCode::TaskNotFound => "TASK_NOT_FOUND"@,
        ErrorCode::UserNotFound => "USER_NOT_FOUND"@,
        ErrorCode::InvalidInput => "INVALID_INPUT"@,
        ErrorCode::RateLimitExceeded => "RATE_LIMIT_EXCEEDED"@,
        ErrorCode::ServiceUnavailable => "SERVICE_UNAVAILABLE"@,
        ErrorCode::NoWorkerAvailable => "NO_WORKER_AVAILABLE"@,
        ErrorCode::InternalError => "INTERNAL_ERROR"@,
    }
}

impl ErrorCode {
    /// The code as it appears in an error answer.
    pub fn as_str(&self) -> (s: &'static str)
        ensures
            s@ == error_code_text(*self),
    {
        proof {
            reveal_strlit("INVALID_API_KEY");
            reveal_strlit("PERMISSION_DENIED");
            reveal_strlit("MODEL_NOT_FOUND");
            reveal_strlit("TASK_NOT_FOUND");
            reveal_strlit("USER_NOT_FOUND");
            reveal_strlit("INVALID_INPUT");
            reveal_strlit("RATE_LIMIT_EXCEEDED");
            reveal_strlit("SERVICE_UNAVAILABLE");
            reveal_strlit("NO_WORKER_AVAILABLE");
            reveal_strlit("INTERNAL_ERROR");
        }
        match self {
            ErrorCode::InvalidApiKey => "INVALID_API_KEY",
            ErrorCode::PermissionDenied => "PERMISSION_DENIED",
            ErrorCode::ModelNotFound => "MODEL_NOT_FOUND",
            ErrorCode::TaskNotFound => "TASK_NOT_FOUND",
            ErrorCode::UserNotFound => "USER_NOT_FOUND",
            ErrorCode::InvalidInput => "INVALID_INPUT",
            ErrorCode::RateLimitExceeded => "RATE_LIMIT_EXCEEDED",
            ErrorCode::ServiceUnavailable => "SERVICE_UNAVAILABLE",
            ErrorCode::NoWorkerAvailable => "NO_WORKER_AVAILABLE",
            ErrorCode::InternalError => "INTERNAL_ERROR",
        }
    }
}

/// The error part of an error answer.
#[derive(Debug, Clone)]
pub struct ApiErrorBody {
    pub code: String,
    pub message: String,
}

/// The ways a request fails.
#[derive(Debug)]
pub enum ApiError {
    InvalidApiKey,
    MissingApiKey,
    InvalidApiKeyFormat,
    PermissionDenied,
    ModelNotFound,
    ModelNotValid,
    TaskNotFound,
    TaskNotCancellable,
    RateLimitExceeded,
    RedisUnavailable,
    UserNotFound,
    UserAlreadyExists,
    InvalidCredentials,
    ApiKeyLimitExceeded,
    /// A failure of the database, by its message.
    DatabaseError(String),
    CoreError(CoreError),
    StorageError(StorageError),
    BadRequest(String),
    InternalError,
    JsonError(serde_json::Error),
    UuidError(uuid::Error),
    /// A failure of the task queue, by its message.
    RedisError(String),
}

/// The HTTP status of an error answer.
pub open spec fn api_error_status(e: ApiError) -> u16 {
    match e {
        ApiError::InvalidApiKey | ApiError::MissingApiKey | ApiError::InvalidApiKeyFormat
        | ApiError::InvalidCredentials => 401,
        ApiError::PermissionDenied => 403,
        ApiError::ModelNotFound | ApiError::TaskNotFound | ApiError::UserNotFound => 404,
        ApiError::ModelNotValid | ApiError::TaskNotCancellable | ApiError::BadRequest(_)
        | ApiError::UserAlreadyExists | ApiError::ApiKeyLimitExceeded => 400,
        ApiError::RateLimitExceeded => 429,
        ApiError::RedisUnavailable => 503,
        _ => 500,
    }
}

/// The code of an error answer.
pub open spec fn api_error_code(e: ApiError) -> ErrorCode {
    match e {
        ApiError::InvalidApiKey | ApiError::MissingApiKey | ApiError::InvalidApiKeyFormat
        | ApiError::InvalidCredentials => ErrorCode::InvalidApiKey,
        ApiError::PermissionDenied => ErrorCode::PermissionDenied,
        ApiError::ModelNotFound => ErrorCode::ModelNotFound,
        ApiError::TaskNotFound => ErrorCode::TaskNotFound,
        ApiError::UserNotFound => ErrorCode::UserNotFound,
        ApiError::ModelNotValid | ApiError::TaskNotCancellable | ApiError::BadRequest(_)
        | ApiError::UserAlreadyExists | ApiError::ApiKeyLimitExceeded => ErrorCode::InvalidInput,
        ApiError::RateLimitExceeded => ErrorCode::RateLimitExceeded,
        ApiError::RedisUnavailable => ErrorCode::ServiceUnavailable,
        _ => ErrorCode::InternalError,
    }
}

/// The message of an error, where the library knows all of it.
pub open spec fn api_error_message(e: ApiError) -> Option<Seq<char>> {
    match e {
        ApiError::InvalidApiKey => Some("Invalid API key"@),
        ApiError::MissingApiKey => Some("Missing API key"@),
        ApiError::InvalidApiKeyFormat => Some("Invalid API key format"@),
        ApiError::PermissionDenied => Some("Permission denied"@),
        ApiError::ModelNotFound => Some("Model not found"@),
        ApiError::ModelNotValid => Some("Model not valid"@),
        ApiError::TaskNotFound => Some("Task not found"@),
        ApiError::TaskNotCancellable => Some("Task not cancellable"@),
        ApiError::RateLimitExceeded => Some("Rate limit exceeded"@),
        ApiError::RedisUnavailable => Some("Redis unavailable"@),
        ApiError::UserNotFound => Some("User not found"@),
        ApiError::UserAlreadyExists => Some("User already exists"@),
        ApiError::InvalidCredentials => Some("Invalid credentials"@),
        ApiError::ApiKeyLimitExceeded => Some("API key limit exceeded"@),
        ApiError::DatabaseError(m) => Some("Database error: "@ + m@),
        ApiError::CoreError(c) => match core_error_message(c) {
            Some(m) => Some("Core error: "@ + m),
            None => None,
        },
        ApiError::StorageError(e) => match storage_error_message(e) {
            Some(m) => Some("Storage error: "@ + m),
            None => None,
        },
        ApiError::BadRequest(m) => Some("Bad request: "@ + m@),
        ApiError::InternalError => Some("Internal server error"@),
        ApiError::RedisError(m) => Some("Redis error: "@ + m@),
        _ => None,
    }
}

/// Whether `s` is the message of an error answer, for every kind of error:
/// for an error of another library, or a core or storage error, a fixed
/// prefix and that error's own text.
pub open spec fn api_error_text(e: ApiError, s: Seq<char>) -> bool {
    match e {
        ApiError::JsonError(x) => exists|t: String|
            #[trigger] to_string_from_display_ensures::<serde_json::Error>(&x, t) && s == "JSON error: "@ + t@,
        ApiError::UuidError(x) => exists|t: String|
            #[trigger] to_string_from_display_ensures::<uuid::Error>(&x, t) && s == "UUID parse error: "@ + t@,
        ApiError::CoreError(x) => exists|t: Seq<char>| #[trigger] core_error_text(x, t) && s == "Core error: "@ + t,
        ApiError::StorageError(x) => exists|t: Seq<char>|
            #[trigger] storage_error_text(x, t) && s == "Storage error: "@ + t,
        _ => api_error_message(e) == Some(s),
    }
}

fn prefixed(prefix: &str, detail: &str) -> (s: String)
    ensures
        s@ == prefix@ + detail@,
{
    let mut s = prefix.to_owned();
    s.append(detail);
    s
}

impl ApiError {
    /// The HTTP status of the answer to this error.
    pub fn status_code(&self) -> (s: u16)
        ensures
            s == api_error_status(*self),
    {
        match self {
            ApiError::InvalidApiKey | ApiError::MissingApiKey | ApiError::InvalidApiKeyFormat
            | ApiError::InvalidCredentials => 401,
            ApiError::PermissionDenied => 403,
            ApiError::ModelNotFound | ApiError::TaskNotFound | ApiError::UserNotFound => 404,
            ApiError::ModelNotValid | ApiError::TaskNotCancellable | ApiError::BadRequest(_)
            | ApiError::UserAlreadyExists | ApiError::ApiKeyLimitExceeded => 400,
            ApiError::RateLimitExceeded => 429,
            ApiError::RedisUnavailable => 503,
            _ => 500,
        }
    }

    /// The code of the answer to this error.
    pub fn error_code(&self) -> (c: ErrorCode)
        ensures
            c == api_error_code(*self),
    {
        match self {
            ApiError::InvalidApiKey | ApiError::MissingApiKey | ApiError::InvalidApiKeyFormat
            | ApiError::InvalidCredentials => ErrorCode::InvalidApiKey,
            ApiError::PermissionDenied => ErrorCode::PermissionDenied,
            ApiError::ModelNotFound => ErrorCode::ModelNotFound,
            ApiError::TaskNotFound => ErrorCode::TaskNotFound,
            ApiError::UserNotFound => ErrorCode::UserNotFound,
            ApiError::ModelNotValid | ApiError::TaskNotCancellable | ApiError::BadRequest(_)
            | ApiError::UserAlreadyExists | ApiError::ApiKeyLimitExceeded => ErrorCode::InvalidInput,
            ApiError::RateLimitExceeded => ErrorCode::RateLimitExceeded,
            ApiError::RedisUnavailable => ErrorCode::ServiceUnavailable,
            _ => ErrorCode::InternalError,
        }
    }

    /// The message of the error. For an error of the JSON or UUID libraries
    /// it is a fixed prefix and that library's own message.
    pub fn to_string(&self) -> (s: String)
        ensures
            api_error_message(*self) matches Some(m) ==> s@ == m,
            api_error_text(*self, s@),
    {
        match self {
            ApiError::InvalidApiKey => string_of("Invalid API key"),
            ApiError::MissingApiKey => string_of("Missing API key"),
            ApiError::InvalidApiKeyFormat => string_of("Invalid API key format"),
            ApiError::PermissionDenied => string_of("Permission denied"),
            ApiError::ModelNotFound => string_of("Model not found"),
            ApiError::ModelNotValid => string_of("Model not valid"),
            ApiError::TaskNotFound => string_of("Task not found"),
            ApiError::TaskNotCancellable => string_of("Task not cancellable"),
            ApiError::RateLimitExceeded => string_of("Rate limit exceeded"),
            ApiError::RedisUnavailable => string_of("Redis unavailable"),
            ApiError::UserNotFound => string_of("User not found"),
            ApiError::UserAlreadyExists => string_of("User already exists"),
            ApiError::InvalidCredentials => string_of("Invalid credentials"),
            ApiError::ApiKeyLimitExceeded => string_of("API key limit exceeded"),
            ApiError::DatabaseError(m) => prefixed("Database error: ", m.as_str()),
            ApiError::CoreError(c) => {
                let t = c.to_string();
                prefixed("Core error: ", t.as_str())
            },
            ApiError::StorageError(e) => {
                let t = e.to_string();
                prefixed("Storage error: ", t.as_str())
            },
            ApiError::BadRequest(m) => prefixed("Bad request: ", m.as_str()),
            ApiError::InternalError => string_of("Internal server error"),
            ApiError::JsonError(e) => {
                let t = e.to_string();
                let s = prefixed("JSON error: ", t.as_str());
                assert(to_string_from_display_ensures::<serde_json::Error>(e, t) && s@ == "JSON error: "@ + t@);
                s
            },
            ApiError::UuidError(e) => {
                let t = e.to_string();
                let s = prefixed("UUID parse error: ", t.as_str());
                assert(to_string_from_display_ensures::<uuid::Error>(e, t) && s@ == "UUID parse error: "@ + t@);
                s
            },
            ApiError::RedisError(m) => prefixed("Redis error: ", m.as_str()),
        }
    }

    /// The error part of the answer: the code's text and the message.
    pub fn body(&self) -> (b: ApiErrorBody)
        ensures
            b.code@ == error_code_text(api_error_code(*self)),
            api_error_message(*self) matches Some(m) ==> b.message@ == m,
            api_error_text(*self, b.message@),
    {
        let code = self.error_code();
        ApiErrorBody { code: string_of(code.as_str()), message: self.to_string() }
    }
}

/// Every refused request is answered with a client or server error status,
/// and the status tells the code: 401 for a bad key or credentials, 403 for
/// a missing permission, 404 for a missing model, task or user, 400 for bad
/// input, 429 for a rate limit, 503 when the queue is down, 500 otherwise.
pub proof fn lemma_error_status_agrees_with_code(e: ApiError)
    ensures
        400 <= api_error_status(e) <= 599,
        api_error_status(e) == 401 <==> api_error_code(e) == ErrorCode::InvalidApiKey,
        api_error_status(e) == 403 <==> api_error_code(e) == ErrorCode::PermissionDenied,
        api_error_status(e) == 404 <==> (api_error_code(e) == ErrorCode::ModelNotFound
            || api_error_code(e) == ErrorCode::TaskNotFound || api_error_code(e) == ErrorCode::UserNotFound),
        api_error_status(e) == 400 <==> api_error_code(e) == ErrorCode::InvalidInput,
        api_error_status(e) == 429 <==> api_error_code(e) == ErrorCode::RateLimitExceeded,
        api_error_status(e) == 503 <==> api_error_code(e) == ErrorCode::ServiceUnavailable,
        api_error_status(e) == 500 <==> api_error_code(e) == ErrorCode::InternalError,
{
}

/// The paths that are served without an API key.
pub open spec fn public_path(path: Seq<char>) -> bool {
    ||| path == "/api/v1/health"@
    ||| path == "/api/v1/ready"@
    ||| path == "/api/v1/bootstrap"@
    ||| path == "/api/v1/auth/login"@
    ||| path == "/api/v1/metrics"@
}

/// Whether a path is served without an API key.
pub fn is_public_path(path: &str) -> (r: bool)
    ensures
        r == public_path(path@),
{
    str_eq(path, "/api/v1/health") || str_eq(path, "/api/v1/ready") || str_eq(path, "/api/v1/bootstrap")
        || str_eq(path, "/api/v1/auth/login") || str_eq(path, "/api/v1/metrics")
}

/// The method of an HTTP request, as far as the rules tell methods apart.
#[derive(Debug, Clone, Copy, PartialEq, Eq, Structural)]
pub enum HttpMethod {
    Get,
    Post,
    Put,
    Patch,
    Delete,
    Head,
    Options,
    Other,
}

/// Whether a key with these permissions may make a request with `method`
/// on `path`: an administrator may do anything; otherwise admin paths are
/// closed, deleting a model needs the delete grant, inference needs the
/// execute grant, and everything else is open.
pub open spec fn permitted(p: Permissions, path: Seq<char>, method: HttpMethod) -> bool {
    if p.admin {
        true
    } else if seq_starts_with(path, "/api/v1/admin"@) {
        false
    } else if seq_starts_with(path, "/api/v1/models"@) && method == HttpMethod::Delete {
        p.spec_can_delete_models()
    } else if seq_starts_with(path, "/api/v1/inference"@) {
        p.spec_can_execute_inference()
    } else {
        true
    }
}

/// Whether the API key may make a request with `method` on `path`.
pub fn check_permission(api_key: &ApiKeyInfo, path: &str, method: HttpMethod) -> (r: bool)
    ensures
        r == permitted(api_key.permissions, path@, method),
{
    if api_key.permissions.admin {
        return true;
    }
    if str_starts_with(path, "/api/v1/admin") {
        return false;
    }
    if str_starts_with(path, "/api/v1/models") && method == HttpMethod::Delete {
        return api_key.permissions.can_delete_models();
    }
    if str_starts_with(path, "/api/v1/inference") {
        return api_key.permissions.can_execute_inference();
    }
    true
}

/// The requests per minute allowed on a path: synchronous inference,
/// other inference, and everything else each have their own limit.
pub open spec fn rate_limit_for(path: Seq<char>, config: RateLimitConfig) -> u32 {
    if seq_starts_with(path, "/api/v1/inference/sync"@) {
        config.sync_inference_rpm
    } else if seq_starts_with(path, "/api/v1/inference"@) {
        config.async_inference_rpm
    } else {
        config.default_rpm
    }
}

/// A key that is not an administrator's is refused exactly on admin paths,
/// on deleting a model without the delete grant, and on inference without
/// the execute grant; every other path and method is allowed, whatever
/// its grants. An administrator's key is never refused.
pub proof fn lemma_refusals_of_permission(p: Permissions, path: Seq<char>, method: HttpMethod)
    ensures
        p.admin ==> permitted(p, path, method),
        !p.admin ==> (!permitted(p, path, method) <==> (seq_starts_with(path, "/api/v1/admin"@) || (seq_starts_with(
            path,
            "/api/v1/models"@,
        ) && method == HttpMethod::Delete && !grants(p.models@, "delete"@)) || (seq_starts_with(path, "/api/v1/inference"@)
            && !grants(p.inference@, "execute"@)))),
{
    reveal_strlit("/api/v1/admin");
    reveal_strlit("/api/v1/models");
    reveal_strlit("/api/v1/inference");
    if seq_starts_with(path, "/api/v1/models"@) && seq_starts_with(path, "/api/v1/inference"@) {
        assert(path[8] == "/api/v1/models"@[8]);
        assert(path[8] == "/api/v1/inference"@[8]);
    }
    if seq_starts_with(path, "/api/v1/models"@) && seq_starts_with(path, "/api/v1/admin"@) {
        assert(path[8] == "/api/v1/models"@[8]);
        assert(path[8] == "/api/v1/admin"@[8]);
    }
}

/// Synchronous inference paths get the synchronous limit; every other path
/// under inference (asynchronous requests, image requests, task lookups)
/// gets the asynchronous limit; all other paths get the default limit.
pub proof fn lemma_rate_limit_by_path(path: Seq<char>, config: RateLimitConfig)
    ensures
        seq_starts_with(path, "/api/v1/inference/sync"@) ==> rate_limit_for(path, config) == config.sync_inference_rpm,
        seq_starts_with(path, "/api/v1/inference"@) && !seq_starts_with(path, "/api/v1/inference/sync"@)
            ==> rate_limit_for(path, config) == config.async_inference_rpm,
        !seq_starts_with(path, "/api/v1/inference"@) ==> rate_limit_for(path, config) == config.default_rpm,
{
    reveal_strlit("/api/v1/inference/sync");
    reveal_strlit("/api/v1/inference");
    if seq_starts_with(path, "/api/v1/inference/sync"@) {
        assert(path.subrange(0, 17) =~= "/api/v1/inference/sync"@.subrange(0, 17));
        assert("/api/v1/inference/sync"@.subrange(0, 17) =~= "/api/v1/inference"@);
    }
}

/// The requests per minute allowed on a path.
pub fn get_rate_limit(path: &str, config: &RateLimitConfig) -> (r: u32)
    ensures
        r == rate_limit_for(path@, *config),
{
    if str_starts_with(path, "/api/v1/inference/sync") {
        config.sync_inference_rpm
    } else if str_starts_with(path, "/api/v1/inference") {
        config.async_inference_rpm
    } else {
        config.default_rpm
    }
}

/// The key under which a request is counted: the API key's id when the
/// request has one, else the client address (or `unknown`).
pub open spec fn rate_limit_key_text(api_key_id: Option<Seq<char>>, client_ip: Option<Seq<char>>) -> Seq<char> {
    match api_key_id {
        Some(id) => "rate_limit:"@ + id,
        None => "rate_limit:ip:"@ + match client_ip {
            Some(ip) => ip,
            None => "unknown"@,
        },
    }
}

/// The key under which a request is counted, from the text of its API key's
/// id, if any, and of its `X-Real-IP` header, if any.
pub fn rate_limit_key(api_key_id: Option<&str>, client_ip: Option<&str>) -> (k: String)
    ensures
        k@ == rate_limit_key_text(
            match api_key_id { Some(s) => Some(s@), None => None },
            match client_ip { Some(s) => Some(s@), None => None },
        ),
{
    match api_key_id {
        Some(id) => prefixed("rate_limit:", id),
        None => match client_ip {
            Some(ip) => prefixed("rate_limit:ip:", ip),
            None => {
                let k = prefixed("rate_limit:ip:", "unknown");
                proof { reveal_strlit("unknown"); }
                k
            },
        },
    }
}

/// How a configuration value is shown in the startup report: secrets as
/// eight asterisks, the credentials of a URL hidden, anything else as is.
pub open spec fn masked(field_name: Seq<char>, value: Seq<char>) -> Seq<char> {
    if seq_contains_seq(field_name, "secret"@) {
        "********"@
    } else if field_name == "url"@ && value.contains('@') {
        "***@"@ + after_last(value, '@')
    } else {
        value
    }
}

/// Shows a configuration value with its secrets hidden.
pub fn mask_secrets(field_name: &str, value: &str) -> (r: String)
    ensures
        r@ == masked(field_name@, value@),
{
    if str_contains(field_name, "secret") {
        string_of("********")
    } else if str_eq(field_name, "url") && str_contains_char(value, '@') {
        let host = str_after_last(value, '@');
        prefixed("***@", host.as_str())
    } else {
        string_of(value)
    }
}

pub open spec fn database_backend_label(b: DatabaseBackend) -> Seq<char> {
    match b {
        DatabaseBackend::Postgresql => "Postgresql"@,
        DatabaseBackend::Sqlite => "Sqlite"@,
    }
}

pub open spec fn storage_backend_label(b: StorageBackend) -> Seq<char> {
    match b {
        StorageBackend::Local => "Local"@,
        StorageBackend::S3 => "S3"@,
    }
}

pub open spec fn execution_provider_label(p: ExecutionProvider) -> Seq<char> {
    match p {
        ExecutionProvider::CPU => "CPU"@,
        ExecutionProvider::CUDA => "CUDA"@,
        ExecutionProvider::TensorRT => "TensorRT"@,
    }
}

/// The startup report of a configuration, secrets hidden, without trailing
/// whitespace.
pub open spec fn config_report(c: Config) -> Seq<char> {
    trim_end(
        "Loaded configuration:\n"@
        + "  Server:\n"@
        + "    host: "@ + c.server.host@ + "\n"@
        + "    port: "@ + decimal_of(c.server.port as nat) + "\n"@
        + "  Database:\n"@
        + "    backend: "@ + database_backend_label(c.database.backend) + "\n"@
        + "    url: "@ + masked("url"@, c.database.url@) + "\n"@
        + "  Storage:\n"@
        + "    backend: "@ + storage_backend_label(c.storage.backend) + "\n"@
        + "    path: "@ + match c.storage.path { Some(p) => p@, None => "default"@ } + "\n"@
        + "  ONNX:\n"@
        + "    execution_provider: "@ + execution_provider_label(c.onnx.execution_provider) + "\n"@
        + "  Auth:\n"@
        + "    api_key_secret: "@ + masked("secret"@, c.auth.api_key_secret@) + "\n"@
        + "  Redis:\n"@
        + "    url: "@ + (if c.redis.url@.len() == 0 { "(not configured)"@ } else { masked("url"@, c.redis.url@) })
        + "\n"@,
    )
}

/// The startup report of a configuration, secrets hidden.
pub fn format_config(config: &Config) -> (r: String)
    ensures
        r@ == config_report(*config),
{
    let mut out = string_of("Loaded configuration:\n");
    out.append("  Server:\n");
    out.append("    host: ");
    out.append(config.server.host.as_str());
    out.append("\n");
    out.append("    port: ");
    out.append(u64_to_decimal(config.server.port as u64).as_str());
    out.append("\n");
    out.append("  Database:\n");
    out.append("    backend: ");
    out.append(
        match config.database.backend {
            DatabaseBackend::Postgresql => "Postgresql",
            DatabaseBackend::Sqlite => "Sqlite",
        },
    );
    out.append("\n");
    out.append("    url: ");
    out.append(mask_secrets("url", config.database.url.as_str()).as_str());
    out.append("\n");
    out.append("  Storage:\n");
    out.append("    backend: ");
    out.append(
        match config.storage.backend {
            StorageBackend::Local => "Local",
            StorageBackend::S3 => "S3",
        },
    );
    out.append("\n");
    out.append("    path: ");
    match &config.storage.path {
        Some(p) => out.append(p.as_str()),
        None => out.append("default"),
    }
    out.append("\n");
    out.append("  ONNX:\n");
    out.append("    execution_provider: ");
    out.append(
        match config.onnx.execution_provider {
            ExecutionProvider::CPU => "CPU",
            ExecutionProvider::CUDA => "CUDA",
            ExecutionProvider::TensorRT => "TensorRT",
        },
    );
    out.append("\n");
    out.append("  Auth:\n");
    out.append("    api_key_secret: ");
    out.append(mask_secrets("secret", config.auth.api_key_secret.as_str()).as_str());
    out.append("\n");
    out.append("  Redis:\n");
    out.append("    url: ");
    if config.redis.url.unicode_len() == 0 {
        out.append("(not configured)");
    } else {
        out.append(mask_secrets("url", config.redis.url.as_str()).as_str());
    }
    out.append("\n");
    proof {
        reveal_strlit("Postgresql");
        reveal_strlit("Sqlite");
        reveal_strlit("Local");
        reveal_strlit("S3");
        reveal_strlit("CPU");
        reveal_strlit("CUDA");
        reveal_strlit("TensorRT");
        reveal_strlit("url");
        reveal_strlit("secret");
        reveal_strlit("default");
        reveal_strlit("(not configured)");
        assert(out@ =~= "Loaded configuration:\n"@
            + "  Server:\n"@
            + "    host: "@ + config.server.host@ + "\n"@
            + "    port: "@ + decimal_of(config.server.port as nat) + "\n"@
            + "  Database:\n"@
            + "    backend: "@ + database_backend_label(config.database.backend) + "\n"@
            + "    url: "@ + masked("url"@, config.database.url@) + "\n"@
            + "  Storage:\n"@
            + "    backend: "@ + storage_backend_label(config.storage.backend) + "\n"@
            + "    path: "@ + match config.storage.path { Some(p) => p@, None => "default"@ } + "\n"@
            + "  ONNX:\n"@
            + "    execution_provider: "@ + execution_provider_label(config.onnx.execution_provider) + "\n"@
            + "  Auth:\n"@
            + "    api_key_secret: "@ + masked("secret"@, config.auth.api_key_secret@) + "\n"@
            + "  Redis:\n"@
            + "    url: "@ + (if config.redis.url@.len() == 0 { "(not configured)"@ } else { masked("url"@, config.redis.url@) })
            + "\n"@);
    }
    str_trim_end(out.as_str())
}

/// The priority of an asynchronous request when none is given.
pub fn default_priority() -> (s: String)
    ensures
        s@ == "normal"@,
{
    string_of("normal")
}

/// The timeout, in seconds, of an asynchronous request when none is given.
pub fn default_timeout() -> (t: u32)
    ensures
        t == 300,
{
    300
}

/// The options of an asynchronous inference request.
#[derive(Debug, Clone)]
pub struct InferOptions {
    pub priority: String,
    pub timeout: u32,
}

/// The numeric priority of a task queued with a named priority: `high` is
/// ten, `low` is one, anything else five.
pub open spec fn priority_of_name(name: Seq<char>) -> i32 {
    if name == "high"@ {
        10
    } else if name == "low"@ {
        1
    } else {
        5
    }
}

/// The numeric priority of a task queued with a named priority.
pub fn task_priority_value(name: &str) -> (p: i32)
    ensures
        p == priority_of_name(name@),
{
    if str_eq(name, "high") {
        10
    } else if str_eq(name, "low") {
        1
    } else {
        5
    }
}

/// The fields of an image inference form.
#[derive(Debug, Clone)]
pub struct ImageInferRequest {
    pub model_id: Option<String>,
    pub name: Option<String>,
    pub version: Option<String>,
}

/// How a request names the model it wants.
#[derive(Debug, Clone)]
pub enum ModelReference {
    ById(String),
    ByNameVersion(String, String),
}

/// Which model an image inference form names, checked before any work: an
/// image must be present; a model id wins over a name and version, which
/// must come together.
pub fn resolve_image_model(form: ImageInferRequest, has_image: bool) -> (r: Result<ModelReference, ApiError>)
    ensures
        !has_image ==> (r matches Err(ApiError::BadRequest(m)) && m@ == "No image uploaded"@),
        has_image && form.model_id is Some ==> (r matches Ok(ModelReference::ById(id)) && id == form.model_id->0),
        has_image && form.model_id is None && form.name is Some && form.version is Some ==> (r matches Ok(
            ModelReference::ByNameVersion(n, v),
        ) && n == form.name->0 && v == form.version->0),
        has_image && form.model_id is None && !(form.name is Some && form.version is Some) ==> (r matches Err(
            ApiError::BadRequest(m),
        ) && m@ == "Either model_id or name+version is required"@),
{
    if !has_image {
        proof { reveal_strlit("No image uploaded"); }
        return Err(ApiError::BadRequest(string_of("No image uploaded")));
    }
    match form.model_id {
        Some(id) => Ok(ModelReference::ById(id)),
        None => match (form.name, form.version) {
            (Some(n), Some(v)) => Ok(ModelReference::ByNameVersion(n, v)),
            _ => {
                proof { reveal_strlit("Either model_id or name+version is required"); }
                Err(ApiError::BadRequest(string_of("Either model_id or name+version is required")))
            },
        },
    }
}

/// Checks an upload form before the model is stored: a name and a version
/// are required, then a file.
pub fn check_upload_form(name: &str, version: &str, has_file: bool) -> (r: Result<(), ApiError>)
    ensures
        (name@.len() == 0 || version@.len() == 0) ==> (r matches Err(ApiError::BadRequest(m))
            && m@ == "Missing name or version"@),
        name@.len() > 0 && version@.len() > 0 && !has_file ==> (r matches Err(ApiError::BadRequest(m))
            && m@ == "No file uploaded"@),
        name@.len() > 0 && version@.len() > 0 && has_file ==> r is Ok,
{
    if name.unicode_len() == 0 || version.unicode_len() == 0 {
        proof { reveal_strlit("Missing name or version"); }
        return Err(ApiError::BadRequest(string_of("Missing name or version")));
    }
    if !has_file {
        proof { reveal_strlit("No file uploaded"); }
        return Err(ApiError::BadRequest(string_of("No file uploaded")));
    }
    Ok(())
}

/// The refusal of a model whose name and version are taken.
pub fn model_exists_error(name: &str, version: &str) -> (e: ApiError)
    ensures
        e matches ApiError::BadRequest(m) && m@ == "Model "@ + name@ + ":"@ + version@ + " already exists"@,
{
    let mut m = string_of("Model ");
    m.append(name);
    m.append(":");
    m.append(version);
    m.append(" already exists");
    proof {
        reveal_strlit("Model ");
        reveal_strlit(":");
        reveal_strlit(" already exists");
    }
    ApiError::BadRequest(m)
}

/// The role a user request names: `admin`, or an ordinary user for any
/// other name or none.
pub fn role_from_name(name: Option<&str>) -> (r: UserRole)
    ensures
        r == (if name matches Some(n) && n@ == "admin"@ { UserRole::Admin } else { UserRole::User }),
{
    match name {
        Some(n) => if str_eq(n, "admin") {
            UserRole::Admin
        } else {
            UserRole::User
        },
        None => UserRole::User,
    }
}

/// Whether a user may be deleted: an administrator only while another
/// administrator remains (`admin_count` counts them all, this one included).
pub fn check_user_deletion(role: UserRole, admin_count: usize) -> (r: Result<(), ApiError>)
    ensures
        role == UserRole::Admin && admin_count <= 1 ==> (r matches Err(ApiError::BadRequest(m))
            && m@ == "Cannot delete the last admin user"@),
        !(role == UserRole::Admin && admin_count <= 1) ==> r is Ok,
{
    if role == UserRole::Admin && admin_count <= 1 {
        proof { reveal_strlit("Cannot delete the last admin user"); }
        return Err(ApiError::BadRequest(string_of("Cannot delete the last admin user")));
    }
    Ok(())
}

/// The API key of an `Authorization` header: the text after `Bearer `.
pub open spec fn bearer_outcome(header: Option<Seq<char>>) -> Option<Result<Seq<char>, ()>> {
    match header {
        None => None,
        Some(h) => Some(if seq_starts_with(h, "Bearer "@) {
            Ok(h.subrange(7, h.len() as int))
        } else {
            Err(())
        }),
    }
}

/// Takes the API key out of a request's `Authorization` header: a request
/// without the header has no key; one without the `Bearer ` scheme has a
/// key of the wrong form.
pub fn bearer_token(header: Option<&str>) -> (r: Result<String, ApiError>)
    ensures
        header is None ==> r matches Err(ApiError::MissingApiKey),
        header matches Some(h) ==> match bearer_outcome(Some(h@)) {
            Some(Ok(k)) => r matches Ok(t) && t@ == k,
            _ => r matches Err(ApiError::InvalidApiKeyFormat),
        },
{
    match header {
        None => Err(ApiError::MissingApiKey),
        Some(h) => {
            if str_starts_with(h, "Bearer ") {
                proof { reveal_strlit("Bearer "); }
                Ok(crate::text::chars_from(h, 7))
            } else {
                Err(ApiError::InvalidApiKeyFormat)
            }
        },
    }
}

/// A cached API key is used when it is still active and unexpired at `now`;
/// otherwise the store is asked.
pub fn usable_cached_key(cached: Option<ApiKeyInfo>, now: i64) -> (r: Option<ApiKeyInfo>)
    ensures
        match cached {
            Some(info) => if info.is_active && !expired_at(info.expires_at, now) {
                r == Some(info)
            } else {
                r is None
            },
            None => r is None,
        },
{
    match cached {
        Some(info) => if info.is_valid_at(now) {
            Some(info)
        } else {
            None
        },
        None => None,
    }
}

/// The key a request authenticates with, from the stored record found for
/// its hash: an unknown key, or one that is inactive or expired at `now`, is
/// refused.
pub fn key_from_record(record: Option<ApiKeyRecord>, now: i64) -> (r: Result<ApiKeyInfo, ApiError>)
    ensures
        match record {
            Some(rec) => if rec.is_active && !expired_at(rec.expires_at, now) {
                r matches Ok(info) && info == (ApiKeyInfo {
                    id: rec.id,
                    user_id: rec.user_id,
                    name: rec.name,
                    permissions: rec.permissions,
                    is_active: rec.is_active,
                    is_temporary: rec.is_temporary,
                    expires_at: rec.expires_at,
                })
            } else {
                r matches Err(ApiError::InvalidApiKey)
            },
            None => r matches Err(ApiError::InvalidApiKey),
        },
{
    match record {
        Some(rec) => {
            let info = ApiKeyInfo::from(rec);
            if !info.is_valid_at(now) {
                return Err(ApiError::InvalidApiKey);
            }
            Ok(info)
        },
        None => Err(ApiError::InvalidApiKey),
    }
}

/// Checks a login: the user must exist, be active, and bcrypt must accept
/// the password against the stored hash; every failure is the same refusal.
pub fn authenticate(user: Option<&User>, password: &str) -> (r: Result<(), ApiError>)
    ensures
        r is Ok <==> (user matches Some(u) && u.is_active
            && bcrypt_verdict(password.spec_bytes(), u.password_hash@) == Some(true)),
        r is Err ==> r matches Err(ApiError::InvalidCredentials),
{
    match user {
        None => Err(ApiError::InvalidCredentials),
        Some(u) => {
            if !u.is_active {
                return Err(ApiError::InvalidCredentials);
            }
            match verify_password(password, u.password_hash.as_str()) {
                Ok(true) => Ok(()),
                _ => Err(ApiError::InvalidCredentials),
            }
        },
    }
}

/// The grants of a key issued at login: an administrator's for an
/// administrator, an ordinary user's otherwise.
pub fn session_permissions(role: UserRole) -> (p: Permissions)
    ensures
        role == UserRole::Admin ==> p.admin && strings_view(p.models@) == seq!["read"@, "write"@, "delete"@]
            && strings_view(p.inference@) == seq!["execute"@]
            && strings_view(p.api_keys@) == seq!["read"@, "write"@, "delete"@],
        role == UserRole::User ==> !p.admin && strings_view(p.models@) == seq!["read"@]
            && strings_view(p.inference@) == seq!["execute"@] && strings_view(p.api_keys@) == seq!["read"@, "write"@],
{
    match role {
        UserRole::Admin => Permissions::admin_default(),
        UserRole::User => Permissions::user_default(),
    }
}

/// A fresh session key: 32 random bytes in lowercase hex.
pub fn generate_session_key() -> (k: String)
    ensures
        exists|bytes: Seq<u8>| bytes.len() == 32 && k@ == hex_lower(bytes),
        k@.len() == 64,
{
    let bytes = random_bytes(32);
    proof { crate::utils::lemma_hex_lower_shape(bytes@); }
    to_hex_lower(bytes.as_slice())
}

/// The bootstrap endpoint works only on an empty system.
pub fn check_bootstrap_allowed(users_exist: bool) -> (r: Result<(), ApiError>)
    ensures
        users_exist ==> (r matches Err(ApiError::BadRequest(m)) && m@ == "System already initialized"@),
        !users_exist ==> r is Ok,
{
    if users_exist {
        proof { reveal_strlit("System already initialized"); }
        return Err(ApiError::BadRequest(string_of("System already initialized")));
    }
    Ok(())
}

/// Calls `PartialEq::eq` on two UUIDs, which compares their bytes.
#[verifier::external_body]
fn uuid_eq(a: &Uuid, b: &Uuid) -> (r: bool)
    ensures
        r == (*a == *b),
{
    a == b
}

/// A task is seen and cancelled only by its owner or an administrator.
pub fn check_task_access(task_user_id: &Uuid, api_key: &ApiKeyInfo) -> (r: Result<(), ApiError>)
    ensures
        r is Ok <==> (*task_user_id == api_key.user_id || api_key.permissions.admin),
        r is Err ==> r matches Err(ApiError::PermissionDenied),
{
    if !uuid_eq(task_user_id, &api_key.user_id) && !api_key.permissions.admin {
        return Err(ApiError::PermissionDenied);
    }
    Ok(())
}

/// Only a pending task can be cancelled.
pub fn check_cancellable(status: TaskStatus) -> (r: Result<(), ApiError>)
    ensures
        r is Ok <==> status == TaskStatus::Pending,
        r is Err ==> r matches Err(ApiError::TaskNotCancellable),
{
    if status != TaskStatus::Pending {
        return Err(ApiError::TaskNotCancellable);
    }
    Ok(())
}

/// The answer of the health endpoint.
#[derive(Debug, Clone)]
pub struct HealthResponse {
    pub status: String,
    pub version: String,
    pub uptime_secs: u64,
}

/// The answer of the readiness endpoint.
#[derive(Debug, Clone)]
pub struct ReadyResponse {
    pub database: bool,
    pub redis: bool,
    pub engine: bool,
}

/// A login.
#[derive(Debug, Clone)]
pub struct LoginRequest {
    pub username: String,
    pub password: String,
}

/// The first administrator, created by the bootstrap endpoint.
#[derive(Debug, Clone)]
pub struct BootstrapResponse {
    pub user_id: String,
    pub username: String,
    pub password: String,
    pub api_key: String,
}

/// A request for a new API key.
#[derive(Debug, Clone)]
pub struct CreateApiKeyRequest {
    pub name: String,
    pub permissions: Option<Permissions>,
    pub expires_in_days: Option<u32>,
}

/// A new API key, shown once.
#[derive(Debug, Clone)]
pub struct CreateApiKeyResponse {
    pub key_id: String,
    pub key: String,
    pub name: String,
    pub expires_at: Option<String>,
}

/// Changes to an API key.
#[derive(Debug, Clone)]
pub struct UpdateApiKeyRequest {
    pub name: Option<String>,
    pub permissions: Option<Permissions>,
}

/// A request for a new user; the role is `admin` or `user`.
#[derive(Debug, Clone)]
pub struct CreateUserRequest {
    pub username: String,
    pub password: String,
    pub role: Option<String>,
}

/// Changes to a user.
#[derive(Debug, Clone)]
pub struct UpdateUserRequest {
    pub username: Option<String>,
    pub password: Option<String>,
    pub role: Option<String>,
    pub is_active: Option<bool>,
}

/// How a model listing is narrowed, as a query.
#[derive(Debug, Clone)]
pub struct ModelFilterQuery {
    pub name: Option<String>,
    pub is_valid: Option<bool>,
    pub limit: Option<usize>,
    pub offset: Option<usize>,
}

/// How a task listing is narrowed, as a query.
#[derive(Debug, Clone)]
pub struct TaskFilterQuery {
    pub model_id: Option<String>,
    pub status: Option<String>,
    pub limit: Option<usize>,
    pub offset: Option<usize>,
}

/// How a user listing is narrowed, as a query.
#[derive(Debug, Clone)]
pub struct UserFilterQuery {
    pub limit: Option<usize>,
    pub offset: Option<usize>,
}

/// A model registered from a file the server can read.
#[derive(Debug, Clone)]
pub struct RegisterModelRequest {
    pub name: String,
    pub version: String,
    pub file_path: String,
    pub config: Option<String>,
}

/// Changes to a model.
#[derive(Debug, Clone)]
pub struct UpdateModelRequest {
    pub name: Option<String>,
    pub version: Option<String>,
    pub config: Option<String>,
}

} // verus!
