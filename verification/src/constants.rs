//! Error codes reported to clients, and the names the service shares with
//! its clients and workers.
use vstd::prelude::*;

verus! {

/// The error codes that responses carry.
#[derive(Debug, Clone, Copy, PartialEq, Eq, Structural)]
pub enum ErrorCode {
    InvalidApiKey,
    PermissionDenied,
    BootstrapDisabled,
    ModelNotFound,
    TaskNotFound,
    UserNotFound,
    ApiKeyNotFound,
    InvalidInput,
    InvalidModelFormat,
    ModelAlreadyExists,
    ModelNotValid,
    TaskNotCancellable,
    InferenceFailed,
    InternalError,
    InferenceTimeout,
    ServiceUnavailable,
    RedisUnavailable,
    RateLimitExceeded,
}

/// The code's name as clients see it.
pub open spec fn error_code_name(c: ErrorCode) -> Seq<char> {
    match c {
        ErrorCode::InvalidApiKey => "INVALID_API_KEY"@,
        ErrorCode::PermissionDenied => "PERMISSION_DENIED"@,
        ErrorCode::BootstrapDisabled => "BOOTSTRAP_DISABLED"@,
        ErrorCode::ModelNotFound => "MODEL_NOT_FOUND"@,
        ErrorCode::TaskNotFound => "TASK_NOT_FOUND"@,
        ErrorCode::UserNotFound => "USER_NOT_FOUND"@,
        ErrorCode::ApiKeyNotFound => "API_KEY_NOT_FOUND"@,
        ErrorCode::InvalidInput => "INVALID_INPUT"@,
        ErrorCode::InvalidModelFormat => "INVALID_MODEL_FORMAT"@,
        ErrorCode::ModelAlreadyExists => "MODEL_ALREADY_EXISTS"@,
        ErrorCode::ModelNotValid => "MODEL_NOT_VALID"@,
        ErrorCode::TaskNotCancellable => "TASK_NOT_CANCELLABLE"@,
        ErrorCode::InferenceFailed => "INFERENCE_FAILED"@,
        ErrorCode::InternalError => "INTERNAL_ERROR"@,
        ErrorCode::InferenceTimeout => "INFERENCE_TIMEOUT"@,
        ErrorCode::ServiceUnavailable => "SERVICE_UNAVAILABLE"@,
        ErrorCode::RedisUnavailable => "REDIS_UNAVAILABLE"@,
        ErrorCode::RateLimitExceeded => "RATE_LIMIT_EXCEEDED"@,
    }
}

/// Different codes have different names, so a client can tell every code
/// by its name.
pub proof fn lemma_error_code_names_distinct(c1: ErrorCode, c2: ErrorCode)
    requires
        c1 != c2,
    ensures
        error_code_name(c1) != error_code_name(c2),
{
    reveal_strlit("INVALID_API_KEY");
    reveal_strlit("PERMISSION_DENIED");
    reveal_strlit("BOOTSTRAP_DISABLED");
    reveal_strlit("MODEL_NOT_FOUND");
    reveal_strlit("TASK_NOT_FOUND");
    reveal_strlit("USER_NOT_FOUND");
    reveal_strlit("API_KEY_NOT_FOUND");
    reveal_strlit("INVALID_INPUT");
    reveal_strlit("INVALID_MODEL_FORMAT");
    reveal_strlit("MODEL_ALREADY_EXISTS");
    reveal_strlit("MODEL_NOT_VALID");
    reveal_strlit("TASK_NOT_CANCELLABLE");
    reveal_strlit("INFERENCE_FAILED");
    reveal_strlit("INTERNAL_ERROR");
    reveal_strlit("INFERENCE_TIMEOUT");
    reveal_strlit("SERVICE_UNAVAILABLE");
    reveal_strlit("REDIS_UNAVAILABLE");
    reveal_strlit("RATE_LIMIT_EXCEEDED");
    let a = error_code_name(c1);
    let b = error_code_name(c2);
    assert(a.len() != b.len() || a[0] != b[0] || a[10] != b[10]);
}

/// The HTTP status that goes with a code.
pub open spec fn error_code_status(c: ErrorCode) -> int {
    match c {
        ErrorCode::InvalidApiKey => 401,
        ErrorCode::PermissionDenied => 403,
        ErrorCode::BootstrapDisabled => 403,
        ErrorCode::ModelNotFound => 404,
        ErrorCode::TaskNotFound => 404,
        ErrorCode::UserNotFound => 404,
        ErrorCode::ApiKeyNotFound => 404,
        ErrorCode::InvalidInput => 400,
        ErrorCode::InvalidModelFormat => 400,
        ErrorCode::ModelAlreadyExists => 400,
        ErrorCode::ModelNotValid => 400,
        ErrorCode::TaskNotCancellable => 400,
        ErrorCode::InferenceFailed => 500,
        ErrorCode::InternalError => 500,
        ErrorCode::InferenceTimeout => 504,
        ErrorCode::ServiceUnavailable => 503,
        ErrorCode::RedisUnavailable => 503,
        ErrorCode::RateLimitExceeded => 429,
    }
}

impl ErrorCode {
    pub fn as_str(&self) -> (s: &'static str)
        ensures
            s@ == error_code_name(*self),
    {
        match self {
            ErrorCode::InvalidApiKey => "INVALID_API_KEY",
            ErrorCode::PermissionDenied => "PERMISSION_DENIED",
            ErrorCode::BootstrapDisabled => "BOOTSTRAP_DISABLED",
            ErrorCode::ModelNotFound => "MODEL_NOT_FOUND",
            ErrorCode::TaskNotFound => "TASK_NOT_FOUND",
            ErrorCode::UserNotFound => "USER_NOT_FOUND",
            ErrorCode::ApiKeyNotFound => "API_KEY_NOT_FOUND",
            ErrorCode::InvalidInput => "INVALID_INPUT",
            ErrorCode::InvalidModelFormat => "INVALID_MODEL_FORMAT",
            ErrorCode::ModelAlreadyExists => "MODEL_ALREADY_EXISTS",
            ErrorCode::ModelNotValid => "MODEL_NOT_VALID",
            ErrorCode::TaskNotCancellable => "TASK_NOT_CANCELLABLE",
            ErrorCode::InferenceFailed => "INFERENCE_FAILED",
            ErrorCode::InternalError => "INTERNAL_ERROR",
            ErrorCode::InferenceTimeout => "INFERENCE_TIMEOUT",
            ErrorCode::ServiceUnavailable => "SERVICE_UNAVAILABLE",
            ErrorCode::RedisUnavailable => "REDIS_UNAVAILABLE",
            ErrorCode::RateLimitExceeded => "RATE_LIMIT_EXCEEDED",
        }
    }

    pub fn http_status(&self) -> (s: u16)
        ensures
            s == error_code_status(*self),
    {
        match self {
            ErrorCode::InvalidApiKey => 401,
            ErrorCode::PermissionDenied => 403,
            ErrorCode::BootstrapDisabled => 403,
            ErrorCode::ModelNotFound => 404,
            ErrorCode::TaskNotFound => 404,
            ErrorCode::UserNotFound => 404,
            ErrorCode::ApiKeyNotFound => 404,
            ErrorCode::InvalidInput => 400,
            ErrorCode::InvalidModelFormat => 400,
            ErrorCode::ModelAlreadyExists => 400,
            ErrorCode::ModelNotValid => 400,
            ErrorCode::TaskNotCancellable => 400,
            ErrorCode::InferenceFailed => 500,
            ErrorCode::InternalError => 500,
            ErrorCode::InferenceTimeout => 504,
            ErrorCode::ServiceUnavailable => 503,
            ErrorCode::RedisUnavailable => 503,
            ErrorCode::RateLimitExceeded => 429,
        }
    }
}

pub const API_KEY_PREFIX: &'static str = "frx_sk";
pub const TEMP_KEY_PREFIX: &'static str = "frx_sk_temp";
pub const API_VERSION: &'static str = "v1";

pub const DEFAULT_SYNC_INFERENCE_TIMEOUT_SECS: u64 = 30;
pub const DEFAULT_SYNC_INFERENCE_CONCURRENCY: usize = 4;

pub const REDIS_STREAM_KEY_HIGH: &'static str = "ferrinx:tasks:high";
pub const REDIS_STREAM_KEY_NORMAL: &'static str = "ferrinx:tasks:normal";
pub const REDIS_STREAM_KEY_LOW: &'static str = "ferrinx:tasks:low";
pub const REDIS_DEAD_LETTER_STREAM: &'static str = "ferrinx:tasks:dead_letter";
pub const REDIS_CONSUMER_GROUP: &'static str = "ferrinx-workers";
pub const REDIS_RESULT_CACHE_PREFIX: &'static str = "ferrinx:results";
pub const REDIS_API_KEY_STORE: &'static str = "ferrinx:api_keys";

} // verus!
