//! The service configuration: its sections, the development defaults, and
//! the validation of a loaded configuration.
use vstd::prelude::*;
use vstd::string::*;

verus! {

/// How requests are counted against a limit.
#[derive(Debug, Clone, Copy, PartialEq, Eq, Structural)]
pub enum RateLimitAlgorithm {
    TokenBucket,
    SlidingWindow,
}

/// The database engine.
#[derive(Debug, Clone, Copy, PartialEq, Eq, Structural)]
pub enum DatabaseBackend {
    Postgresql,
    Sqlite,
}

/// Where model files are kept.
#[derive(Debug, Clone, Copy, PartialEq, Eq, Structural)]
pub enum StorageBackend {
    Local,
    S3,
}

/// The hardware that runs inference.
#[derive(Debug, Clone, Copy, PartialEq, Eq, Structural)]
pub enum ExecutionProvider {
    CPU,
    CUDA,
    TensorRT,
}

/// The format of log lines.
#[derive(Debug, Clone, Copy, PartialEq, Eq, Structural)]
pub enum LogFormat {
    Json,
    Text,
}

/// The HTTP server.
#[derive(Debug, Clone)]
pub struct ServerConfig {
    pub host: String,
    pub port: u16,
    pub workers: usize,
    pub max_request_size_mb: usize,
    pub graceful_shutdown_timeout: u64,
    pub sync_inference_concurrency: usize,
    pub sync_inference_timeout: u64,
    pub api_version: String,
    pub include_version_header: bool,
}

/// Request rate limits, in requests per minute.
#[derive(Debug, Clone)]
pub struct RateLimitConfig {
    pub enabled: bool,
    pub algorithm: RateLimitAlgorithm,
    pub default_rpm: u32,
    pub burst: u32,
    pub sync_inference_rpm: u32,
    pub async_inference_rpm: u32,
    pub cleanup_interval_secs: u64,
}

/// API keys.
#[derive(Debug, Clone)]
pub struct AuthConfig {
    pub api_key_secret: String,
    pub api_key_prefix: String,
    pub max_keys_per_user: usize,
    pub temp_key_ttl_hours: u64,
    pub temp_key_prefix: String,
}

/// The database.
#[derive(Debug, Clone)]
pub struct DatabaseConfig {
    pub backend: DatabaseBackend,
    pub url: String,
    pub max_connections: u32,
    pub run_migrations: bool,
}

/// The task queue and caches.
#[derive(Debug, Clone)]
pub struct RedisConfig {
    pub url: String,
    pub pool_size: u32,
    pub stream_key: String,
    pub consumer_group: String,
    pub dead_letter_stream: String,
    pub result_cache_prefix: String,
    pub result_cache_ttl: u64,
    pub api_key_store: String,
    pub api_key_cache_ttl: u64,
    pub fallback_to_db: bool,
}

/// The model store.
#[derive(Debug, Clone)]
pub struct StorageConfig {
    pub backend: StorageBackend,
    pub path: Option<String>,
    pub bucket: Option<String>,
    pub region: Option<String>,
    pub endpoint: Option<String>,
}

/// The inference engine.
#[derive(Debug, Clone)]
pub struct OnnxConfig {
    pub cache_size: usize,
    pub preload: Vec<String>,
    pub execution_provider: ExecutionProvider,
    pub gpu_device_id: u32,
}

/// Logging; `file` is the path of the log file, if any.
#[derive(Debug, Clone)]
pub struct LoggingConfig {
    pub level: String,
    pub format: LogFormat,
    pub file: Option<String>,
    pub max_file_size_mb: u64,
    pub max_files: usize,
}

/// Workers of the task queue.
#[derive(Debug, Clone)]
pub struct WorkerConfig {
    pub consumer_name: String,
    pub concurrency: usize,
    pub poll_interval_ms: u64,
    pub max_retries: u32,
    pub retry_delay_ms: u64,
    pub task_recovery_interval_secs: u64,
    pub health_check_interval_secs: u64,
    pub claim_idle_ms: i64,
}

/// Removal of old tasks and keys.
#[derive(Debug, Clone)]
pub struct CleanupConfig {
    pub enabled: bool,
    pub completed_task_retention_days: u32,
    pub failed_task_retention_days: u32,
    pub cancelled_task_retention_days: u32,
    pub cleanup_interval_hours: u64,
    pub cleanup_batch_size: usize,
    pub temp_key_cleanup_interval_hours: u64,
}

/// Checks on uploaded models.
#[derive(Debug, Clone)]
pub struct ModelValidationConfig {
    pub enabled: bool,
    pub validate_session: bool,
    pub validation_timeout_secs: u64,
    pub async_validation: bool,
}

/// The whole configuration of the service.
#[derive(Debug, Clone)]
pub struct Config {
    pub server: ServerConfig,
    pub rate_limit: RateLimitConfig,
    pub auth: AuthConfig,
    pub database: DatabaseConfig,
    pub redis: RedisConfig,
    pub storage: StorageConfig,
    pub onnx: OnnxConfig,
    pub logging: LoggingConfig,
    pub worker: WorkerConfig,
    pub cleanup: CleanupConfig,
    pub model_validation: ModelValidationConfig,
}

/// The default interval between recoveries of stalled tasks, in seconds.
pub fn default_task_recovery_interval_secs() -> (r: u64)
    ensures
        r == 300,
{
    300
}

/// The default interval between worker health checks, in seconds.
pub fn default_health_check_interval_secs() -> (r: u64)
    ensures
        r == 30,
{
    30
}

/// The default idle time after which a pending task may be claimed, in ms.
pub fn default_claim_idle_ms() -> (r: i64)
    ensures
        r == 300_000,
{
    300_000
}

/// The development defaults of the `server` section.
pub open spec fn is_default_server(c: ServerConfig) -> bool {
    &&& c.host@ == "127.0.0.1"@
    &&& c.port == 8080
    &&& c.workers == 4
    &&& c.max_request_size_mb == 500
    &&& c.graceful_shutdown_timeout == 30
    &&& c.sync_inference_concurrency == 4
    &&& c.sync_inference_timeout == 30
    &&& c.api_version@ == "v1"@
    &&& c.include_version_header == true
}

/// The development defaults of the `rate_limit` section.
pub open spec fn is_default_rate_limit(c: RateLimitConfig) -> bool {
    &&& c.enabled == true
    &&& c.algorithm == RateLimitAlgorithm::SlidingWindow
    &&& c.default_rpm == 60
    &&& c.burst == 10
    &&& c.sync_inference_rpm == 30
    &&& c.async_inference_rpm == 100
    &&& c.cleanup_interval_secs == 60
}

/// The development defaults of the `auth` section.
pub open spec fn is_default_auth(c: AuthConfig) -> bool {
    &&& c.api_key_secret@ == "dev-secret-key"@
    &&& c.api_key_prefix@ == "frx_sk"@
    &&& c.max_keys_per_user == 10
    &&& c.temp_key_ttl_hours == 1
    &&& c.temp_key_prefix@ == "frx_sk_temp_"@
}

/// The development defaults of the `database` section.
pub open spec fn is_default_database(c: DatabaseConfig) -> bool {
    &&& c.backend == DatabaseBackend::Sqlite
    &&& c.url@ == "sqlite://./data/ferrinx.db"@
    &&& c.max_connections == 5
    &&& c.run_migrations == true
}

/// The development defaults of the `redis` section.
pub open spec fn is_default_redis(c: RedisConfig) -> bool {
    &&& c.url@ == "redis://127.0.0.1:6379"@
    &&& c.pool_size == 10
    &&& c.stream_key@ == "ferrinx:tasks:stream"@
    &&& c.consumer_group@ == "ferrinx-workers"@
    &&& c.dead_letter_stream@ == "ferrinx:tasks:dead_letter"@
    &&& c.result_cache_prefix@ == "ferrinx:results"@
    &&& c.result_cache_ttl == 86400
    &&& c.api_key_store@ == "ferrinx:api_keys"@
    &&& c.api_key_cache_ttl == 3600
    &&& c.fallback_to_db == true
}

/// The development defaults of the `storage` section.
pub open spec fn is_default_storage(c: StorageConfig) -> bool {
    &&& c.backend == StorageBackend::Local
    &&& c.path matches Some(s) && s@ == "./models"@
    &&& c.bucket is None
    &&& c.region is None
    &&& c.endpoint is None
}

/// The development defaults of the `onnx` section.
pub open spec fn is_default_onnx(c: OnnxConfig) -> bool {
    &&& c.cache_size == 5
    &&& c.preload@.len() == 0
    &&& c.execution_provider == ExecutionProvider::CPU
    &&& c.gpu_device_id == 0
}

/// The development defaults of the `logging` section.
pub open spec fn is_default_logging(c: LoggingConfig) -> bool {
    &&& c.level@ == "info"@
    &&& c.format == LogFormat::Text
    &&& c.file is None
    &&& c.max_file_size_mb == 100
    &&& c.max_files == 10
}

/// The development defaults of the `worker` section.
pub open spec fn is_default_worker(c: WorkerConfig) -> bool {
    &&& c.consumer_name@ == ""@
    &&& c.concurrency == 4
    &&& c.poll_interval_ms == 100
    &&& c.max_retries == 3
    &&& c.retry_delay_ms == 1000
    &&& c.task_recovery_interval_secs == 300
    &&& c.health_check_interval_secs == 30
    &&& c.claim_idle_ms == 300_000
}

/// The development defaults of the `cleanup` section.
pub open spec fn is_default_cleanup(c: CleanupConfig) -> bool {
    &&& c.enabled == true
    &&& c.completed_task_retention_days == 30
    &&& c.failed_task_retention_days == 7
    &&& c.cancelled_task_retention_days == 3
    &&& c.cleanup_interval_hours == 24
    &&& c.cleanup_batch_size == 1000
    &&& c.temp_key_cleanup_interval_hours == 1
}

/// The development defaults of the `model_validation` section.
pub open spec fn is_default_model_validation(c: ModelValidationConfig) -> bool {
    &&& c.enabled == true
    &&& c.validate_session == false
    &&& c.validation_timeout_secs == 30
    &&& c.async_validation == true
}

/// The configuration's error messages, in the order `validate` checks them.
pub open spec fn config_errors(c: Config) -> Seq<Seq<char>> {
    let e0: Seq<Seq<char>> = if c.server.port == 0 { seq!["server.port cannot be 0"@] } else { Seq::empty() };
    let e1: Seq<Seq<char>> = if c.server.sync_inference_concurrency == 0 { seq!["sync_inference_concurrency must be > 0"@] } else { Seq::empty() };
    let e2: Seq<Seq<char>> = if c.database.max_connections == 0 { seq!["database.max_connections must be > 0"@] } else { Seq::empty() };
    let e3: Seq<Seq<char>> = if c.onnx.cache_size == 0 { seq!["onnx.cache_size must be > 0"@] } else { Seq::empty() };
    e0 + e1 + e2 + e3
}

impl Config {
    /// The configuration used for development when no file is given.
    pub fn default_dev() -> (c: Config)
        ensures
            is_default_server(c.server),
            is_default_rate_limit(c.rate_limit),
            is_default_auth(c.auth),
            is_default_database(c.database),
            is_default_redis(c.redis),
            is_default_storage(c.storage),
            is_default_onnx(c.onnx),
            is_default_logging(c.logging),
            is_default_worker(c.worker),
            is_default_cleanup(c.cleanup),
            is_default_model_validation(c.model_validation),
    {
        Config {
            server: ServerConfig {
                host: "127.0.0.1".to_owned(),
                port: 8080,
                workers: 4,
                max_request_size_mb: 500,
                graceful_shutdown_timeout: 30,
                sync_inference_concurrency: 4,
                sync_inference_timeout: 30,
                api_version: "v1".to_owned(),
                include_version_header: true,
            },
            rate_limit: RateLimitConfig {
                enabled: true,
                algorithm: RateLimitAlgorithm::SlidingWindow,
                default_rpm: 60,
                burst: 10,
                sync_inference_rpm: 30,
                async_inference_rpm: 100,
                cleanup_interval_secs: 60,
            },
            auth: AuthConfig {
                api_key_secret: "dev-secret-key".to_owned(),
                api_key_prefix: "frx_sk".to_owned(),
                max_keys_per_user: 10,
                temp_key_ttl_hours: 1,
                temp_key_prefix: "frx_sk_temp_".to_owned(),
            },
            database: DatabaseConfig {
                backend: DatabaseBackend::Sqlite,
                url: "sqlite://./data/ferrinx.db".to_owned(),
                max_connections: 5,
                run_migrations: true,
            },
            redis: RedisConfig {
                url: "redis://127.0.0.1:6379".to_owned(),
                pool_size: 10,
                stream_key: "ferrinx:tasks:stream".to_owned(),
                consumer_group: "ferrinx-workers".to_owned(),
                dead_letter_stream: "ferrinx:tasks:dead_letter".to_owned(),
                result_cache_prefix: "ferrinx:results".to_owned(),
                result_cache_ttl: 86400,
                api_key_store: "ferrinx:api_keys".to_owned(),
                api_key_cache_ttl: 3600,
                fallback_to_db: true,
            },
            storage: StorageConfig {
                backend: StorageBackend::Local,
                path: Some("./models".to_owned()),
                bucket: None,
                region: None,
                endpoint: None,
            },
            onnx: OnnxConfig {
                cache_size: 5,
                preload: Vec::new(),
                execution_provider: ExecutionProvider::CPU,
                gpu_device_id: 0,
            },
            logging: LoggingConfig {
                level: "info".to_owned(),
                format: LogFormat::Text,
                file: None,
                max_file_size_mb: 100,
                max_files: 10,
            },
            worker: WorkerConfig {
                consumer_name: "".to_owned(),
                concurrency: 4,
                poll_interval_ms: 100,
                max_retries: 3,
                retry_delay_ms: 1000,
                task_recovery_interval_secs: 300,
                health_check_interval_secs: 30,
                claim_idle_ms: 300_000,
            },
            cleanup: CleanupConfig {
                enabled: true,
                completed_task_retention_days: 30,
                failed_task_retention_days: 7,
                cancelled_task_retention_days: 3,
                cleanup_interval_hours: 24,
                cleanup_batch_size: 1000,
                temp_key_cleanup_interval_hours: 1,
            },
            model_validation: ModelValidationConfig {
                enabled: true,
                validate_session: false,
                validation_timeout_secs: 30,
                async_validation: true,
            },
        }
    }

    /// Checks the values that the service cannot run with: `Ok` when there
    /// is none, else every problem found, in order.
    pub fn validate(&self) -> (r: std::result::Result<(), Vec<String>>)
        ensures
            match r {
                Ok(_) => config_errors(*self).len() == 0,
                Err(errs) => config_errors(*self).len() > 0 && errs@.map_values(|s: String| s@)
                    == config_errors(*self),
            },
    {
        let mut errors: Vec<String> = Vec::new();
        let ghost e0: Seq<Seq<char>> = if self.server.port == 0 { seq!["server.port cannot be 0"@] } else { Seq::empty() };
        let ghost e1: Seq<Seq<char>> = if self.server.sync_inference_concurrency == 0 { seq!["sync_inference_concurrency must be > 0"@] } else { Seq::empty() };
        let ghost e2: Seq<Seq<char>> = if self.database.max_connections == 0 { seq!["database.max_connections must be > 0"@] } else { Seq::empty() };
        let ghost e3: Seq<Seq<char>> = if self.onnx.cache_size == 0 { seq!["onnx.cache_size must be > 0"@] } else { Seq::empty() };
        if self.server.port == 0 {
            errors.push("server.port cannot be 0".to_owned());
        }
        assert(errors@.map_values(|s: String| s@) =~= e0);
        if self.server.sync_inference_concurrency == 0 {
            errors.push("sync_inference_concurrency must be > 0".to_owned());
        }
        assert(errors@.map_values(|s: String| s@) =~= e0 + e1);
        if self.database.max_connections == 0 {
            errors.push("database.max_connections must be > 0".to_owned());
        }
        assert(errors@.map_values(|s: String| s@) =~= e0 + e1 + e2);
        if self.onnx.cache_size == 0 {
            errors.push("onnx.cache_size must be > 0".to_owned());
        }
        assert(errors@.map_values(|s: String| s@) =~= e0 + e1 + e2 + e3);
        if errors.len() == 0 {
            Ok(())
        } else {
            Err(errors)
        }
    }
}

/// The development configuration passes validation.
pub proof fn lemma_default_dev_is_valid(c: Config)
    requires
        is_default_server(c.server),
        is_default_rate_limit(c.rate_limit),
        is_default_auth(c.auth),
        is_default_database(c.database),
        is_default_redis(c.redis),
        is_default_storage(c.storage),
        is_default_onnx(c.onnx),
        is_default_logging(c.logging),
        is_default_worker(c.worker),
        is_default_cleanup(c.cleanup),
        is_default_model_validation(c.model_validation),
    ensures
        config_errors(c).len() == 0,
{
}

} // verus!
