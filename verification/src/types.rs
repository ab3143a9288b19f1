//! Value types shared by the service: tensor element types, model states,
//! task states and priorities, user roles and permissions.
use vstd::prelude::*;
use crate::text::{str_eq, string_of, strings_view, vec_contains_str};
use crate::constants::{REDIS_STREAM_KEY_HIGH, REDIS_STREAM_KEY_LOW, REDIS_STREAM_KEY_NORMAL};
use vstd::std_specs::convert::FromSpecImpl;
use vstd::string::*;
use uuid::Uuid;

verus! {

/// The element type of a tensor.
#[derive(Debug, Clone, Copy, PartialEq, Eq, Structural)]
pub enum TensorDataType {
    Float32,
    Int8,
    Int64,
}

/// The canonical name of an element type.
pub open spec fn tensor_data_type_name(t: TensorDataType) -> Seq<char> {
    match t {
        TensorDataType::Float32 => "float32"@,
        TensorDataType::Int8 => "int8"@,
        TensorDataType::Int64 => "int64"@,
    }
}

/// The element type that a name denotes: the canonical names and the short
/// forms `f32`, `i8`, `i64`.
pub open spec fn tensor_data_type_from_name(s: Seq<char>) -> Option<TensorDataType> {
    if s == "float32"@ || s == "f32"@ {
        Some(TensorDataType::Float32)
    } else if s == "int8"@ || s == "i8"@ {
        Some(TensorDataType::Int8)
    } else if s == "int64"@ || s == "i64"@ {
        Some(TensorDataType::Int64)
    } else {
        None
    }
}

/// The size in bytes of one element.
pub open spec fn tensor_element_size(t: TensorDataType) -> nat {
    match t {
        TensorDataType::Float32 => 4,
        TensorDataType::Int8 => 1,
        TensorDataType::Int64 => 8,
    }
}

impl TensorDataType {
    pub fn as_str(&self) -> (s: &'static str)
        ensures
            s@ == tensor_data_type_name(*self),
    {
        match self {
            TensorDataType::Float32 => "float32",
            TensorDataType::Int8 => "int8",
            TensorDataType::Int64 => "int64",
        }
    }

    pub fn from_str(s: &str) -> (r: Option<TensorDataType>)
        ensures
            r == tensor_data_type_from_name(s@),
    {
        if str_eq(s, "float32") || str_eq(s, "f32") {
            Some(TensorDataType::Float32)
        } else if str_eq(s, "int8") || str_eq(s, "i8") {
            Some(TensorDataType::Int8)
        } else if str_eq(s, "int64") || str_eq(s, "i64") {
            Some(TensorDataType::Int64)
        } else {
            None
        }
    }

    pub fn element_size(&self) -> (n: usize)
        ensures
            n == tensor_element_size(*self),
    {
        match self {
            TensorDataType::Float32 => 4,
            TensorDataType::Int8 => 1,
            TensorDataType::Int64 => 8,
        }
    }
}

/// Whether a model is already loaded by a worker or only available to it.
#[derive(Debug, Clone, Copy, PartialEq, Eq, Structural)]
pub enum ModelState {
    Cached,
    Available,
}

pub open spec fn model_state_name(m: ModelState) -> Seq<char> {
    match m {
        ModelState::Cached => "cached"@,
        ModelState::Available => "available"@,
    }
}

pub open spec fn model_state_from_name(s: Seq<char>) -> Option<ModelState> {
    if s == "cached"@ {
        Some(ModelState::Cached)
    } else if s == "available"@ {
        Some(ModelState::Available)
    } else {
        None
    }
}

/// The routing score of a state: lower scores are preferred.
pub open spec fn model_state_score(m: ModelState) -> int {
    match m {
        ModelState::Cached => 0,
        ModelState::Available => 1,
    }
}

impl ModelState {
    pub fn as_str(&self) -> (s: &'static str)
        ensures
            s@ == model_state_name(*self),
    {
        match self {
            ModelState::Cached => "cached",
            ModelState::Available => "available",
        }
    }

    pub fn from_str(s: &str) -> (r: Option<ModelState>)
        ensures
            r == model_state_from_name(s@),
    {
        if str_eq(s, "cached") {
            Some(ModelState::Cached)
        } else if str_eq(s, "available") {
            Some(ModelState::Available)
        } else {
            None
        }
    }

    pub fn priority_score(&self) -> (r: i64)
        ensures
            r == model_state_score(*self),
    {
        match self {
            ModelState::Cached => 0,
            ModelState::Available => 1,
        }
    }
}

/// The role of a user account.
#[derive(Debug, Clone, Copy, PartialEq, Eq, Structural)]
pub enum UserRole {
    User,
    Admin,
}

/// The state of an inference task.
#[derive(Debug, Clone, Copy, PartialEq, Eq, Structural)]
pub enum TaskStatus {
    Pending,
    Running,
    Completed,
    Failed,
    Cancelled,
}

pub open spec fn task_status_name(t: TaskStatus) -> Seq<char> {
    match t {
        TaskStatus::Pending => "pending"@,
        TaskStatus::Running => "running"@,
        TaskStatus::Completed => "completed"@,
        TaskStatus::Failed => "failed"@,
        TaskStatus::Cancelled => "cancelled"@,
    }
}

pub open spec fn task_status_from_name(s: Seq<char>) -> Option<TaskStatus> {
    if s == "pending"@ {
        Some(TaskStatus::Pending)
    } else if s == "running"@ {
        Some(TaskStatus::Running)
    } else if s == "completed"@ {
        Some(TaskStatus::Completed)
    } else if s == "failed"@ {
        Some(TaskStatus::Failed)
    } else if s == "cancelled"@ {
        Some(TaskStatus::Cancelled)
    } else {
        None
    }
}

/// A task has finished, one way or another.
pub open spec fn task_status_terminal(t: TaskStatus) -> bool {
    t == TaskStatus::Completed || t == TaskStatus::Failed || t == TaskStatus::Cancelled
}

impl TaskStatus {
    pub fn as_str(&self) -> (s: &'static str)
        ensures
            s@ == task_status_name(*self),
    {
        match self {
            TaskStatus::Pending => "pending",
            TaskStatus::Running => "running",
            TaskStatus::Completed => "completed",
            TaskStatus::Failed => "failed",
            TaskStatus::Cancelled => "cancelled",
        }
    }

    pub fn from_str(s: &str) -> (r: Option<TaskStatus>)
        ensures
            r == task_status_from_name(s@),
    {
        if str_eq(s, "pending") {
            Some(TaskStatus::Pending)
        } else if str_eq(s, "running") {
            Some(TaskStatus::Running)
        } else if str_eq(s, "completed") {
            Some(TaskStatus::Completed)
        } else if str_eq(s, "failed") {
            Some(TaskStatus::Failed)
        } else if str_eq(s, "cancelled") {
            Some(TaskStatus::Cancelled)
        } else {
            None
        }
    }

    pub fn is_terminal(&self) -> (r: bool)
        ensures
            r == task_status_terminal(*self),
    {
        match self {
            TaskStatus::Completed | TaskStatus::Failed | TaskStatus::Cancelled => true,
            _ => false,
        }
    }
}

/// The priority of an asynchronous task; it selects the queue a task goes to.
#[derive(Debug, Clone, Copy, PartialEq, Eq, Structural)]
pub enum TaskPriority {
    Low,
    Normal,
    High,
}

/// The numeric value of a priority.
pub open spec fn task_priority_value(p: TaskPriority) -> int {
    match p {
        TaskPriority::Low => 1,
        TaskPriority::Normal => 5,
        TaskPriority::High => 10,
    }
}

/// The priority that a stored number stands for: 1 to 3 is low, 4 to 7 is
/// normal, anything else is high.
pub open spec fn task_priority_of_value(v: int) -> TaskPriority {
    if 1 <= v <= 3 {
        TaskPriority::Low
    } else if 4 <= v <= 7 {
        TaskPriority::Normal
    } else {
        TaskPriority::High
    }
}

/// The queue that holds tasks of a priority.
pub open spec fn task_priority_stream(p: TaskPriority) -> Seq<char> {
    match p {
        TaskPriority::High => REDIS_STREAM_KEY_HIGH@,
        TaskPriority::Normal => REDIS_STREAM_KEY_NORMAL@,
        TaskPriority::Low => REDIS_STREAM_KEY_LOW@,
    }
}

impl TaskPriority {
    pub fn as_i32(&self) -> (r: i32)
        ensures
            r == task_priority_value(*self),
    {
        match self {
            TaskPriority::Low => 1,
            TaskPriority::Normal => 5,
            TaskPriority::High => 10,
        }
    }

    pub fn from_i32(value: i32) -> (r: TaskPriority)
        ensures
            r == task_priority_of_value(value as int),
    {
        if 1 <= value && value <= 3 {
            TaskPriority::Low
        } else if 4 <= value && value <= 7 {
            TaskPriority::Normal
        } else {
            TaskPriority::High
        }
    }

    pub fn stream_key(&self) -> (s: &'static str)
        ensures
            s@ == task_priority_stream(*self),
    {
        match self {
            TaskPriority::High => REDIS_STREAM_KEY_HIGH,
            TaskPriority::Normal => REDIS_STREAM_KEY_NORMAL,
            TaskPriority::Low => REDIS_STREAM_KEY_LOW,
        }
    }
}

impl Default for TaskPriority {
    fn default() -> (r: TaskPriority)
        ensures
            r == TaskPriority::Normal,
    {
        TaskPriority::Normal
    }
}

/// What an API key may do. Each list holds the actions granted on one kind
/// of resource; `admin` grants everything.
#[derive(Debug, Clone)]
pub struct Permissions {
    pub models: Vec<String>,
    pub inference: Vec<String>,
    pub api_keys: Vec<String>,
    pub admin: bool,
}

/// The granted action `action` occurs in a list of grants.
pub open spec fn grants(list: Seq<String>, action: Seq<char>) -> bool {
    strings_view(list).contains(action)
}

impl Permissions {
    pub open spec fn spec_can_read_models(&self) -> bool {
        grants(self.models@, "read"@) || self.admin
    }

    pub open spec fn spec_can_write_models(&self) -> bool {
        grants(self.models@, "write"@) || self.admin
    }

    pub open spec fn spec_can_delete_models(&self) -> bool {
        grants(self.models@, "delete"@) || self.admin
    }

    pub open spec fn spec_can_execute_inference(&self) -> bool {
        grants(self.inference@, "execute"@) || self.admin
    }

    /// The grants of an ordinary user: read models, run inference, read and
    /// write its own keys.
    pub fn user_default() -> (p: Permissions)
        ensures
            strings_view(p.models@) == seq!["read"@],
            strings_view(p.inference@) == seq!["execute"@],
            strings_view(p.api_keys@) == seq!["read"@, "write"@],
            !p.admin,
    {
        let p = Permissions {
            models: vec![string_of("read")],
            inference: vec![string_of("execute")],
            api_keys: vec![string_of("read"), string_of("write")],
            admin: false,
        };
        assert(strings_view(p.models@) =~= seq!["read"@]);
        assert(strings_view(p.inference@) =~= seq!["execute"@]);
        assert(strings_view(p.api_keys@) =~= seq!["read"@, "write"@]);
        p
    }

    /// The grants of an administrator: everything.
    pub fn admin_default() -> (p: Permissions)
        ensures
            strings_view(p.models@) == seq!["read"@, "write"@, "delete"@],
            strings_view(p.inference@) == seq!["execute"@],
            strings_view(p.api_keys@) == seq!["read"@, "write"@, "delete"@],
            p.admin,
    {
        let p = Permissions {
            models: vec![string_of("read"), string_of("write"), string_of("delete")],
            inference: vec![string_of("execute")],
            api_keys: vec![string_of("read"), string_of("write"), string_of("delete")],
            admin: true,
        };
        assert(strings_view(p.models@) =~= seq!["read"@, "write"@, "delete"@]);
        assert(strings_view(p.inference@) =~= seq!["execute"@]);
        assert(strings_view(p.api_keys@) =~= seq!["read"@, "write"@, "delete"@]);
        p
    }

    pub fn can_read_models(&self) -> (r: bool)
        ensures
            r == self.spec_can_read_models(),
    {
        vec_contains_str(&self.models, "read") || self.admin
    }

    pub fn can_write_models(&self) -> (r: bool)
        ensures
            r == self.spec_can_write_models(),
    {
        vec_contains_str(&self.models, "write") || self.admin
    }

    pub fn can_delete_models(&self) -> (r: bool)
        ensures
            r == self.spec_can_delete_models(),
    {
        vec_contains_str(&self.models, "delete") || self.admin
    }

    pub fn can_execute_inference(&self) -> (r: bool)
        ensures
            r == self.spec_can_execute_inference(),
    {
        vec_contains_str(&self.inference, "execute") || self.admin
    }
}

impl Default for Permissions {
    /// No grants at all.
    fn default() -> (p: Permissions)
        ensures
            p.models@.len() == 0,
            p.inference@.len() == 0,
            p.api_keys@.len() == 0,
            !p.admin,
    {
        Permissions { models: Vec::new(), inference: Vec::new(), api_keys: Vec::new(), admin: false }
    }
}

#[verifier::external_type_specification]
#[verifier::external_body]
pub struct ExJsonValue(serde_json::Value);

/// `Clone` of a JSON document. Nothing is claimed of the copy.
pub assume_specification[ <serde_json::Value as Clone>::clone ](v: &serde_json::Value) -> (r: serde_json::Value);

/// `Clone` of a UUID, which is `Copy`: the copy is the same UUID.
pub assume_specification[ <Uuid as Clone>::clone ](u: &Uuid) -> (r: Uuid)
    ensures
        r == *u,
;

/// Calls `chrono::Utc::now` and gives the time in milliseconds since the
/// Unix epoch. Nothing is claimed of the time.
#[verifier::external_body]
pub(crate) fn utc_now_millis() -> (t: i64) {
    chrono::Utc::now().timestamp_millis()
}

/// A user account. Times are in milliseconds since the Unix epoch.
#[derive(Debug, Clone)]
pub struct User {
    pub id: Uuid,
    pub username: String,
    pub password_hash: String,
    pub role: UserRole,
    pub is_active: bool,
    pub created_at: i64,
    pub updated_at: i64,
}

/// A key that expires at `expires_at` (milliseconds since the Unix epoch) has
/// expired at any later time; a key without an expiry never expires.
pub open spec fn expired_at(expires_at: Option<i64>, now: i64) -> bool {
    match expires_at {
        Some(exp) => now > exp,
        None => false,
    }
}

/// A stored API key. Times are in milliseconds since the Unix epoch.
#[derive(Debug, Clone)]
pub struct ApiKeyRecord {
    pub id: Uuid,
    pub user_id: Uuid,
    pub key_hash: String,
    pub name: String,
    pub permissions: Permissions,
    pub is_active: bool,
    pub is_temporary: bool,
    pub last_used_at: Option<i64>,
    pub expires_at: Option<i64>,
    pub created_at: i64,
    pub updated_at: i64,
}

impl ApiKeyRecord {
    /// Whether the key has expired at `now`.
    pub fn is_expired_at(&self, now: i64) -> (r: bool)
        ensures
            r == expired_at(self.expires_at, now),
    {
        match self.expires_at {
            Some(exp) => now > exp,
            None => false,
        }
    }

    /// Whether the key has expired by the clock; a key without an expiry
    /// never has.
    pub fn is_expired(&self) -> (r: bool)
        ensures
            exists|now: i64| r == #[trigger] expired_at(self.expires_at, now),
            self.expires_at is None ==> !r,
    {
        let now = utc_now_millis();
        let r = self.is_expired_at(now);
        assert(r == expired_at(self.expires_at, now));
        r
    }

    /// Whether the key is active and unexpired at `now`.
    pub fn is_valid_at(&self, now: i64) -> (r: bool)
        ensures
            r == (self.is_active && !expired_at(self.expires_at, now)),
    {
        self.is_active && !self.is_expired_at(now)
    }

    /// Whether the key is active and unexpired by the clock: an inactive key
    /// never is, an active key without an expiry always is.
    pub fn is_valid(&self) -> (r: bool)
        ensures
            exists|now: i64| r == (self.is_active && !#[trigger] expired_at(self.expires_at, now)),
            !self.is_active ==> !r,
            self.is_active && self.expires_at is None ==> r,
    {
        let now = utc_now_millis();
        let r = self.is_valid_at(now);
        let ghost expired = expired_at(self.expires_at, now);
        assert(r == (self.is_active && !expired));
        r
    }
}

/// What a request learns of the API key that authenticated it.
#[derive(Debug, Clone)]
pub struct ApiKeyInfo {
    pub id: Uuid,
    pub user_id: Uuid,
    pub name: String,
    pub permissions: Permissions,
    pub is_active: bool,
    pub is_temporary: bool,
    pub expires_at: Option<i64>,
}

impl From<ApiKeyRecord> for ApiKeyInfo {
    fn from(record: ApiKeyRecord) -> (info: ApiKeyInfo)
        ensures
            info == (ApiKeyInfo {
                id: record.id,
                user_id: record.user_id,
                name: record.name,
                permissions: record.permissions,
                is_active: record.is_active,
                is_temporary: record.is_temporary,
                expires_at: record.expires_at,
            }),
    {
        ApiKeyInfo {
            id: record.id,
            user_id: record.user_id,
            name: record.name,
            permissions: record.permissions,
            is_active: record.is_active,
            is_temporary: record.is_temporary,
            expires_at: record.expires_at,
        }
    }
}

impl FromSpecImpl<ApiKeyRecord> for ApiKeyInfo {
    open spec fn obeys_from_spec() -> bool {
        true
    }

    open spec fn from_spec(record: ApiKeyRecord) -> ApiKeyInfo {
        ApiKeyInfo {
            id: record.id,
            user_id: record.user_id,
            name: record.name,
            permissions: record.permissions,
            is_active: record.is_active,
            is_temporary: record.is_temporary,
            expires_at: record.expires_at,
        }
    }
}

impl ApiKeyInfo {
    /// Whether the key has expired at `now`.
    pub fn is_expired_at(&self, now: i64) -> (r: bool)
        ensures
            r == expired_at(self.expires_at, now),
    {
        match self.expires_at {
            Some(exp) => now > exp,
            None => false,
        }
    }

    /// Whether the key has expired by the clock; a key without an expiry
    /// never has.
    pub fn is_expired(&self) -> (r: bool)
        ensures
            exists|now: i64| r == #[trigger] expired_at(self.expires_at, now),
            self.expires_at is None ==> !r,
    {
        let now = utc_now_millis();
        let r = self.is_expired_at(now);
        assert(r == expired_at(self.expires_at, now));
        r
    }

    /// Whether the key is active and unexpired at `now`.
    pub fn is_valid_at(&self, now: i64) -> (r: bool)
        ensures
            r == (self.is_active && !expired_at(self.expires_at, now)),
    {
        self.is_active && !self.is_expired_at(now)
    }

    /// Whether the key is active and unexpired by the clock: an inactive key
    /// never is, an active key without an expiry always is.
    pub fn is_valid(&self) -> (r: bool)
        ensures
            exists|now: i64| r == (self.is_active && !#[trigger] expired_at(self.expires_at, now)),
            !self.is_active ==> !r,
            self.is_active && self.expires_at is None ==> r,
    {
        let now = utc_now_millis();
        let r = self.is_valid_at(now);
        let ghost expired = expired_at(self.expires_at, now);
        assert(r == (self.is_active && !expired));
        r
    }
}

/// A registered model. The shapes and metadata are JSON documents; times are
/// in milliseconds since the Unix epoch.
#[derive(Debug, Clone)]
pub struct ModelInfo {
    pub id: Uuid,
    pub name: String,
    pub version: String,
    pub file_path: String,
    pub file_size: Option<i64>,
    pub storage_backend: String,
    pub input_shapes: Option<serde_json::Value>,
    pub output_shapes: Option<serde_json::Value>,
    pub metadata: Option<serde_json::Value>,
    pub created_at: i64,
    pub updated_at: i64,
}

impl ModelInfo {
    /// `name:version`, the key under which a model is unique.
    pub fn unique_key(&self) -> (k: String)
        ensures
            k@ == self.name@ + ":"@ + self.version@,
    {
        let mut k = self.name.clone();
        k.append(":");
        k.append(self.version.as_str());
        proof { reveal_strlit(":"); }
        k
    }

    /// A model is usable when it has passed validation (its input shapes are
    /// known) and has its preprocessing configuration.
    pub fn is_valid(&self) -> (r: bool)
        ensures
            r == (self.metadata is Some && self.input_shapes is Some),
    {
        self.metadata.is_some() && self.input_shapes.is_some()
    }

    /// Whether the model has its preprocessing configuration.
    pub fn has_config(&self) -> (r: bool)
        ensures
            r == self.metadata is Some,
    {
        self.metadata.is_some()
    }

    /// Why the model is not usable: failed validation first, then a missing
    /// configuration; `None` for a usable model.
    pub fn validation_error(&self) -> (r: Option<String>)
        ensures
            self.input_shapes is None ==> (r matches Some(m) && m@ == "Model failed validation"@),
            self.input_shapes is Some && self.metadata is None ==> (r matches Some(m)
                && m@ == "Missing preprocessing config"@),
            self.input_shapes is Some && self.metadata is Some ==> r is None,
    {
        if self.input_shapes.is_none() {
            proof { reveal_strlit("Model failed validation"); }
            return Some(string_of("Model failed validation"));
        }
        if self.metadata.is_none() {
            proof { reveal_strlit("Missing preprocessing config"); }
            return Some(string_of("Missing preprocessing config"));
        }
        None
    }
}

/// A queued inference request. Times are in milliseconds since the Unix epoch.
#[derive(Debug, Clone)]
pub struct InferenceTask {
    pub id: Uuid,
    pub model_id: Uuid,
    pub user_id: Uuid,
    pub api_key_id: Uuid,
    pub status: TaskStatus,
    pub inputs: serde_json::Value,
    pub outputs: Option<serde_json::Value>,
    pub error_message: Option<String>,
    pub priority: i32,
    pub retry_count: i32,
    pub created_at: i64,
    pub started_at: Option<i64>,
    pub completed_at: Option<i64>,
}

impl InferenceTask {
    /// The priority class of the task's numeric priority.
    pub fn priority_enum(&self) -> (p: TaskPriority)
        ensures
            p == task_priority_of_value(self.priority as int),
    {
        TaskPriority::from_i32(self.priority)
    }

    /// The time from start to completion, when the task has both.
    pub fn latency_ms(&self) -> (r: Option<i64>)
        requires
            self.started_at matches Some(s) && self.completed_at matches Some(c) ==> i64::MIN <= c - s <= i64::MAX,
        ensures
            r == match (self.started_at, self.completed_at) {
                (Some(s), Some(c)) => Some((c - s) as i64),
                _ => None::<i64>,
            },
    {
        match (self.started_at, self.completed_at) {
            (Some(s), Some(c)) => Some(c - s),
            _ => None,
        }
    }
}

/// How a model listing is narrowed.
#[derive(Debug, Clone)]
pub struct ModelFilter {
    pub name: Option<String>,
    pub is_valid: Option<bool>,
    pub limit: Option<usize>,
    pub offset: Option<usize>,
}

impl Default for ModelFilter {
    /// No narrowing.
    fn default() -> (f: ModelFilter)
        ensures
            f.name is None && f.is_valid is None && f.limit is None && f.offset is None,
    {
        ModelFilter { name: None, is_valid: None, limit: None, offset: None }
    }
}

/// Changes to a user; a field left `None` is not changed.
#[derive(Debug, Clone)]
pub struct UserUpdates {
    pub username: Option<String>,
    pub password_hash: Option<String>,
    pub role: Option<UserRole>,
    pub is_active: Option<bool>,
}

impl Default for UserUpdates {
    /// No change.
    fn default() -> (u: UserUpdates)
        ensures
            u.username is None && u.password_hash is None && u.role is None && u.is_active is None,
    {
        UserUpdates { username: None, password_hash: None, role: None, is_active: None }
    }
}

/// A model input or output: its name, shape and element type.
#[derive(Debug, Clone)]
pub struct TensorInfo {
    pub name: String,
    pub shape: Vec<i64>,
    pub element_type: String,
}

/// What a model file declares about itself.
#[derive(Debug, Clone)]
pub struct ModelMetadata {
    pub inputs: Vec<TensorInfo>,
    pub outputs: Vec<TensorInfo>,
    pub opset_version: Option<i64>,
    pub producer_name: Option<String>,
}

/// Reading back the name of an element type gives the element type.
pub proof fn lemma_tensor_data_type_name_round_trip(t: TensorDataType)
    ensures
        tensor_data_type_from_name(tensor_data_type_name(t)) == Some(t),
{
    reveal_strlit("float32");
    reveal_strlit("f32");
    reveal_strlit("int8");
    reveal_strlit("i8");
    reveal_strlit("int64");
    reveal_strlit("i64");
    assert("float32"@.len() == 7 && "f32"@.len() == 3 && "int8"@.len() == 4);
    assert("i8"@.len() == 2 && "int64"@.len() == 5 && "i64"@.len() == 3);
    assert("f32"@[0] != "i64"@[0]);
}

/// Reading back the name of a model state gives the state.
pub proof fn lemma_model_state_name_round_trip(m: ModelState)
    ensures
        model_state_from_name(model_state_name(m)) == Some(m),
{
    reveal_strlit("cached");
    reveal_strlit("available");
    assert("cached"@.len() != "available"@.len());
}

/// A worker that has the model loaded is preferred over one that only has
/// it available.
pub proof fn lemma_cached_preferred()
    ensures
        model_state_score(ModelState::Cached) < model_state_score(ModelState::Available),
{
}

/// Reading back the name of a task status gives the status.
pub proof fn lemma_task_status_name_round_trip(t: TaskStatus)
    ensures
        task_status_from_name(task_status_name(t)) == Some(t),
{
    reveal_strlit("pending");
    reveal_strlit("running");
    reveal_strlit("completed");
    reveal_strlit("failed");
    reveal_strlit("cancelled");
    assert("pending"@.len() == 7 && "running"@.len() == 7 && "completed"@.len() == 9);
    assert("failed"@.len() == 6 && "cancelled"@.len() == 9);
    assert("pending"@[0] != "running"@[0] && "completed"@[0] != "cancelled"@[1]);
    assert("completed"@[1] != "cancelled"@[1]);
}

/// Reading back the number of a priority gives the priority.
pub proof fn lemma_task_priority_value_round_trip(p: TaskPriority)
    ensures
        task_priority_of_value(task_priority_value(p)) == p,
{
}

/// Among stored numbers from 1 up, a larger number never means a lower priority.
pub proof fn lemma_task_priority_monotone(a: int, b: int)
    requires
        1 <= a <= b,
    ensures
        task_priority_value(task_priority_of_value(a)) <= task_priority_value(task_priority_of_value(b)),
{
}

/// The three priorities go to three different queues.
pub proof fn lemma_task_priority_streams_distinct(p: TaskPriority, q: TaskPriority)
    requires
        p != q,
    ensures
        task_priority_stream(p) != task_priority_stream(q),
{
    reveal_strlit("ferrinx:tasks:high");
    reveal_strlit("ferrinx:tasks:normal");
    reveal_strlit("ferrinx:tasks:low");
    assert("ferrinx:tasks:high"@.len() == 18);
    assert("ferrinx:tasks:normal"@.len() == 20);
    assert("ferrinx:tasks:low"@.len() == 17);
}

/// An administrator key may do everything, whatever its lists hold.
pub proof fn lemma_admin_may_do_everything(p: Permissions)
    requires
        p.admin,
    ensures
        p.spec_can_read_models(),
        p.spec_can_write_models(),
        p.spec_can_delete_models(),
        p.spec_can_execute_inference(),
{
}

} // verus!
