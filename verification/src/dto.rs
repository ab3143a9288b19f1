//! The records as the API shows them: identifiers and times as text.
use vstd::prelude::*;
use vstd::string::*;
use uuid::Uuid;
use crate::text::string_of;
use crate::utils::{hyphenated_uuid, uuid_from_text};
use vstd::utf8::encode_utf8;
use crate::types::{ApiKeyRecord, InferenceTask, ModelInfo, User, UserRole, task_status_name};

verus! {

/// The hyphenated lowercase text of a UUID.
pub uninterp spec fn uuid_text(u: Uuid) -> Seq<char>;

/// Calls `Uuid::to_string`. Claims that the text is the hyphenated form,
/// which `Uuid::parse_str` reads back as the same UUID.
#[verifier::external_body]
pub(crate) fn uuid_to_text(u: &Uuid) -> (s: String)
    ensures
        s@ == uuid_text(*u),
        hyphenated_uuid(encode_utf8(s@)),
        uuid_from_text(encode_utf8(s@)) == *u,
{
    u.to_string()
}

/// The RFC 3339 text of a time given in milliseconds since the Unix epoch,
/// as chrono writes it for UTC; `None` for a time chrono cannot represent.
pub uninterp spec fn rfc3339_text(millis: i64) -> Option<Seq<char>>;

/// Calls `chrono::DateTime::from_timestamp_millis` and `to_rfc3339`.
#[verifier::external_body]
fn millis_to_rfc3339(millis: i64) -> (s: Option<String>)
    ensures
        match s {
            Some(t) => rfc3339_text(millis) == Some(t@),
            None => rfc3339_text(millis) is None,
        },
{
    chrono::DateTime::from_timestamp_millis(millis).map(|t| t.to_rfc3339())
}

/// The text of a time, or empty for a time that cannot be written.
pub open spec fn time_text(millis: i64) -> Seq<char> {
    match rfc3339_text(millis) {
        Some(t) => t,
        None => Seq::empty(),
    }
}

/// The text of a time, or empty for a time that cannot be written.
pub(crate) fn time_to_text(millis: i64) -> (s: String)
    ensures
        s@ == time_text(millis),
{
    match millis_to_rfc3339(millis) {
        Some(t) => t,
        None => String::new(),
    }
}

fn optional_time_text(millis: Option<i64>) -> (s: Option<String>)
    ensures
        match millis {
            Some(m) => s matches Some(t) && t@ == time_text(m),
            None => s is None,
        },
{
    match millis {
        Some(m) => Some(time_to_text(m)),
        None => None,
    }
}

/// An API key as the API shows it.
#[derive(Debug, Clone)]
pub struct ApiKeyDetail {
    pub id: String,
    pub name: String,
    pub is_active: bool,
    pub is_temporary: bool,
    pub last_used_at: Option<String>,
    pub expires_at: Option<String>,
    pub created_at: String,
}

impl ApiKeyDetail {
    /// The shown form of a stored key; its hash is never shown.
    pub fn from_record(key: ApiKeyRecord) -> (d: ApiKeyDetail)
        ensures
            d.id@ == uuid_text(key.id),
            d.name == key.name,
            d.is_active == key.is_active,
            d.is_temporary == key.is_temporary,
            match key.last_used_at {
                Some(m) => d.last_used_at matches Some(t) && t@ == time_text(m),
                None => d.last_used_at is None,
            },
            match key.expires_at {
                Some(m) => d.expires_at matches Some(t) && t@ == time_text(m),
                None => d.expires_at is None,
            },
            d.created_at@ == time_text(key.created_at),
    {
        ApiKeyDetail {
            id: uuid_to_text(&key.id),
            name: key.name,
            is_active: key.is_active,
            is_temporary: key.is_temporary,
            last_used_at: optional_time_text(key.last_used_at),
            expires_at: optional_time_text(key.expires_at),
            created_at: time_to_text(key.created_at),
        }
    }
}

/// A user as the API shows it; the role is `user` or `admin`.
#[derive(Debug, Clone)]
pub struct UserDetail {
    pub id: String,
    pub username: String,
    pub role: String,
    pub is_active: bool,
    pub created_at: String,
}

pub open spec fn role_text(r: UserRole) -> Seq<char> {
    match r {
        UserRole::User => "user"@,
        UserRole::Admin => "admin"@,
    }
}

impl UserDetail {
    /// The shown form of a user; the password hash is never shown.
    pub fn from_user(user: User) -> (d: UserDetail)
        ensures
            d.id@ == uuid_text(user.id),
            d.username == user.username,
            d.role@ == role_text(user.role),
            d.is_active == user.is_active,
            d.created_at@ == time_text(user.created_at),
    {
        proof {
            reveal_strlit("user");
            reveal_strlit("admin");
        }
        let role = match user.role {
            UserRole::User => string_of("user"),
            UserRole::Admin => string_of("admin"),
        };
        UserDetail {
            id: uuid_to_text(&user.id),
            username: user.username,
            role,
            is_active: user.is_active,
            created_at: time_to_text(user.created_at),
        }
    }
}

/// A model as the API shows it, with its usability.
#[derive(Debug, Clone)]
pub struct ModelDetail {
    pub id: String,
    pub name: String,
    pub version: String,
    pub file_path: String,
    pub file_size: Option<i64>,
    pub input_shapes: Option<serde_json::Value>,
    pub output_shapes: Option<serde_json::Value>,
    pub metadata: Option<serde_json::Value>,
    pub is_valid: bool,
    pub validation_error: Option<String>,
    pub created_at: String,
    pub updated_at: String,
}

impl ModelDetail {
    /// The shown form of a model: valid when validated and configured, with
    /// the reason when it is not.
    pub fn from_model(model: ModelInfo) -> (d: ModelDetail)
        ensures
            d.id@ == uuid_text(model.id),
            d.name == model.name,
            d.version == model.version,
            d.file_path == model.file_path,
            d.file_size == model.file_size,
            d.input_shapes == model.input_shapes,
            d.output_shapes == model.output_shapes,
            d.metadata == model.metadata,
            d.is_valid == (model.metadata is Some && model.input_shapes is Some),
            model.input_shapes is None ==> (d.validation_error matches Some(m) && m@ == "Model failed validation"@),
            model.input_shapes is Some && model.metadata is None ==> (d.validation_error matches Some(m)
                && m@ == "Missing preprocessing config"@),
            model.input_shapes is Some && model.metadata is Some ==> d.validation_error is None,
            d.created_at@ == time_text(model.created_at),
            d.updated_at@ == time_text(model.updated_at),
    {
        let is_valid = model.is_valid();
        let validation_error = model.validation_error();
        ModelDetail {
            id: uuid_to_text(&model.id),
            name: model.name,
            version: model.version,
            file_path: model.file_path,
            file_size: model.file_size,
            input_shapes: model.input_shapes,
            output_shapes: model.output_shapes,
            metadata: model.metadata,
            is_valid,
            validation_error,
            created_at: time_to_text(model.created_at),
            updated_at: time_to_text(model.updated_at),
        }
    }
}

/// Whether a JSON document is an object.
pub uninterp spec fn json_is_object(v: serde_json::Value) -> bool;

/// Calls `serde_json::Value::is_object`.
#[verifier::external_body]
fn json_value_is_object(v: &serde_json::Value) -> (b: bool)
    ensures
        b == json_is_object(*v),
{
    v.is_object()
}

/// A task as the API shows it; its outputs are shown when they are a JSON
/// object of named outputs.
#[derive(Debug, Clone)]
pub struct TaskDetail {
    pub task_id: String,
    pub model_id: String,
    pub status: String,
    pub outputs: Option<serde_json::Value>,
    pub error_message: Option<String>,
    pub created_at: String,
    pub completed_at: Option<String>,
    pub latency_ms: Option<i64>,
}

impl TaskDetail {
    /// The shown form of a task, with its latency when it has run.
    pub fn from_task(task: InferenceTask) -> (d: TaskDetail)
        requires
            task.started_at matches Some(s) && task.completed_at matches Some(c) ==> i64::MIN <= c - s <= i64::MAX,
        ensures
            d.task_id@ == uuid_text(task.id),
            d.model_id@ == uuid_text(task.model_id),
            d.status@ == task_status_name(task.status),
            match task.outputs {
                Some(v) => if json_is_object(v) { d.outputs == Some(v) } else { d.outputs is None },
                None => d.outputs is None,
            },
            d.error_message == task.error_message,
            d.created_at@ == time_text(task.created_at),
            match task.completed_at {
                Some(m) => d.completed_at matches Some(t) && t@ == time_text(m),
                None => d.completed_at is None,
            },
            d.latency_ms == match (task.started_at, task.completed_at) {
                (Some(s), Some(c)) => Some((c - s) as i64),
                _ => None::<i64>,
            },
    {
        let latency_ms = task.latency_ms();
        let outputs = match task.outputs {
            Some(v) => if json_value_is_object(&v) {
                Some(v)
            } else {
                None
            },
            None => None,
        };
        TaskDetail {
            task_id: uuid_to_text(&task.id),
            model_id: uuid_to_text(&task.model_id),
            status: string_of(task.status.as_str()),
            outputs,
            error_message: task.error_message,
            created_at: time_to_text(task.created_at),
            completed_at: optional_time_text(task.completed_at),
            latency_ms,
        }
    }
}

} // verus!
