//! The errors of model storage, of the inference core, of the shared
//! utilities and of the tensor transforms, with their messages.
use vstd::prelude::*;
use vstd::string::*;
use vstd::std_specs::convert::FromSpecImpl;
use crate::text::{decimal_of, push_char, u64_to_decimal};

verus! {

#[verifier::external_type_specification]
#[verifier::external_body]
pub struct ExIoError(std::io::Error);

#[verifier::external_type_specification]
#[verifier::external_body]
pub struct ExJsonError(serde_json::Error);

#[verifier::external_type_specification]
#[verifier::external_body]
pub struct ExConfigError(config::ConfigError);

/// `prefix` followed by `detail`.
pub(crate) fn message(prefix: &str, detail: &str) -> (s: String)
    ensures
        s@ == prefix@ + detail@,
{
    let mut s = prefix.to_owned();
    s.append(detail);
    s
}

/// Errors of the model store.
#[derive(Debug)]
pub enum StorageError {
    IoError(std::io::Error),
    InvalidPath(String),
    FileNotFound(String),
}

/// The message of a storage error that names a path.
pub open spec fn storage_error_message(e: StorageError) -> Option<Seq<char>> {
    match e {
        StorageError::InvalidPath(p) => Some("Invalid path: "@ + p@),
        StorageError::FileNotFound(p) => Some("File not found: "@ + p@),
        _ => None,
    }
}

/// Whether `s` is the message of a storage error: for an I/O error,
/// `IO error: ` and the text the I/O error displays.
pub open spec fn storage_error_text(e: StorageError, s: Seq<char>) -> bool {
    match e {
        StorageError::IoError(x) => exists|t: String|
            #[trigger] to_string_from_display_ensures::<std::io::Error>(&x, t) && s == "IO error: "@ + t@,
        StorageError::InvalidPath(p) => s == "Invalid path: "@ + p@,
        StorageError::FileNotFound(p) => s == "File not found: "@ + p@,
    }
}

impl StorageError {
    /// The message of the error. For an I/O error it is `IO error: ` and the
    /// I/O error's own message.
    pub fn to_string(&self) -> (s: String)
        ensures
            storage_error_message(*self) matches Some(m) ==> s@ == m,
            storage_error_text(*self, s@),
    {
        match self {
            StorageError::IoError(e) => {
                let t = e.to_string();
                let s = message("IO error: ", t.as_str());
                assert(to_string_from_display_ensures::<std::io::Error>(e, t) && s@ == "IO error: "@ + t@);
                s
            },
            StorageError::InvalidPath(p) => message("Invalid path: ", p.as_str()),
            StorageError::FileNotFound(p) => message("File not found: ", p.as_str()),
        }
    }
}

impl From<std::io::Error> for StorageError {
    fn from(e: std::io::Error) -> (r: StorageError)
        ensures
            r == StorageError::IoError(e),
    {
        StorageError::IoError(e)
    }
}

impl FromSpecImpl<std::io::Error> for StorageError {
    open spec fn obeys_from_spec() -> bool {
        true
    }

    open spec fn from_spec(v: std::io::Error) -> StorageError {
        StorageError::IoError(v)
    }
}

/// Errors of the inference core.
#[derive(Debug)]
pub enum CoreError {
    ModelNotFound(String),
    ModelLoadFailed(String),
    InvalidModelFormat(String),
    ModelParseFailed(String),
    SessionCreationFailed(String),
    InferenceFailed(String),
    InferenceTimeout,
    ConcurrencyLimitReached,
    InputNotFound(String),
    InvalidInput(String),
    UnsupportedTensorType,
    UnsupportedInputType,
    ExecutionProviderError(String),
    ValidationTimeout,
    BlockingTaskFailed(String),
    OnnxRuntimeLibraryNotFound(String),
    StorageError(StorageError),
    IoError(std::io::Error),
    JsonError(serde_json::Error),
    NdarrayError(String),
}

/// The result type of the inference core.
pub type Result<T> = std::result::Result<T, CoreError>;

/// The message of a core error whose message is a fixed prefix and the
/// error's text.
pub open spec fn core_error_message(e: CoreError) -> Option<Seq<char>> {
    match e {
        CoreError::ModelNotFound(s) => Some("Model not found: "@ + s@),
        CoreError::ModelLoadFailed(s) => Some("Model load failed: "@ + s@),
        CoreError::InvalidModelFormat(s) => Some("Invalid model format: "@ + s@),
        CoreError::ModelParseFailed(s) => Some("Model parse failed: "@ + s@),
        CoreError::SessionCreationFailed(s) => Some("Session creation failed: "@ + s@),
        CoreError::InferenceFailed(s) => Some("Inference failed: "@ + s@),
        CoreError::InferenceTimeout => Some("Inference timeout"@),
        CoreError::ConcurrencyLimitReached => Some("Concurrency limit reached"@),
        CoreError::InputNotFound(s) => Some("Input not found: "@ + s@),
        CoreError::InvalidInput(s) => Some("Invalid input: "@ + s@),
        CoreError::UnsupportedTensorType => Some("Unsupported tensor type"@),
        CoreError::UnsupportedInputType => Some("Unsupported input type"@),
        CoreError::ExecutionProviderError(s) => Some("Execution provider error: "@ + s@),
        CoreError::ValidationTimeout => Some("Validation timeout"@),
        CoreError::BlockingTaskFailed(s) => Some("Blocking task failed: "@ + s@),
        CoreError::OnnxRuntimeLibraryNotFound(s) => Some("ONNX Runtime library not found: "@ + s@),
        CoreError::NdarrayError(s) => Some("Ndarray error: "@ + s@),
        CoreError::StorageError(e) => match storage_error_message(e) {
            Some(m) => Some("Storage error: "@ + m),
            None => None,
        },
        _ => None,
    }
}

/// Whether `s` is the message of a core error: for an error of another
/// library, a fixed prefix and that error's own text.
pub open spec fn core_error_text(e: CoreError, s: Seq<char>) -> bool {
    match e {
        CoreError::IoError(x) => exists|t: String|
            #[trigger] to_string_from_display_ensures::<std::io::Error>(&x, t) && s == "IO error: "@ + t@,
        CoreError::JsonError(x) => exists|t: String|
            #[trigger] to_string_from_display_ensures::<serde_json::Error>(&x, t) && s == "JSON error: "@ + t@,
        CoreError::StorageError(x) => exists|t: Seq<char>|
            #[trigger] storage_error_text(x, t) && s == "Storage error: "@ + t,
        _ => core_error_message(e) == Some(s),
    }
}

impl CoreError {
    /// The message of the error.
    pub fn to_string(&self) -> (s: String)
        ensures
            core_error_message(*self) matches Some(m) ==> s@ == m,
            core_error_text(*self, s@),
    {
        match self {
            CoreError::ModelNotFound(s) => message("Model not found: ", s.as_str()),
            CoreError::ModelLoadFailed(s) => message("Model load failed: ", s.as_str()),
            CoreError::InvalidModelFormat(s) => message("Invalid model format: ", s.as_str()),
            CoreError::ModelParseFailed(s) => message("Model parse failed: ", s.as_str()),
            CoreError::SessionCreationFailed(s) => message("Session creation failed: ", s.as_str()),
            CoreError::InferenceFailed(s) => message("Inference failed: ", s.as_str()),
            CoreError::InferenceTimeout => "Inference timeout".to_owned(),
            CoreError::ConcurrencyLimitReached => "Concurrency limit reached".to_owned(),
            CoreError::InputNotFound(s) => message("Input not found: ", s.as_str()),
            CoreError::InvalidInput(s) => message("Invalid input: ", s.as_str()),
            CoreError::UnsupportedTensorType => "Unsupported tensor type".to_owned(),
            CoreError::UnsupportedInputType => "Unsupported input type".to_owned(),
            CoreError::ExecutionProviderError(s) => message("Execution provider error: ", s.as_str()),
            CoreError::ValidationTimeout => "Validation timeout".to_owned(),
            CoreError::BlockingTaskFailed(s) => message("Blocking task failed: ", s.as_str()),
            CoreError::OnnxRuntimeLibraryNotFound(s) => message(
                "ONNX Runtime library not found: ",
                s.as_str(),
            ),
            CoreError::StorageError(e) => {
                let t = e.to_string();
                message("Storage error: ", t.as_str())
            },
            CoreError::IoError(e) => {
                let t = e.to_string();
                let s = message("IO error: ", t.as_str());
                assert(to_string_from_display_ensures::<std::io::Error>(e, t) && s@ == "IO error: "@ + t@);
                s
            },
            CoreError::JsonError(e) => {
                let t = e.to_string();
                let s = message("JSON error: ", t.as_str());
                assert(to_string_from_display_ensures::<serde_json::Error>(e, t) && s@ == "JSON error: "@ + t@);
                s
            },
            CoreError::NdarrayError(s) => message("Ndarray error: ", s.as_str()),
        }
    }
}

impl From<StorageError> for CoreError {
    fn from(e: StorageError) -> (r: CoreError)
        ensures
            r == CoreError::StorageError(e),
    {
        CoreError::StorageError(e)
    }
}

impl FromSpecImpl<StorageError> for CoreError {
    open spec fn obeys_from_spec() -> bool {
        true
    }

    open spec fn from_spec(v: StorageError) -> CoreError {
        CoreError::StorageError(v)
    }
}

impl From<std::io::Error> for CoreError {
    fn from(e: std::io::Error) -> (r: CoreError)
        ensures
            r == CoreError::IoError(e),
    {
        CoreError::IoError(e)
    }
}

impl FromSpecImpl<std::io::Error> for CoreError {
    open spec fn obeys_from_spec() -> bool {
        true
    }

    open spec fn from_spec(v: std::io::Error) -> CoreError {
        CoreError::IoError(v)
    }
}

impl From<serde_json::Error> for CoreError {
    fn from(e: serde_json::Error) -> (r: CoreError)
        ensures
            r == CoreError::JsonError(e),
    {
        CoreError::JsonError(e)
    }
}

impl FromSpecImpl<serde_json::Error> for CoreError {
    open spec fn obeys_from_spec() -> bool {
        true
    }

    open spec fn from_spec(v: serde_json::Error) -> CoreError {
        CoreError::JsonError(v)
    }
}

/// Errors of the shared utilities.
#[derive(Debug)]
pub enum CommonError {
    ConfigError(config::ConfigError),
    InvalidApiKeyFormat,
    EnvVarNotFound(String),
    InvalidUuid(String),
    SerializationError(serde_json::Error),
    IoError(std::io::Error),
    InvalidInput(String),
    NotFound(String),
}

impl CommonError {
    /// The message of the error.
    pub fn to_string(&self) -> (s: String)
        ensures
            match self {
                CommonError::InvalidApiKeyFormat => s@ == "Invalid API key format"@,
                CommonError::EnvVarNotFound(v) => s@ == "Environment variable not found: "@ + v@,
                CommonError::InvalidUuid(v) => s@ == "Invalid UUID: "@ + v@,
                CommonError::InvalidInput(v) => s@ == "Invalid input: "@ + v@,
                CommonError::NotFound(v) => s@ == "Not found: "@ + v@,
                CommonError::ConfigError(e) => exists|t: String|
                    to_string_from_display_ensures::<config::ConfigError>(&e, t) && s@ == "Configuration error: "@ + t@,
                CommonError::SerializationError(e) => exists|t: String|
                    to_string_from_display_ensures::<serde_json::Error>(&e, t) && s@ == "Serialization error: "@ + t@,
                CommonError::IoError(e) => exists|t: String|
                    to_string_from_display_ensures::<std::io::Error>(&e, t) && s@ == "IO error: "@ + t@,
            },
    {
        match self {
            CommonError::ConfigError(e) => {
                let t = e.to_string();
                let s = message("Configuration error: ", t.as_str());
                assert(to_string_from_display_ensures::<config::ConfigError>(e, t) && s@ == "Configuration error: "@ + t@);
                s
            },
            CommonError::InvalidApiKeyFormat => "Invalid API key format".to_owned(),
            CommonError::EnvVarNotFound(v) => message("Environment variable not found: ", v.as_str()),
            CommonError::InvalidUuid(v) => message("Invalid UUID: ", v.as_str()),
            CommonError::SerializationError(e) => {
                let t = e.to_string();
                let s = message("Serialization error: ", t.as_str());
                assert(to_string_from_display_ensures::<serde_json::Error>(e, t) && s@ == "Serialization error: "@ + t@);
                s
            },
            CommonError::IoError(e) => {
                let t = e.to_string();
                let s = message("IO error: ", t.as_str());
                assert(to_string_from_display_ensures::<std::io::Error>(e, t) && s@ == "IO error: "@ + t@);
                s
            },
            CommonError::InvalidInput(v) => message("Invalid input: ", v.as_str()),
            CommonError::NotFound(v) => message("Not found: ", v.as_str()),
        }
    }
}

/// Errors of the tensor and image transforms.
#[derive(Debug, Clone)]
pub enum TransformError {
    InvalidInput(String),
    InvalidBase64,
    ImageError(String),
    ShapeMismatch { expected: Vec<usize>, actual: Vec<usize> },
    NoLabels,
    UnsupportedOperation(String),
    JsonError(String),
}

/// A list of numbers as Rust's debug format writes it: `[1, 2, 3]`.
pub open spec fn list_text(v: Seq<usize>) -> Seq<char> {
    seq!['['] + list_items_text(v) + seq![']']
}

/// The numbers of a list in decimal, separated by `, `.
pub open spec fn list_items_text(v: Seq<usize>) -> Seq<char>
    decreases v.len(),
{
    if v.len() == 0 {
        Seq::empty()
    } else if v.len() == 1 {
        decimal_of(v[0] as nat)
    } else {
        list_items_text(v.drop_last()) + ", "@ + decimal_of(v.last() as nat)
    }
}

/// A list of numbers as Rust's debug format writes it.
pub fn usize_list_text(v: &Vec<usize>) -> (s: String)
    ensures
        s@ == list_text(v@),
{
    let mut s = String::new();
    push_char(&mut s, '[');
    let mut i: usize = 0;
    while i < v.len()
        invariant
            i <= v@.len(),
            s@ == seq!['['] + list_items_text(v@.subrange(0, i as int)),
        decreases v@.len() - i,
    {
        let ghost prev = s@;
        let d = u64_to_decimal(v[i] as u64);
        let ghost next = v@.subrange(0, i as int + 1);
        assert(next.drop_last() =~= v@.subrange(0, i as int));
        if i > 0 {
            s.append(", ");
            s.append(d.as_str());
            assert(s@ =~= seq!['['] + list_items_text(next));
        } else {
            s.append(d.as_str());
            assert(s@ =~= seq!['['] + list_items_text(next));
        }
        i = i + 1;
    }
    push_char(&mut s, ']');
    assert(v@.subrange(0, v@.len() as int) =~= v@);
    s
}

impl TransformError {
    /// The message of the error.
    pub fn to_string(&self) -> (s: String)
        ensures
            s@ == match self {
                TransformError::InvalidInput(m) => "Invalid input: "@ + m@,
                TransformError::InvalidBase64 => "Invalid base64 encoding"@,
                TransformError::ImageError(m) => "Image error: "@ + m@,
                TransformError::ShapeMismatch { expected, actual } => "Shape mismatch: expected "@
                    + list_text(expected@) + ", got "@ + list_text(actual@),
                TransformError::NoLabels => "No labels loaded"@,
                TransformError::UnsupportedOperation(m) => "Unsupported operation: "@ + m@,
                TransformError::JsonError(m) => "JSON error: "@ + m@,
            },
    {
        match self {
            TransformError::InvalidInput(m) => message("Invalid input: ", m.as_str()),
            TransformError::InvalidBase64 => "Invalid base64 encoding".to_owned(),
            TransformError::ImageError(m) => message("Image error: ", m.as_str()),
            TransformError::ShapeMismatch { expected, actual } => {
                let mut s = "Shape mismatch: expected ".to_owned();
                let e = usize_list_text(expected);
                s.append(e.as_str());
                s.append(", got ");
                let a = usize_list_text(actual);
                s.append(a.as_str());
                s
            },
            TransformError::NoLabels => "No labels loaded".to_owned(),
            TransformError::UnsupportedOperation(m) => message("Unsupported operation: ", m.as_str()),
            TransformError::JsonError(m) => message("JSON error: ", m.as_str()),
        }
    }
}

} // verus!
