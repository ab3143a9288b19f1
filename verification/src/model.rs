//! Model files: the check of an ONNX file's header, the parts of a model's
//! configuration that name and locate it, and where the local store keeps a
//! model's file.
use vstd::prelude::*;
use vstd::string::*;
use crate::errors::CoreError;
use crate::text::{seq_starts_with, str_starts_with, string_of};

verus! {

/// The name, version and description of a model, from its configuration.
#[derive(Debug, Clone)]
pub struct ModelMeta {
    pub name: String,
    pub version: String,
    pub description: String,
}

/// The model file of a configuration and its optional labels file.
#[derive(Debug, Clone)]
pub struct ModelFile {
    pub file: String,
    pub labels: Option<String>,
}

/// The class labels of a model's outputs.
#[derive(Debug, Clone)]
pub struct LabelMapping {
    pub labels: Vec<String>,
    pub description: Option<String>,
}

/// The element type of a model input or output when its configuration
/// names none.
pub fn default_dtype() -> (s: String)
    ensures
        s@ == "float32"@,
{
    string_of("float32")
}

/// Whether bytes can start an ONNX file: at least four bytes, the first of
/// which is a protobuf field tag ONNX files begin with (0x08 or 0x0a).
pub open spec fn onnx_header_check(data: Seq<u8>) -> Result<(), Seq<char>> {
    if data.len() < 4 {
        Err("File too small"@)
    } else if data[0] != 0x08 && data[0] != 0x0a {
        Err("Invalid ONNX file header"@)
    } else {
        Ok(())
    }
}

/// Loads and checks model files kept in a store.
pub struct ModelLoader<S> {
    storage: S,
}

impl<S> ModelLoader<S> {
    /// A loader over a store.
    pub fn new(storage: S) -> (l: ModelLoader<S>)
        ensures
            l.storage() == storage,
    {
        ModelLoader { storage }
    }

    pub closed spec fn storage(&self) -> S {
        self.storage
    }

    /// The store the loader reads from.
    pub fn store(&self) -> (s: &S)
        ensures
            *s == self.storage(),
    {
        &self.storage
    }

    /// Checks the header of a model file before it is parsed.
    pub fn check_onnx_magic(&self, data: &[u8]) -> (r: Result<(), CoreError>)
        ensures
            match onnx_header_check(data@) {
                Ok(()) => r is Ok,
                Err(m) => r matches Err(CoreError::InvalidModelFormat(e)) && e@ == m,
            },
    {
        if data.len() < 4 {
            proof { reveal_strlit("File too small"); }
            return Err(CoreError::InvalidModelFormat(string_of("File too small")));
        }
        if data[0] != 0x08 && data[0] != 0x0a {
            proof { reveal_strlit("Invalid ONNX file header"); }
            return Err(CoreError::InvalidModelFormat(string_of("Invalid ONNX file header")));
        }
        Ok(())
    }
}

/// Prepares the ONNX Runtime library. With the runtime linked in, there is
/// nothing to do.
pub fn init_onnxruntime(lib_path: &str) -> (r: Result<(), CoreError>)
    ensures
        r is Ok,
{
    Ok(())
}

/// Where a runtime library loaded at run time must be: the path must exist
/// and be a file.
pub fn check_onnxruntime_library(lib_path: &str, exists: bool, is_file: bool) -> (r: Result<(), CoreError>)
    ensures
        !exists ==> (r matches Err(CoreError::OnnxRuntimeLibraryNotFound(m)) && m@ == "Path does not exist: "@ + lib_path@),
        exists && !is_file ==> (r matches Err(CoreError::OnnxRuntimeLibraryNotFound(m)) && m@ == "Path is not a file: "@ + lib_path@),
        exists && is_file ==> r is Ok,
{
    if !exists {
        let mut m = string_of("Path does not exist: ");
        m.append(lib_path);
        return Err(CoreError::OnnxRuntimeLibraryNotFound(m));
    }
    if !is_file {
        let mut m = string_of("Path is not a file: ");
        m.append(lib_path);
        return Err(CoreError::OnnxRuntimeLibraryNotFound(m));
    }
    Ok(())
}

/// A path joined to a directory as a Unix path is: an absolute path stands
/// alone, and one separator stands between the two.
pub open spec fn joined_path(base: Seq<char>, name: Seq<char>) -> Seq<char> {
    if seq_starts_with(name, "/"@) || base.len() == 0 {
        name
    } else if base.last() == '/' {
        base + name
    } else {
        base + "/"@ + name
    }
}

/// Model files in a directory of the local disk.
#[derive(Debug, Clone)]
pub struct LocalStorage {
    base_path: String,
}

impl LocalStorage {
    /// A store over a directory (which its user creates).
    pub fn new(base_path: &str) -> (s: LocalStorage)
        ensures
            s.base()@ == base_path@,
    {
        LocalStorage { base_path: string_of(base_path) }
    }

    pub closed spec fn base(&self) -> String {
        self.base_path
    }

    /// The directory of the store.
    pub fn base_path(&self) -> (p: &str)
        ensures
            p@ == self.base()@,
    {
        self.base_path.as_str()
    }

    /// The path of the file that holds a model: `<model id>.onnx` in the
    /// store's directory.
    pub fn model_file_path(&self, model_id: &str) -> (p: String)
        ensures
            p@ == joined_path(self.base()@, model_id@ + ".onnx"@),
    {
        let mut name = string_of(model_id);
        name.append(".onnx");
        let base = self.base_path.as_str();
        let n = base.unicode_len();
        proof { reveal_strlit("/"); }
        if str_starts_with(name.as_str(), "/") || n == 0 {
            name
        } else if base.get_char(n - 1) == '/' {
            let mut p = string_of(base);
            p.append(name.as_str());
            p
        } else {
            let mut p = string_of(base);
            p.append("/");
            p.append(name.as_str());
            p
        }
    }
}

} // verus!
