//! The command-line client's rules: its configuration and how `config set`
//! edits it, its commands, and how a command's arguments (and a model's
//! configuration file) decide what is sent.
use vstd::prelude::*;
use vstd::string::*;
use crate::text::{parse_bool, parse_bool_str, parse_u64, parse_u64_str, str_eq, string_of, u64_to_decimal, decimal_of};

verus! {

#[verifier::external_type_specification]
#[verifier::external_body]
pub struct ExTomlDeError(toml::de::Error);

#[verifier::external_type_specification]
#[verifier::external_body]
pub struct ExTomlSerError(toml::ser::Error);

#[verifier::external_type_specification]
#[verifier::external_body]
pub struct ExYamlError(serde_yaml::Error);

#[verifier::external_type_specification]
#[verifier::external_body]
pub struct ExReqwestError(reqwest::Error);

/// The errors of the command-line client.
#[derive(Debug)]
pub enum CliError {
    Config(String),
    HttpError { status: u16, message: String },
    ApiError { code: String, message: String },
    Io(std::io::Error),
    Json(serde_json::Error),
    TomlDe(toml::de::Error),
    TomlSer(toml::ser::Error),
    Yaml(serde_yaml::Error),
    Reqwest(reqwest::Error),
    HomeNotFound,
    AuthRequired,
    InvalidInput(String),
    FileNotFound(String),
    Cancelled,
}

/// The message of a client error, where the library knows all of it.
pub open spec fn cli_error_message(e: CliError) -> Option<Seq<char>> {
    match e {
        CliError::Config(m) => Some("Configuration error: "@ + m@),
        CliError::HttpError { status, message } => Some("HTTP error "@ + decimal_of(status as nat) + ": "@ + message@),
        CliError::ApiError { code, message } => Some("API error ["@ + code@ + "]: "@ + message@),
        CliError::HomeNotFound => Some("Home directory not found"@),
        CliError::AuthRequired => Some("Authentication required"@),
        CliError::InvalidInput(m) => Some("Invalid input: "@ + m@),
        CliError::FileNotFound(m) => Some("File not found: "@ + m@),
        CliError::Cancelled => Some("Operation cancelled"@),
        _ => None,
    }
}

fn cat2(a: &str, b: &str) -> (s: String)
    ensures
        s@ == a@ + b@,
{
    let mut s = string_of(a);
    s.append(b);
    s
}

fn cat3(a: &str, b: &str, c: &str) -> (s: String)
    ensures
        s@ == a@ + b@ + c@,
{
    let mut s = string_of(a);
    s.append(b);
    s.append(c);
    s
}

fn cat4(a: &str, b: &str, c: &str, d: &str) -> (s: String)
    ensures
        s@ == a@ + b@ + c@ + d@,
{
    let mut s = string_of(a);
    s.append(b);
    s.append(c);
    s.append(d);
    s
}

impl CliError {
    /// The message of the error. For an error of an outside library it is a
    /// fixed prefix and that library's own message.
    pub fn to_string(&self) -> (s: String)
        ensures
            cli_error_message(*self) matches Some(m) ==> s@ == m,
            *self matches CliError::Io(e) ==> exists|t: String|
                to_string_from_display_ensures::<std::io::Error>(&e, t) && s@ == "IO error: "@ + t@,
            *self matches CliError::Json(e) ==> exists|t: String|
                to_string_from_display_ensures::<serde_json::Error>(&e, t) && s@ == "JSON error: "@ + t@,
            *self matches CliError::TomlDe(e) ==> exists|t: String|
                to_string_from_display_ensures::<toml::de::Error>(&e, t) && s@ == "TOML parse error: "@ + t@,
            *self matches CliError::TomlSer(e) ==> exists|t: String|
                to_string_from_display_ensures::<toml::ser::Error>(&e, t) && s@ == "TOML serialization error: "@ + t@,
            *self matches CliError::Yaml(e) ==> exists|t: String|
                to_string_from_display_ensures::<serde_yaml::Error>(&e, t) && s@ == "YAML error: "@ + t@,
            *self matches CliError::Reqwest(e) ==> exists|t: String|
                to_string_from_display_ensures::<reqwest::Error>(&e, t) && s@ == "HTTP client error: "@ + t@,
    {
        match self {
            CliError::Config(m) => cat2("Configuration error: ", m.as_str()),
            CliError::HttpError { status, message } => {
                let st = u64_to_decimal(*status as u64);
                let s = cat4("HTTP error ", st.as_str(), ": ", message.as_str());
                proof {
                    reveal_strlit("HTTP error ");
                    reveal_strlit(": ");
                }
                s
            },
            CliError::ApiError { code, message } => cat4("API error [", code.as_str(), "]: ", message.as_str()),
            CliError::Io(e) => {
                let t = e.to_string();
                let s = cat2("IO error: ", t.as_str());
                assert(to_string_from_display_ensures::<std::io::Error>(e, t) && s@ == "IO error: "@ + t@);
                s
            },
            CliError::Json(e) => {
                let t = e.to_string();
                let s = cat2("JSON error: ", t.as_str());
                assert(to_string_from_display_ensures::<serde_json::Error>(e, t) && s@ == "JSON error: "@ + t@);
                s
            },
            CliError::TomlDe(e) => {
                let t = e.to_string();
                let s = cat2("TOML parse error: ", t.as_str());
                assert(to_string_from_display_ensures::<toml::de::Error>(e, t) && s@ == "TOML parse error: "@ + t@);
                s
            },
            CliError::TomlSer(e) => {
                let t = e.to_string();
                let s = cat2("TOML serialization error: ", t.as_str());
                assert(to_string_from_display_ensures::<toml::ser::Error>(e, t) && s@ == "TOML serialization error: "@ + t@);
                s
            },
            CliError::Yaml(e) => {
                let t = e.to_string();
                let s = cat2("YAML error: ", t.as_str());
                assert(to_string_from_display_ensures::<serde_yaml::Error>(e, t) && s@ == "YAML error: "@ + t@);
                s
            },
            CliError::Reqwest(e) => {
                let t = e.to_string();
                let s = cat2("HTTP client error: ", t.as_str());
                assert(to_string_from_display_ensures::<reqwest::Error>(e, t) && s@ == "HTTP client error: "@ + t@);
                s
            },
            CliError::HomeNotFound => string_of("Home directory not found"),
            CliError::AuthRequired => string_of("Authentication required"),
            CliError::InvalidInput(m) => cat2("Invalid input: ", m.as_str()),
            CliError::FileNotFound(m) => cat2("File not found: ", m.as_str()),
            CliError::Cancelled => string_of("Operation cancelled"),
        }
    }
}

/// How the client prints results.
#[derive(Debug, Clone, Copy, PartialEq, Eq, Structural)]
pub enum OutputFormat {
    Table,
    Json,
    Toml,
}

impl Default for OutputFormat {
    fn default() -> (f: OutputFormat)
        ensures
            f == OutputFormat::Table,
    {
        OutputFormat::Table
    }
}

pub open spec fn output_format_text(f: OutputFormat) -> Seq<char> {
    match f {
        OutputFormat::Table => "table"@,
        OutputFormat::Json => "json"@,
        OutputFormat::Toml => "toml"@,
    }
}

/// The format a lowercase name stands for.
pub open spec fn output_format_named(name: Seq<char>) -> Option<OutputFormat> {
    if name == "table"@ {
        Some(OutputFormat::Table)
    } else if name == "json"@ {
        Some(OutputFormat::Json)
    } else if name == "toml"@ {
        Some(OutputFormat::Toml)
    } else {
        None
    }
}

impl OutputFormat {
    /// The format's name, as the configuration file and `--output` write it.
    pub fn as_str(&self) -> (s: &'static str)
        ensures
            s@ == output_format_text(*self),
    {
        proof {
            reveal_strlit("table");
            reveal_strlit("json");
            reveal_strlit("toml");
        }
        match self {
            OutputFormat::Table => "table",
            OutputFormat::Json => "json",
            OutputFormat::Toml => "toml",
        }
    }

    /// The format a lowercase name stands for, if any.
    pub fn from_lowercase_name(name: &str) -> (f: Option<OutputFormat>)
        ensures
            f == output_format_named(name@),
    {
        if str_eq(name, "table") {
            Some(OutputFormat::Table)
        } else if str_eq(name, "json") {
            Some(OutputFormat::Json)
        } else if str_eq(name, "toml") {
            Some(OutputFormat::Toml)
        } else {
            None
        }
    }
}

/// Reading back the name of a format gives the format.
pub proof fn lemma_output_format_name_round_trip(f: OutputFormat)
    ensures
        output_format_named(output_format_text(f)) == Some(f),
{
    reveal_strlit("table");
    reveal_strlit("json");
    reveal_strlit("toml");
    assert("table"@ != "json"@) by {
        assert("table"@.len() != "json"@.len());
    }
    assert("table"@ != "toml"@) by {
        assert("table"@.len() != "toml"@.len());
    }
    assert("json"@ != "toml"@) by {
        assert("json"@[0] != "toml"@[0]);
    }
}

/// The Unicode lowercase of a string, as `str::to_lowercase` computes it.
pub uninterp spec fn lowercase_of(s: Seq<char>) -> Seq<char>;

/// Calls `str::to_lowercase`. Claims that the result is the lowercase of `s`.
#[verifier::external_body]
fn to_lowercase(s: &str) -> (r: String)
    ensures
        r@ == lowercase_of(s@),
{
    s.to_lowercase()
}

/// The client's configuration.
#[derive(Debug, Clone)]
pub struct CliConfig {
    pub api_url: String,
    pub api_key: Option<String>,
    pub timeout: u64,
    pub output_format: OutputFormat,
    pub verify_ssl: bool,
}

/// The server address used when none is configured.
pub fn default_api_url() -> (s: String)
    ensures
        s@ == "http://localhost:8080/api/v1"@,
{
    string_of("http://localhost:8080/api/v1")
}

/// The request timeout, in seconds, used when none is configured.
pub fn default_timeout() -> (t: u64)
    ensures
        t == 30,
{
    30
}

impl Default for CliConfig {
    /// The local server, no key, thirty seconds, tables, certificates checked.
    fn default() -> (c: CliConfig)
        ensures
            c.api_url@ == "http://localhost:8080/api/v1"@,
            c.api_key is None,
            c.timeout == 30,
            c.output_format == OutputFormat::Table,
            c.verify_ssl,
    {
        CliConfig {
            api_url: default_api_url(),
            api_key: None,
            timeout: default_timeout(),
            output_format: OutputFormat::Table,
            verify_ssl: true,
        }
    }
}

fn invalid_input(prefix: &str, detail: &str) -> (e: CliError)
    ensures
        e matches CliError::InvalidInput(m) && m@ == prefix@ + detail@,
{
    CliError::InvalidInput(cat2(prefix, detail))
}

/// The server address key, written with an underscore or a hyphen.
pub open spec fn is_api_url_key(k: Seq<char>) -> bool {
    k == "api_url"@ || k == "api-url"@
}

/// The API key key, written with an underscore or a hyphen.
pub open spec fn is_api_key_key(k: Seq<char>) -> bool {
    k == "api_key"@ || k == "api-key"@
}

/// The output format key, written with an underscore or a hyphen.
pub open spec fn is_output_format_key(k: Seq<char>) -> bool {
    k == "output_format"@ || k == "output-format"@
}

/// The certificate check key, written with an underscore or a hyphen.
pub open spec fn is_verify_ssl_key(k: Seq<char>) -> bool {
    k == "verify_ssl"@ || k == "verify-ssl"@
}

fn key_is(key: &str, underscored: &str, hyphenated: &str) -> (b: bool)
    ensures
        b == (key@ == underscored@ || key@ == hyphenated@),
{
    str_eq(key, underscored) || str_eq(key, hyphenated)
}

impl CliConfig {
    /// Sets one configuration value by its key; a key may be written with
    /// underscores (`api_url`) or hyphens (`api-url`). `timeout` takes a
    /// whole number, `output_format` a format name in any case,
    /// `verify_ssl` `true` or `false`; a bad value or an unknown key is
    /// refused and changes nothing.
    pub fn set(&mut self, key: &str, value: &str) -> (r: Result<(), CliError>)
        ensures
            is_api_url_key(key@) ==> r is Ok && *final(self) == (CliConfig { api_url: final(self).api_url, ..*old(self) })
                && final(self).api_url@ == value@,
            is_api_key_key(key@) ==> r is Ok && *final(self) == (CliConfig { api_key: final(self).api_key, ..*old(self) })
                && (final(self).api_key matches Some(k) && k@ == value@),
            key@ == "timeout"@ ==> match parse_u64(value@) {
                Some(t) => r is Ok && *final(self) == (CliConfig { timeout: t, ..*old(self) }),
                None => r matches Err(CliError::InvalidInput(m)) && m@ == "Invalid timeout value: "@ + value@
                    && *final(self) == *old(self),
            },
            is_output_format_key(key@) ==> match output_format_named(lowercase_of(value@)) {
                Some(f) => r is Ok && *final(self) == (CliConfig { output_format: f, ..*old(self) }),
                None => r matches Err(CliError::InvalidInput(m)) && m@ == "Invalid output format: "@ + value@
                    && *final(self) == *old(self),
            },
            is_verify_ssl_key(key@) ==> match parse_bool(value@) {
                Some(b) => r is Ok && *final(self) == (CliConfig { verify_ssl: b, ..*old(self) }),
                None => r matches Err(CliError::InvalidInput(m)) && m@ == "Invalid boolean value: "@ + value@
                    && *final(self) == *old(self),
            },
            !(is_api_url_key(key@) || is_api_key_key(key@) || key@ == "timeout"@ || is_output_format_key(key@)
                || is_verify_ssl_key(key@)) ==> (r matches Err(CliError::InvalidInput(m))
                && m@ == "Unknown configuration key: "@ + key@ && *final(self) == *old(self)),
    {
        proof {
            reveal_strlit("api_url");
            reveal_strlit("api-url");
            reveal_strlit("api_key");
            reveal_strlit("api-key");
            reveal_strlit("timeout");
            reveal_strlit("output_format");
            reveal_strlit("output-format");
            reveal_strlit("verify_ssl");
            reveal_strlit("verify-ssl");
            assert("api_url"@ != "api_key"@) by { assert("api_url"@[4] != "api_key"@[4]); }
            assert("api_url"@ != "api-key"@) by { assert("api_url"@[4] != "api-key"@[4]); }
            assert("api-url"@ != "api_key"@) by { assert("api-url"@[4] != "api_key"@[4]); }
            assert("api-url"@ != "api-key"@) by { assert("api-url"@[4] != "api-key"@[4]); }
            assert("timeout"@ != "api_url"@) by { assert("timeout"@[0] != "api_url"@[0]); }
            assert("timeout"@ != "api-url"@) by { assert("timeout"@[0] != "api-url"@[0]); }
            assert("timeout"@ != "api_key"@) by { assert("timeout"@[0] != "api_key"@[0]); }
            assert("timeout"@ != "api-key"@) by { assert("timeout"@[0] != "api-key"@[0]); }
            assert("output_format"@.len() == 13 && "output-format"@.len() == 13);
            assert("verify_ssl"@.len() == 10 && "verify-ssl"@.len() == 10);
            assert("api_url"@.len() == 7 && "api-url"@.len() == 7 && "api_key"@.len() == 7);
            assert("api-key"@.len() == 7 && "timeout"@.len() == 7);
        }
        if key_is(key, "api_url", "api-url") {
            self.api_url = string_of(value);
            Ok(())
        } else if key_is(key, "api_key", "api-key") {
            self.api_key = Some(string_of(value));
            Ok(())
        } else if str_eq(key, "timeout") {
            match parse_u64_str(value) {
                Some(t) => {
                    self.timeout = t;
                    Ok(())
                },
                None => Err(invalid_input("Invalid timeout value: ", value)),
            }
        } else if key_is(key, "output_format", "output-format") {
            let lower = to_lowercase(value);
            match OutputFormat::from_lowercase_name(lower.as_str()) {
                Some(f) => {
                    self.output_format = f;
                    Ok(())
                },
                None => Err(invalid_input("Invalid output format: ", value)),
            }
        } else if key_is(key, "verify_ssl", "verify-ssl") {
            match parse_bool_str(value) {
                Some(b) => {
                    self.verify_ssl = b;
                    Ok(())
                },
                None => Err(invalid_input("Invalid boolean value: ", value)),
            }
        } else {
            Err(invalid_input("Unknown configuration key: ", key))
        }
    }
}

/// The parts of a user's request to create an account.
#[derive(Debug, Clone)]
pub struct CreateUserRequest {
    pub username: String,
    pub password: String,
    pub role: String,
}

/// A login.
#[derive(Debug, Clone)]
pub struct LoginRequest {
    pub username: String,
    pub password: String,
}

/// A request for a new API key; the permissions are given as JSON text.
#[derive(Debug, Clone)]
pub struct CreateApiKeyRequest {
    pub name: String,
    pub permissions: Option<crate::types::Permissions>,
    pub expires_in_days: Option<u32>,
}

/// Changes to an API key.
#[derive(Debug, Clone)]
pub struct UpdateApiKeyRequest {
    pub name: Option<String>,
    pub permissions: Option<crate::types::Permissions>,
}

/// The name and version of an uploaded model.
#[derive(Debug, Clone)]
pub struct UploadModelRequest {
    pub name: String,
    pub version: String,
}

/// A model registered from a file the server can read.
#[derive(Debug, Clone)]
pub struct RegisterModelRequest {
    pub file_path: String,
    pub name: String,
    pub version: String,
    pub config: Option<String>,
}

/// `auth` commands.
#[derive(Debug, Clone)]
pub enum AuthCommands {
    Login { username: String, password: Option<String> },
    Logout,
}

/// `admin` commands.
#[derive(Debug, Clone)]
pub enum AdminCommands {
    CreateUser { username: String, password: Option<String>, role: String },
    ListUsers,
    UpdateUser {
        user_id: String,
        username: Option<String>,
        password: Option<String>,
        role: Option<String>,
        active: Option<bool>,
    },
    DeleteUser { user_id: String },
}

/// `api-key` commands.
#[derive(Debug, Clone)]
pub enum ApiKeyCommands {
    Create { name: String, permissions: Option<String>, expires: Option<u32> },
    List,
    Info { key_id: String },
    Revoke { key_id: String },
    Update { key_id: String, name: Option<String>, permissions: Option<String> },
}

/// `config` commands.
#[derive(Debug, Clone)]
pub enum ConfigCommands {
    SetValue { key: String, value: String },
    Show,
}

/// `task` commands.
#[derive(Debug, Clone)]
pub enum TaskCommands {
    List { status: Option<String>, limit: Option<usize> },
    Status { task_id: String },
    Cancel { task_id: String },
}

/// `model` commands.
#[derive(Debug, Clone)]
pub enum ModelCommands {
    Upload { model_path: Option<String>, name: Option<String>, version: Option<String>, model_config: Option<String> },
    Register {
        server_path: Option<String>,
        name: Option<String>,
        version: Option<String>,
        model_config: Option<String>,
    },
    List { name: Option<String> },
    Info { model_id: String },
    Update { model_id: String, name: Option<String>, version: Option<String>, model_config: Option<String> },
    Delete { name: String, version: String },
}

/// `infer` commands.
#[derive(Debug, Clone)]
pub enum InferCommands {
    Sync {
        model_id: Option<String>,
        name: Option<String>,
        version: Option<String>,
        input: Option<String>,
        image: Option<String>,
        output: Option<String>,
    },
    Async {
        model_id: Option<String>,
        name: Option<String>,
        version: Option<String>,
        input: Option<String>,
        image: Option<String>,
        priority: String,
    },
}

/// What a model configuration file says about the model it configures: the
/// model file (already resolved against the file's directory) and the name
/// and version of its `meta` section.
#[derive(Debug, Clone)]
pub struct ModelConfigFacts {
    pub model_file: Option<String>,
    pub meta_name: Option<String>,
    pub meta_version: Option<String>,
}

/// Which command a model source is resolved for; the messages name its path
/// argument.
#[derive(Debug, Clone, Copy, PartialEq, Eq, Structural)]
pub enum ModelSourceCommand {
    Upload,
    Register,
}

/// The name of the path argument of a command.
pub open spec fn path_argument(c: ModelSourceCommand) -> Seq<char> {
    match c {
        ModelSourceCommand::Upload => "model_path"@,
        ModelSourceCommand::Register => "server_path"@,
    }
}

/// A part of a model's source.
#[derive(Debug, Clone, Copy, PartialEq, Eq, Structural)]
pub enum ModelPart {
    File,
    Name,
    Version,
}

/// What the configuration file gives for a part: nothing without a file,
/// the file's parse error, or the part (an empty name or version counts as
/// none).
pub open spec fn file_value(config: Option<Result<ModelConfigFacts, String>>, part: ModelPart) -> Option<Result<Option<Seq<char>>, Seq<char>>> {
    match config {
        None => None,
        Some(Err(e)) => Some(Err(e@)),
        Some(Ok(facts)) => Some(Ok(match part {
            ModelPart::File => match facts.model_file {
                Some(f) => Some(f@),
                None => None,
            },
            ModelPart::Name => match facts.meta_name {
                Some(n) => if n@.len() == 0 { None } else { Some(n@) },
                None => None,
            },
            ModelPart::Version => match facts.meta_version {
                Some(v) => if v@.len() == 0 { None } else { Some(v@) },
                None => None,
            },
        })),
    }
}

/// A part from the command line, else from the configuration file; `Err`
/// holds the message of the configuration error.
pub open spec fn part_outcome(
    given: Option<String>,
    config: Option<Result<ModelConfigFacts, String>>,
    part: ModelPart,
    missing_in_file: Seq<char>,
    missing: Seq<char>,
) -> Result<Seq<char>, Seq<char>> {
    match given {
        Some(v) => Ok(v@),
        None => match file_value(config, part) {
            None => Err(missing),
            Some(Err(e)) => Err("Invalid config TOML: "@ + e),
            Some(Ok(None)) => Err(missing_in_file),
            Some(Ok(Some(v))) => Ok(v),
        },
    }
}

/// The model file, name and version of an upload or registration, in that
/// order of resolution, or the first missing part's message.
pub open spec fn model_source_outcome(
    command: ModelSourceCommand,
    path: Option<String>,
    name: Option<String>,
    version: Option<String>,
    config: Option<Result<ModelConfigFacts, String>>,
) -> Result<(Seq<char>, Seq<char>, Seq<char>), Seq<char>> {
    match part_outcome(path, config, ModelPart::File, "model.file not specified in config"@,
        "Either "@ + path_argument(command) + " or --model-config must be provided"@) {
        Err(m) => Err(m),
        Ok(p) => match part_outcome(name, config, ModelPart::Name, "meta.name not specified in config"@,
            "Either --name or --model-config must be provided"@) {
            Err(m) => Err(m),
            Ok(n) => match part_outcome(version, config, ModelPart::Version, "meta.version not specified in config"@,
                "Either --version or --model-config must be provided"@) {
                Err(m) => Err(m),
                Ok(v) => Ok((p, n, v)),
            },
        },
    }
}

/// The model file, name and version an upload or registration sends.
#[derive(Debug, Clone)]
pub struct ModelSource {
    pub path: String,
    pub name: String,
    pub version: String,
}

/// A part given on the command line is always the one used, whatever the
/// model configuration file says; a part not given comes from the file.
/// With all three given, the source is exactly them, with or without a
/// file, and even when the file cannot be read.
pub proof fn lemma_given_parts_win(
    command: ModelSourceCommand,
    path: Option<String>,
    name: Option<String>,
    version: Option<String>,
    config: Option<Result<ModelConfigFacts, String>>,
)
    ensures
        model_source_outcome(command, path, name, version, config) matches Ok((p, n, v)) ==> (path matches Some(x)
            ==> p == x@) && (name matches Some(x) ==> n == x@) && (version matches Some(x) ==> v == x@),
        model_source_outcome(command, path, name, version, config) matches Ok((p, n, v)) ==> (path is None
            ==> file_value(config, ModelPart::File) == Some(Ok::<Option<Seq<char>>, Seq<char>>(Some(p)))) && (name is None
            ==> file_value(config, ModelPart::Name) == Some(Ok::<Option<Seq<char>>, Seq<char>>(Some(n)))) && (version is None
            ==> file_value(config, ModelPart::Version) == Some(Ok::<Option<Seq<char>>, Seq<char>>(Some(v)))),
        (path matches Some(x) && name matches Some(y) && version matches Some(z)) ==> model_source_outcome(
            command,
            path,
            name,
            version,
            config,
        ) == Ok::<(Seq<char>, Seq<char>, Seq<char>), Seq<char>>((path->Some_0@, name->Some_0@, version->Some_0@)),
{
}

fn resolve_part(
    given: Option<String>,
    config: &Option<Result<ModelConfigFacts, String>>,
    part: ModelPart,
    missing_in_file: &str,
    missing: String,
) -> (r: Result<String, String>)
    ensures
        match r {
            Ok(v) => part_outcome(given, *config, part, missing_in_file@, missing@) == Ok::<Seq<char>, Seq<char>>(v@),
            Err(m) => part_outcome(given, *config, part, missing_in_file@, missing@) == Err::<Seq<char>, Seq<char>>(m@),
        },
{
    match given {
        Some(v) => Ok(v),
        None => match config {
            None => Err(missing),
            Some(Err(e)) => Err(cat2("Invalid config TOML: ", e.as_str())),
            Some(Ok(facts)) => {
                let value: Option<String> = match part {
                    ModelPart::File => match &facts.model_file {
                        Some(f) => Some(f.clone()),
                        None => None,
                    },
                    ModelPart::Name => match &facts.meta_name {
                        Some(n) => if n.unicode_len() == 0 { None } else { Some(n.clone()) },
                        None => None,
                    },
                    ModelPart::Version => match &facts.meta_version {
                        Some(n) => if n.unicode_len() == 0 { None } else { Some(n.clone()) },
                        None => None,
                    },
                };
                match value {
                    Some(v) => Ok(v),
                    None => Err(string_of(missing_in_file)),
                }
            },
        },
    }
}

/// Decides the model file, name and version of `model upload` or `model
/// register`: each comes from its argument, else from the model
/// configuration file; the first that is found in neither is refused.
pub fn resolve_model_source(
    command: ModelSourceCommand,
    path: Option<String>,
    name: Option<String>,
    version: Option<String>,
    config: &Option<Result<ModelConfigFacts, String>>,
) -> (r: Result<ModelSource, CliError>)
    ensures
        match r {
            Ok(s) => model_source_outcome(command, path, name, version, *config)
                == Ok::<(Seq<char>, Seq<char>, Seq<char>), Seq<char>>((s.path@, s.name@, s.version@)),
            Err(e) => e matches CliError::Config(m) && model_source_outcome(command, path, name, version, *config)
                == Err::<(Seq<char>, Seq<char>, Seq<char>), Seq<char>>(m@),
        },
{
    let arg = match command {
        ModelSourceCommand::Upload => "model_path",
        ModelSourceCommand::Register => "server_path",
    };
    proof {
        reveal_strlit("model_path");
        reveal_strlit("server_path");
    }
    let missing_path = cat3("Either ", arg, " or --model-config must be provided");
    let p = match resolve_part(path, config, ModelPart::File, "model.file not specified in config", missing_path) {
        Ok(p) => p,
        Err(m) => return Err(CliError::Config(m)),
    };
    let n = match resolve_part(
        name,
        config,
        ModelPart::Name,
        "meta.name not specified in config",
        string_of("Either --name or --model-config must be provided"),
    ) {
        Ok(n) => n,
        Err(m) => return Err(CliError::Config(m)),
    };
    let v = match resolve_part(
        version,
        config,
        ModelPart::Version,
        "meta.version not specified in config",
        string_of("Either --version or --model-config must be provided"),
    ) {
        Ok(v) => v,
        Err(m) => return Err(CliError::Config(m)),
    };
    Ok(ModelSource { path: p, name: n, version: v })
}

/// What an `infer` command sends.
#[derive(Debug, Clone)]
pub enum InferPlan {
    /// An image file, with the model named as the form names it.
    Image { image_path: String, model: crate::api::ModelReference },
    /// JSON inputs (text or a file), for the model named; a name and version
    /// are looked up first.
    Input { input: String, model: crate::api::ModelReference },
}

/// Decides what an `infer` command sends: an image wins over JSON input;
/// either needs the model, by id or by name and version.
pub fn plan_inference(
    model_id: Option<String>,
    name: Option<String>,
    version: Option<String>,
    input: Option<String>,
    image: Option<String>,
) -> (r: Result<InferPlan, CliError>)
    ensures
        image matches Some(img) ==> match r {
            Ok(InferPlan::Image { image_path, model }) => image_path == img && match model_id {
                Some(id) => model matches crate::api::ModelReference::ById(i) && i == id,
                None => name is Some && version is Some
                    && (model matches crate::api::ModelReference::ByNameVersion(n, v) && n == name->0 && v == version->0),
            },
            Err(CliError::InvalidInput(m)) => model_id is None && !(name is Some && version is Some)
                && m@ == "Either model_id or name+version is required"@,
            _ => false,
        },
        image is None && input is Some ==> match r {
            Ok(InferPlan::Input { input: text, model }) => text == input->0 && match model_id {
                Some(id) => model matches crate::api::ModelReference::ById(i) && i == id,
                None => name is Some && version is Some
                    && (model matches crate::api::ModelReference::ByNameVersion(n, v) && n == name->0 && v == version->0),
            },
            Err(CliError::InvalidInput(m)) => model_id is None && (if name is None {
                m@ == "Model name is required"@
            } else {
                version is None && m@ == "Model version is required"@
            }),
            _ => false,
        },
        image is None && input is None ==> (r matches Err(CliError::InvalidInput(m))
            && m@ == "Either --input or --image is required"@),
{
    match image {
        Some(img) => {
            let model = match model_id {
                Some(id) => crate::api::ModelReference::ById(id),
                None => match (name, version) {
                    (Some(n), Some(v)) => crate::api::ModelReference::ByNameVersion(n, v),
                    _ => {
                        proof { reveal_strlit("Either model_id or name+version is required"); }
                        return Err(CliError::InvalidInput(string_of("Either model_id or name+version is required")));
                    },
                },
            };
            Ok(InferPlan::Image { image_path: img, model })
        },
        None => match input {
            Some(text) => {
                let model = match model_id {
                    Some(id) => crate::api::ModelReference::ById(id),
                    None => match name {
                        None => {
                            proof { reveal_strlit("Model name is required"); }
                            return Err(CliError::InvalidInput(string_of("Model name is required")));
                        },
                        Some(n) => match version {
                            None => {
                                proof { reveal_strlit("Model version is required"); }
                                return Err(CliError::InvalidInput(string_of("Model version is required")));
                            },
                            Some(v) => crate::api::ModelReference::ByNameVersion(n, v),
                        },
                    },
                };
                Ok(InferPlan::Input { input: text, model })
            },
            None => {
                proof { reveal_strlit("Either --input or --image is required"); }
                Err(CliError::InvalidInput(string_of("Either --input or --image is required")))
            },
        },
    }
}

/// The request path of `task list`: the filters as query parameters, status
/// first.
pub open spec fn task_list_path_text(status: Option<Seq<char>>, limit: Option<usize>) -> Seq<char> {
    match (status, limit) {
        (None, None) => "/inference"@,
        (Some(s), None) => "/inference?status="@ + s,
        (None, Some(l)) => "/inference?limit="@ + decimal_of(l as nat),
        (Some(s), Some(l)) => "/inference?status="@ + s + "&limit="@ + decimal_of(l as nat),
    }
}

/// The request path of `task list`.
pub fn task_list_path(status: Option<&str>, limit: Option<usize>) -> (p: String)
    ensures
        p@ == task_list_path_text(match status { Some(s) => Some(s@), None => None }, limit),
{
    match (status, limit) {
        (None, None) => string_of("/inference"),
        (Some(s), None) => cat2("/inference?status=", s),
        (None, Some(l)) => {
            let t = u64_to_decimal(l as u64);
            cat2("/inference?limit=", t.as_str())
        },
        (Some(s), Some(l)) => {
            let t = u64_to_decimal(l as u64);
            cat4("/inference?status=", s, "&limit=", t.as_str())
        },
    }
}

/// The request path of `model list`.
pub fn model_list_path(name: Option<&str>) -> (p: String)
    ensures
        p@ == match name {
            Some(n) => "/models?name="@ + n@,
            None => "/models"@,
        },
{
    match name {
        Some(n) => cat2("/models?name=", n),
        None => string_of("/models"),
    }
}

/// The address of an API path on the configured server.
pub fn request_url(base_url: &str, path: &str) -> (u: String)
    ensures
        u@ == base_url@ + path@,
{
    cat2(base_url, path)
}

/// The error of a failed request: the server's error code and message when
/// its answer carries them, else the HTTP status and its text.
pub fn error_from_response(status: u16, status_text: String, body_error: Option<(String, String)>) -> (e: CliError)
    ensures
        match body_error {
            Some((code, message)) => e == (CliError::ApiError { code, message }),
            None => e == (CliError::HttpError { status, message: status_text }),
        },
{
    match body_error {
        Some((code, message)) => CliError::ApiError { code, message },
        None => CliError::HttpError { status, message: status_text },
    }
}

/// The data of a successful answer; an answer without data is refused.
pub fn response_data<T>(data: Option<T>) -> (r: Result<T, CliError>)
    ensures
        match data {
            Some(d) => r matches Ok(x) && x == d,
            None => r matches Err(CliError::ApiError { code, message }) && code@ == "NO_DATA"@
                && message@ == "No data in response"@,
        },
{
    match data {
        Some(d) => Ok(d),
        None => {
            proof {
                reveal_strlit("NO_DATA");
                reveal_strlit("No data in response");
            }
            Err(CliError::ApiError { code: string_of("NO_DATA"), message: string_of("No data in response") })
        },
    }
}

} // verus!
