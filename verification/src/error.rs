//! Load errors and lints.

use crate::text::{debug_text, join2, join3, join4, join5, text_debug};
use vstd::prelude::*;

verus! {

/// Why a manifest was not loaded.
#[derive(Debug, Clone, PartialEq, Eq)]
pub enum ManifestError {
    /// The manifest file could not be read.
    Io(String),
    /// The text is no YAML, or no manifest.
    Yaml(String),
    /// The manifest declares another schema.
    Schema { found: String, expected: String },
    /// A declaration breaks a rule of the manifest.
    Contract(String),
}

/// Why a manufacturer index was not loaded. Any error ends the load.
#[derive(Debug, Clone, PartialEq, Eq)]
pub enum ConfigError {
    IndexParse(String),
    BodyParse { id: String, err: String },
    MissingModelBody { id: String },
    UnknownFamily { model_id: String, family_id: String },
    Validation { path: String, message: String },
}

/// What an index error reports.
pub enum ConfigFault {
    IndexParse(Seq<char>),
    BodyParse { id: Seq<char>, err: Seq<char> },
    MissingModelBody { id: Seq<char> },
    UnknownFamily { model_id: Seq<char>, family_id: Seq<char> },
    Validation { path: Seq<char>, message: Seq<char> },
}

impl View for ConfigError {
    type V = ConfigFault;

    open spec fn view(&self) -> ConfigFault {
        match *self {
            ConfigError::IndexParse(m) => ConfigFault::IndexParse(m@),
            ConfigError::BodyParse { id, err } => ConfigFault::BodyParse { id: id@, err: err@ },
            ConfigError::MissingModelBody { id } => ConfigFault::MissingModelBody { id: id@ },
            ConfigError::UnknownFamily { model_id, family_id } => ConfigFault::UnknownFamily {
                model_id: model_id@,
                family_id: family_id@,
            },
            ConfigError::Validation { path, message } => ConfigFault::Validation {
                path: path@,
                message: message@,
            },
        }
    }
}

/// Whether a verdict reports the fault `f`, or none where there is none.
pub open spec fn faults<T>(r: Result<T, ConfigError>, f: Option<ConfigFault>) -> bool {
    match f {
        None => r is Ok,
        Some(f) => r matches Err(e) && e@ == f,
    }
}

/// The first of two faults.
pub open spec fn first_fault(a: Option<ConfigFault>, b: Option<ConfigFault>) -> Option<
    ConfigFault,
> {
    if a is Some {
        a
    } else {
        b
    }
}

/// The fault of a value at a path.
pub open spec fn invalid(path: Seq<char>, message: Seq<char>) -> ConfigFault {
    ConfigFault::Validation { path, message }
}

/// A finding that does not stop a load.
#[derive(Debug, Clone, PartialEq, Eq)]
pub struct Lint {
    pub severity: Severity,
    pub message: String,
}

#[derive(Debug, Clone, Copy, PartialEq, Eq, Structural)]
pub enum Severity {
    Warning,
    Info,
}

impl Lint {
    /// A warning with this message.
    pub fn warn(message: String) -> (r: Self)
        ensures
            r.severity == Severity::Warning,
            r.message == message,
    {
        Lint { severity: Severity::Warning, message }
    }
}

/// What a manifest error says.
pub open spec fn manifest_error_text(e: ManifestError) -> Seq<char> {
    match e {
        ManifestError::Io(m) => "io error reading manifest: "@ + m@,
        ManifestError::Yaml(m) => "YAML parse error: "@ + m@,
        ManifestError::Schema { found, expected } => "unsupported schema "@ + text_debug(found@)
            + "; this build understands "@ + text_debug(expected@),
        ManifestError::Contract(m) => m@,
    }
}

impl ManifestError {
    /// What the error says.
    pub fn message(&self) -> (r: String)
        ensures
            r@ == manifest_error_text(*self),
    {
        match self {
            ManifestError::Io(m) => join2("io error reading manifest: ", m.as_str()),
            ManifestError::Yaml(m) => join2("YAML parse error: ", m.as_str()),
            ManifestError::Schema { found, expected } => join4(
                "unsupported schema ",
                debug_text(found.as_str()).as_str(),
                "; this build understands ",
                debug_text(expected.as_str()).as_str(),
            ),
            ManifestError::Contract(m) => m.clone(),
        }
    }
}

/// What an index error says.
pub open spec fn config_error_text(e: ConfigError) -> Seq<char> {
    match e {
        ConfigError::IndexParse(m) => "YAML parse error in manufacturer index: "@ + m@,
        ConfigError::BodyParse { id, err } => "YAML parse error in model body '"@ + id@ + "': "@
            + err@,
        ConfigError::MissingModelBody { id } => "model '"@ + id@
            + "' declared in index but no body supplied"@,
        ConfigError::UnknownFamily { model_id, family_id } => "model '"@ + model_id@
            + "' inherits from unknown family '"@ + family_id@ + "'"@,
        ConfigError::Validation { path, message } => "validation failed at "@ + path@ + ": "@
            + message@,
    }
}

impl ConfigError {
    /// What the error says.
    pub fn message(&self) -> (r: String)
        ensures
            r@ == config_error_text(*self),
    {
        match self {
            ConfigError::IndexParse(m) => join2(
                "YAML parse error in manufacturer index: ",
                m.as_str(),
            ),
            ConfigError::BodyParse { id, err } => join4(
                "YAML parse error in model body '",
                id.as_str(),
                "': ",
                err.as_str(),
            ),
            ConfigError::MissingModelBody { id } => join3(
                "model '",
                id.as_str(),
                "' declared in index but no body supplied",
            ),
            ConfigError::UnknownFamily { model_id, family_id } => join5(
                "model '",
                model_id.as_str(),
                "' inherits from unknown family '",
                family_id.as_str(),
                "'",
            ),
            ConfigError::Validation { path, message } => join4(
                "validation failed at ",
                path.as_str(),
                ": ",
                message.as_str(),
            ),
        }
    }
}

} // verus!
