//! The error taxonomy of the pipeline: filesystem failures, front-matter
//! parse failures, traversal failures, configuration failures, converter
//! failures, and missing external tools.

use vstd::prelude::*;

verus! {

/// One error category per failure source.  Variants that wrap an outside
/// error carry its rendered message as text.
#[derive(Debug)]
pub enum AutoDocError {
    /// A filesystem access failed.
    Io(String),
    /// A front-matter block was present but could not be parsed.
    Yaml(String),
    /// A directory traversal failed.
    WalkDir(String),
    /// The persisted settings file is invalid.
    Config { message: String },
    /// The external converter ran and failed, or could not be run.
    Build { message: String },
    /// A required external tool is absent.
    Dependency { tool: String, hint: String },
    /// A named file does not exist.
    FileNotFound { path: String },
}

/// The descriptive text of an error, as the top-level invocation prints it.
pub open spec fn error_message_spec(e: AutoDocError) -> Seq<char> {
    match e {
        AutoDocError::Io(m) => "IO error: "@ + m@,
        AutoDocError::Yaml(m) => "YAML parsing error: "@ + m@,
        AutoDocError::WalkDir(m) => "Directory traversal error: "@ + m@,
        AutoDocError::Config { message } => "Configuration error: "@ + message@,
        AutoDocError::Build { message } => "Build error: "@ + message@,
        AutoDocError::Dependency { tool, hint } => "Dependency missing: "@ + tool@ + " - "@
            + hint@,
        AutoDocError::FileNotFound { path } => "File not found: "@ + path@,
    }
}

impl AutoDocError {
    /// Renders the error as one descriptive line.
    pub fn message(&self) -> (r: String)
        ensures
            r@ == error_message_spec(*self),
    {
        match self {
            AutoDocError::Io(m) => {
                let mut s = String::from_str("IO error: ");
                s.append(m.as_str());
                s
            },
            AutoDocError::Yaml(m) => {
                let mut s = String::from_str("YAML parsing error: ");
                s.append(m.as_str());
                s
            },
            AutoDocError::WalkDir(m) => {
                let mut s = String::from_str("Directory traversal error: ");
                s.append(m.as_str());
                s
            },
            AutoDocError::Config { message } => {
                let mut s = String::from_str("Configuration error: ");
                s.append(message.as_str());
                s
            },
            AutoDocError::Build { message } => {
                let mut s = String::from_str("Build error: ");
                s.append(message.as_str());
                s
            },
            AutoDocError::Dependency { tool, hint } => {
                let mut s = String::from_str("Dependency missing: ");
                s.append(tool.as_str());
                s.append(" - ");
                s.append(hint.as_str());
                s
            },
            AutoDocError::FileNotFound { path } => {
                let mut s = String::from_str("File not found: ");
                s.append(path.as_str());
                s
            },
        }
    }
}

} // verus!
