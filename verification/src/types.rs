//! Shared data types: the CSRF crumb, the outcome of a validation, and the
//! error taxonomy of the server.

use vstd::prelude::*;
use vstd::string::StringExecFns;

verus! {

/// CSRF crumb returned by Jenkins for authenticated requests. An empty
/// value is valid and means the controller does not require a crumb.
#[derive(Debug, Clone, PartialEq, Eq)]
pub struct Crumb {
    /// The crumb value to include in requests.
    pub crumb: String,
    /// The header field name to send the value under.
    pub crumb_request_field: String,
}

/// Outcome of one validation round-trip against the Jenkins controller.
#[derive(Debug)]
pub enum ValidationResult {
    /// The controller accepted the Jenkinsfile.
    Success,
    /// The controller rejected it; carries the whole response body verbatim.
    Error(String),
}

/// Errors that can occur during the server's operations. Every variant
/// carries its detail as plain text.
#[derive(Debug)]
pub enum LspError {
    JenkinsApi(String),
    Network(String),
    Config(String),
    Auth(String),
    Io(String),
    TomlDe(String),
}

impl LspError {
    /// The user-readable rendering of the error.
    pub open spec fn spec_message(&self) -> Seq<char> {
        match self {
            LspError::JenkinsApi(s) => "Jenkins API error: "@ + s@,
            LspError::Network(s) => "Network error: "@ + s@,
            LspError::Config(s) => "Configuration error: "@ + s@,
            LspError::Auth(s) => "Authentication failed: "@ + s@,
            LspError::Io(s) => "IO error: "@ + s@,
            LspError::TomlDe(s) => "TOML deserialization error: "@ + s@,
        }
    }

    /// Render the error for the user, naming its kind and its detail.
    pub fn message(&self) -> (r: String)
        ensures
            r@ == self.spec_message(),
    {
        match self {
            LspError::JenkinsApi(s) => {
                let mut m = "Jenkins API error: ".to_owned();
                m.append(s.as_str());
                m
            },
            LspError::Network(s) => {
                let mut m = "Network error: ".to_owned();
                m.append(s.as_str());
                m
            },
            LspError::Config(s) => {
                let mut m = "Configuration error: ".to_owned();
                m.append(s.as_str());
                m
            },
            LspError::Auth(s) => {
                let mut m = "Authentication failed: ".to_owned();
                m.append(s.as_str());
                m
            },
            LspError::Io(s) => {
                let mut m = "IO error: ".to_owned();
                m.append(s.as_str());
                m
            },
            LspError::TomlDe(s) => {
                let mut m = "TOML deserialization error: ".to_owned();
                m.append(s.as_str());
                m
            },
        }
    }
}

} // verus!
