//! Configuration for connecting to Jenkins: the record itself, its
//! validation rules, the combination of environment values, and the
//! reading and writing of the TOML file format.

use vstd::prelude::*;

use crate::text::{chars_of, is_truthy_chars, prefix_at, prefix_at_exec, truthy};
use crate::types::LspError;

verus! {

/// Connection settings, immutable once loaded.
#[derive(Debug, Clone, PartialEq)]
pub struct Config {
    /// Jenkins base URL; must begin with `http://` or `https://`.
    pub jenkins_url: String,
    /// Jenkins username.
    pub username: String,
    /// Jenkins API token.
    pub api_token: String,
    /// Skip TLS certificate verification (for self-signed certificates).
    pub insecure: bool,
}

/// The ways a configuration can be invalid, in the order they are checked.
pub enum ConfigIssue {
    UrlEmpty,
    UserEmpty,
    TokenEmpty,
    BadScheme,
}

pub open spec fn issue_message(i: ConfigIssue) -> Seq<char> {
    match i {
        ConfigIssue::UrlEmpty => "jenkins_url cannot be empty"@,
        ConfigIssue::UserEmpty => "username cannot be empty"@,
        ConfigIssue::TokenEmpty => "api_token cannot be empty"@,
        ConfigIssue::BadScheme => "jenkins_url must start with http:// or https://"@,
    }
}

/// The first issue a configuration has, if any: the three fields must be
/// non-empty and the URL must carry an HTTP scheme.
pub open spec fn spec_validate(url: Seq<char>, user: Seq<char>, token: Seq<char>) -> Option<
    ConfigIssue,
> {
    if url.len() == 0 {
        Some(ConfigIssue::UrlEmpty)
    } else if user.len() == 0 {
        Some(ConfigIssue::UserEmpty)
    } else if token.len() == 0 {
        Some(ConfigIssue::TokenEmpty)
    } else if !(prefix_at(url, 0, "http://"@) || prefix_at(url, 0, "https://"@)) {
        Some(ConfigIssue::BadScheme)
    } else {
        None
    }
}

/// The first of two optional settings that is present.
pub open spec fn first_set<T>(a: Option<T>, b: Option<T>) -> Option<T> {
    if a is Some {
        a
    } else {
        b
    }
}

impl Config {
    /// Check that all required fields are present and the URL scheme is
    /// HTTP or HTTPS; the error names the first field that is wrong.
    pub fn validate(&self) -> (r: Result<(), LspError>)
        ensures
            match spec_validate(self.jenkins_url@, self.username@, self.api_token@) {
                None => r is Ok,
                Some(issue) => (r matches Err(LspError::Config(m)) && m@ == issue_message(issue)),
            },
    {
        if self.jenkins_url.as_str().is_empty() {
            return Err(LspError::Config("jenkins_url cannot be empty".to_owned()));
        }
        if self.username.as_str().is_empty() {
            return Err(LspError::Config("username cannot be empty".to_owned()));
        }
        if self.api_token.as_str().is_empty() {
            return Err(LspError::Config("api_token cannot be empty".to_owned()));
        }
        let url_chars = chars_of(self.jenkins_url.as_str());
        let http = chars_of("http://");
        let https = chars_of("https://");
        if !prefix_at_exec(&url_chars, 0, &http) && !prefix_at_exec(&url_chars, 0, &https) {
            return Err(
                LspError::Config("jenkins_url must start with http:// or https://".to_owned()),
            );
        }
        Ok(())
    }

    /// Combine environment values into a configuration. Each setting takes
    /// the first of its variables that is set; a configuration results only
    /// when URL, username and token are all present. The insecure flag is
    /// true for `1` or a case-insensitive `true`.
    pub fn from_env_parts(
        url: Option<String>,
        host: Option<String>,
        user_id: Option<String>,
        user_name: Option<String>,
        api_token: Option<String>,
        token: Option<String>,
        password: Option<String>,
        insecure: Option<String>,
    ) -> (r: Option<Config>)
        ensures
            (r is Some) <==> (first_set(url, host) is Some && first_set(user_id, user_name)
                is Some && first_set(api_token, first_set(token, password)) is Some),
            r matches Some(c) ==> {
                &&& first_set(url, host) matches Some(s1) && c.jenkins_url@ == s1@
                &&& first_set(user_id, user_name) matches Some(s2) && c.username@ == s2@
                &&& first_set(api_token, first_set(token, password)) matches Some(s3)
                    && c.api_token@ == s3@
                &&& c.insecure == (insecure matches Some(v) && is_truthy_chars(v@))
            },
    {
        let flag = match &insecure {
            Some(v) => truthy(v.as_str()),
            None => false,
        };
        let picked_url = match url {
            Some(x) => Some(x),
            None => host,
        };
        let picked_user = match user_id {
            Some(x) => Some(x),
            None => user_name,
        };
        let picked_token = match api_token {
            Some(x) => Some(x),
            None => match token {
                Some(x) => Some(x),
                None => password,
            },
        };
        match (picked_url, picked_user, picked_token) {
            (Some(jenkins_url), Some(username), Some(api_token_value)) => Some(
                Config { jenkins_url, username, api_token: api_token_value, insecure: flag },
            ),
            _ => None,
        }
    }
}

/// What a configuration file's text decodes to: the values of the string
/// keys `jenkins_url`, `username` and `api_token` and of the optional
/// boolean key `insecure` (false when absent), if the text is a TOML table
/// holding them.
pub uninterp spec fn config_of_toml(s: Seq<char>) -> Option<(Seq<char>, Seq<char>, Seq<char>, bool)>;

/// Relies on toml::from_str: whether a string is a TOML table with the
/// three required string keys and the optional boolean key, and what they
/// hold, is a function of the string alone.
#[verifier::external_body]
fn decode_config_toml(s: &str) -> (r: Option<Config>)
    ensures
        match r {
            Some(c) => config_of_toml(s@) == Some(
                (c.jenkins_url@, c.username@, c.api_token@, c.insecure),
            ),
            None => config_of_toml(s@) is None,
        },
{
    let table: toml::Table = toml::from_str(s).ok()?;
    let jenkins_url = table.get("jenkins_url")?.as_str()?.to_string();
    let username = table.get("username")?.as_str()?.to_string();
    let api_token = table.get("api_token")?.as_str()?.to_string();
    let insecure = match table.get("insecure") {
        Some(v) => v.as_bool()?,
        None => false,
    };
    Some(Config { jenkins_url, username, api_token, insecure })
}

/// The TOML rendering of a configuration's four fields.
pub uninterp spec fn toml_of_config(
    url: Seq<char>,
    user: Seq<char>,
    token: Seq<char>,
    insecure: bool,
) -> Seq<char>;

/// Relies on toml::to_string over a table holding the four configuration
/// keys: the rendering is a function of the field values alone.
#[verifier::external_body]
pub fn config_to_toml(c: &Config) -> (r: String)
    ensures
        r@ == toml_of_config(c.jenkins_url@, c.username@, c.api_token@, c.insecure),
{
    let mut table = toml::Table::new();
    table.insert("jenkins_url".to_string(), toml::Value::String(c.jenkins_url.clone()));
    table.insert("username".to_string(), toml::Value::String(c.username.clone()));
    table.insert("api_token".to_string(), toml::Value::String(c.api_token.clone()));
    table.insert("insecure".to_string(), toml::Value::Boolean(c.insecure));
    toml::to_string(&table).unwrap_or_default()
}

/// Read a configuration from the text of a TOML file and validate it: a
/// text that does not decode is a deserialization error, a decoded but
/// invalid configuration reports its first issue, and otherwise the
/// decoded configuration is returned.
pub fn parse_config_toml(s: &str) -> (r: Result<Config, LspError>)
    ensures
        config_of_toml(s@) is None ==> (r matches Err(LspError::TomlDe(m)) && m@
            == "the file is not a TOML table with jenkins_url, username and api_token"@),
        config_of_toml(s@) matches Some(t) ==> match spec_validate(t.0, t.1, t.2) {
            None => (r matches Ok(c) && c.jenkins_url@ == t.0 && c.username@ == t.1
                && c.api_token@ == t.2 && c.insecure == t.3),
            Some(issue) => (r matches Err(LspError::Config(m)) && m@ == issue_message(issue)),
        },
{
    match decode_config_toml(s) {
        None => Err(
            LspError::TomlDe(
                "the file is not a TOML table with jenkins_url, username and api_token".to_owned(),
            ),
        ),
        Some(c) => match c.validate() {
            Ok(()) => Ok(c),
            Err(e) => Err(e),
        },
    }
}

} // verus!
