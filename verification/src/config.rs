//! The configuration: where it is kept, and the credential it holds.

use crate::error::DiagnosisError;
use crate::json::{as_text, json_parsed, json_tree, member, parse, JsonTree};
use vstd::prelude::*;
use vstd::string::*;

verus! {

/// What the configuration file holds.
#[derive(Debug, PartialEq, Eq)]
pub struct Configuration {
    /// The bearer credential for the endpoint.
    pub token: String,
}

/// Where the configuration file is.
#[derive(Debug, PartialEq, Eq)]
pub enum ConfigPath {
    /// At the path that the caller gave.
    Given(String),
    /// In the home directory given here, under the default name.
    InHome(String),
}

/// The token that a document holds: its member `token`, where the document
/// is an object and that member a string.  Other members are not looked at.
pub open spec fn document_token(document: JsonTree) -> Option<Seq<char>> {
    match document.member("token"@) {
        JsonTree::Text(token) => Some(token),
        _ => None,
    }
}

/// The token that a configuration text holds: that of the JSON document
/// which the text denotes.
pub open spec fn token_of(content: Seq<char>) -> Option<Seq<char>> {
    match json_parsed(content) {
        Some(document) => document_token(document),
        None => None,
    }
}

impl Configuration {
    /// The name of the configuration file in the home directory.
    pub fn default_name() -> (name: String)
        ensures
            name@ == ".what.config.json"@,
    {
        String::from_str(".what.config.json")
    }

    /// Takes the configuration out of the JSON document that its file holds.
    pub fn from_document(document: &serde_json::Value) -> (result: Result<
        Configuration,
        DiagnosisError,
    >)
        ensures
            match document_token(json_tree(*document)) {
                Some(token) => result matches Ok(configuration) && configuration.token@ == token,
                None => result matches Err(DiagnosisError::InvalidConfiguration),
            },
    {
        match as_text(member(document, "token")) {
            Some(token) => Ok(Configuration { token: token.to_owned() }),
            None => Err(DiagnosisError::InvalidConfiguration),
        }
    }

    /// Reads the configuration from the content of the file at `path`, or
    /// from `None` where there is no such file.  A missing file fails the
    /// run, as does a content without a token.
    pub fn parse(path: &str, content: Option<&str>) -> (result: Result<
        Configuration,
        DiagnosisError,
    >)
        ensures
            match content {
                None => result matches Err(DiagnosisError::MissingConfiguration(place)) && place@
                    == path@,
                Some(text) => match token_of(text@) {
                    Some(token) => result matches Ok(configuration) && configuration.token@
                        == token,
                    None => result matches Err(DiagnosisError::InvalidConfiguration),
                },
            },
    {
        match content {
            None => Err(DiagnosisError::MissingConfiguration(path.to_owned())),
            Some(text) => match parse(text) {
                Err(_) => Err(DiagnosisError::InvalidConfiguration),
                Ok(document) => Self::from_document(&document),
            },
        }
    }

    /// Decides where the configuration file is: where the caller says, or
    /// else in the home directory.  Without either there is no place.
    pub fn resolve_config_path(path_hint: Option<String>, home: Option<String>) -> (result: Result<
        ConfigPath,
        DiagnosisError,
    >)
        ensures
            match (path_hint, home) {
                (Some(path), _) => result == Ok::<ConfigPath, DiagnosisError>(
                    ConfigPath::Given(path),
                ),
                (None, Some(directory)) => result == Ok::<ConfigPath, DiagnosisError>(
                    ConfigPath::InHome(directory),
                ),
                (None, None) => result == Err::<ConfigPath, DiagnosisError>(
                    DiagnosisError::MissingHome,
                ),
            },
    {
        match path_hint {
            Some(path) => Ok(ConfigPath::Given(path)),
            None => match home {
                Some(directory) => Ok(ConfigPath::InHome(directory)),
                None => Err(DiagnosisError::MissingHome),
            },
        }
    }
}

} // verus!
