//! The error taxonomy: one closed set of variants per subsystem (storage,
//! external backend, command surface), each with a human-readable message.

use vstd::prelude::*;
use vstd::string::StringExecFns;
use crate::dec::{dec_rep, push_dec};
use crate::chars::string_from_chars;

verus! {

/// Failures of the persisted state store and its environment.
#[derive(Debug, Clone, PartialEq, Eq)]
pub enum ConfigError {
    HomeNotSet,
    InvalidPath(String),
    InvalidUserIndex(usize),
    SerializationFailed(String),
    DeserializationFailed(String),
    DirectoryCreationFailed(String),
    WriteError(String),
    ReadError(String),
}

/// Failures of the external version-control backend.
#[derive(Debug, Clone, PartialEq, Eq)]
pub enum GitError {
    NotInstalled,
    ConfigUpdateError(String),
    ConfigReadError(String),
    CommandFailed(String),
    OutputParseError(String),
}

/// Failures of the command surface.
#[derive(Debug, Clone, PartialEq, Eq)]
pub enum CliError {
    InvalidUsage(String),
    ParseError(String),
    GitError(String),
    ConfigError(String),
    CommandError(String),
}

/// The message line of a storage error.
pub open spec fn config_error_msg(e: ConfigError) -> Seq<char> {
    match e {
        ConfigError::HomeNotSet => "HOME environment variable not set"@,
        ConfigError::InvalidPath(p) => "Invalid config path: "@ + p@,
        ConfigError::InvalidUserIndex(i) => "User not found at index: "@ + dec_rep(i as nat),
        ConfigError::SerializationFailed(m) => "Failed to serialize config: "@ + m@,
        ConfigError::DeserializationFailed(m) => "Failed to deserialize config: "@ + m@,
        ConfigError::DirectoryCreationFailed(m) => "Failed to create config directory: "@ + m@,
        ConfigError::WriteError(m) => "Failed to write config file: "@ + m@,
        ConfigError::ReadError(m) => "Failed to read config file: "@ + m@,
    }
}

/// The message line of a backend error.
pub open spec fn git_error_msg(e: GitError) -> Seq<char> {
    match e {
        GitError::NotInstalled => "Git is not installed. Please install Git to use this tool."@,
        GitError::ConfigUpdateError(m) => "Failed to update Git config: "@ + m@,
        GitError::ConfigReadError(m) => "Failed to read Git config: "@ + m@,
        GitError::CommandFailed(m) => "Git command failed: "@ + m@,
        GitError::OutputParseError(m) => "Failed to parse Git output: "@ + m@,
    }
}

/// The message line of a command-surface error.
pub open spec fn cli_error_msg(e: CliError) -> Seq<char> {
    match e {
        CliError::InvalidUsage(m) => "Invalid usage: "@ + m@,
        CliError::ParseError(m) => "Parse error: "@ + m@,
        CliError::GitError(m) => "Git error: "@ + m@,
        CliError::ConfigError(m) => "Config error: "@ + m@,
        CliError::CommandError(m) => "Command error: "@ + m@,
    }
}

impl ConfigError {
    /// The message line of this error.
    pub fn message(&self) -> (r: String)
        ensures
            r@ == config_error_msg(*self),
    {
        match self {
            ConfigError::HomeNotSet => String::from_str("HOME environment variable not set"),
            ConfigError::InvalidPath(p) => {
                let mut s = String::from_str("Invalid config path: ");
                s.append(p.as_str());
                s
            },
            ConfigError::InvalidUserIndex(i) => {
                let mut s = String::from_str("User not found at index: ");
                let mut digits: Vec<char> = Vec::new();
                push_dec(*i, &mut digits);
                let d = string_from_chars(&digits);
                s.append(d.as_str());
                s
            },
            ConfigError::SerializationFailed(m) => {
                let mut s = String::from_str("Failed to serialize config: ");
                s.append(m.as_str());
                s
            },
            ConfigError::DeserializationFailed(m) => {
                let mut s = String::from_str("Failed to deserialize config: ");
                s.append(m.as_str());
                s
            },
            ConfigError::DirectoryCreationFailed(m) => {
                let mut s = String::from_str("Failed to create config directory: ");
                s.append(m.as_str());
                s
            },
            ConfigError::WriteError(m) => {
                let mut s = String::from_str("Failed to write config file: ");
                s.append(m.as_str());
                s
            },
            ConfigError::ReadError(m) => {
                let mut s = String::from_str("Failed to read config file: ");
                s.append(m.as_str());
                s
            },
        }
    }
}

impl GitError {
    /// The message line of this error.
    pub fn message(&self) -> (r: String)
        ensures
            r@ == git_error_msg(*self),
    {
        match self {
            GitError::NotInstalled => String::from_str(
                "Git is not installed. Please install Git to use this tool.",
            ),
            GitError::ConfigUpdateError(m) => {
                let mut s = String::from_str("Failed to update Git config: ");
                s.append(m.as_str());
                s
            },
            GitError::ConfigReadError(m) => {
                let mut s = String::from_str("Failed to read Git config: ");
                s.append(m.as_str());
                s
            },
            GitError::CommandFailed(m) => {
                let mut s = String::from_str("Git command failed: ");
                s.append(m.as_str());
                s
            },
            GitError::OutputParseError(m) => {
                let mut s = String::from_str("Failed to parse Git output: ");
                s.append(m.as_str());
                s
            },
        }
    }
}

impl CliError {
    /// The message line of this error.
    pub fn message(&self) -> (r: String)
        ensures
            r@ == cli_error_msg(*self),
    {
        match self {
            CliError::InvalidUsage(m) => {
                let mut s = String::from_str("Invalid usage: ");
                s.append(m.as_str());
                s
            },
            CliError::ParseError(m) => {
                let mut s = String::from_str("Parse error: ");
                s.append(m.as_str());
                s
            },
            CliError::GitError(m) => {
                let mut s = String::from_str("Git error: ");
                s.append(m.as_str());
                s
            },
            CliError::ConfigError(m) => {
                let mut s = String::from_str("Config error: ");
                s.append(m.as_str());
                s
            },
            CliError::CommandError(m) => {
                let mut s = String::from_str("Command error: ");
                s.append(m.as_str());
                s
            },
        }
    }

    /// Wraps a backend error, as the command surface reports it.
    pub fn from_git(e: &GitError) -> (r: CliError)
        ensures
            r matches CliError::GitError(m) && m@ == git_error_msg(*e),
    {
        CliError::GitError(e.message())
    }

    /// Wraps a storage error, as the command surface reports it.
    pub fn from_config(e: &ConfigError) -> (r: CliError)
        ensures
            r matches CliError::ConfigError(m) && m@ == config_error_msg(*e),
    {
        CliError::ConfigError(e.message())
    }
}

} // verus!
