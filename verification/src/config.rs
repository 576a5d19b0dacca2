//! Simulation configuration records and the core error type. Reading them
//! from files is left to the caller.

use vstd::prelude::*;
use std::collections::HashMap;
use crate::text::push_str;

verus! {

/// Configuration for a simulated node.
#[derive(Debug, Clone)]
pub struct NodeConfig {
    pub name: String,
    pub image: String,
    pub command: Option<String>,
    pub ports: Option<Vec<String>>,
    pub env: Option<HashMap<String, String>>,
}

/// Configuration for a property to check.
#[derive(Debug, Clone)]
pub struct PropertyConfig {
    pub name: String,
    pub kind: String,
    pub params: Option<HashMap<String, String>>,
}

/// The core error type.
#[derive(Debug)]
pub enum HeisensimError {
    ConfigError(String),
    ProcessError(String),
    NetworkError(String),
    InterceptError(String),
    ReplayError(String),
    /// An I/O failure, with its message.
    IoError(String),
    SerializationError(String),
}

/// The message of each error: its category and the detail.
pub open spec fn heisensim_error_text(e: HeisensimError) -> Seq<char> {
    match e {
        HeisensimError::ConfigError(m) => "Configuration error: "@ + m@,
        HeisensimError::ProcessError(m) => "Process error: "@ + m@,
        HeisensimError::NetworkError(m) => "Network error: "@ + m@,
        HeisensimError::InterceptError(m) => "Intercept error: "@ + m@,
        HeisensimError::ReplayError(m) => "Replay error: "@ + m@,
        HeisensimError::IoError(m) => "IO error: "@ + m@,
        HeisensimError::SerializationError(m) => "Serialization error: "@ + m@,
    }
}

impl HeisensimError {
    /// The error's message.
    pub fn message(&self) -> (s: String)
        ensures
            s@ == heisensim_error_text(*self),
    {
        let mut s = String::new();
        let detail = match self {
            HeisensimError::ConfigError(m) => {
                push_str(&mut s, "Configuration error: ");
                m
            },
            HeisensimError::ProcessError(m) => {
                push_str(&mut s, "Process error: ");
                m
            },
            HeisensimError::NetworkError(m) => {
                push_str(&mut s, "Network error: ");
                m
            },
            HeisensimError::InterceptError(m) => {
                push_str(&mut s, "Intercept error: ");
                m
            },
            HeisensimError::ReplayError(m) => {
                push_str(&mut s, "Replay error: ");
                m
            },
            HeisensimError::IoError(m) => {
                push_str(&mut s, "IO error: ");
                m
            },
            HeisensimError::SerializationError(m) => {
                push_str(&mut s, "Serialization error: ");
                m
            },
        };
        push_str(&mut s, detail.as_str());
        s
    }
}

} // verus!
