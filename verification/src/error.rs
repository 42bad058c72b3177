//! The library's error type.
//!
//! Errors that arise outside the library (I/O, HTTP, JSON, SQLite) are held
//! by their rendered message.
use vstd::prelude::*;

use crate::text::{append_chars, append_str, chars_of, string_of};

verus! {

#[derive(Debug, Clone)]
pub enum AgentForgeError {
    Config(String),
    Io(String),
    Http(String),
    Json(String),
    ToolExecution(String),
    ToolNotFound(String),
    Agent(String),
    Ollama(String),
    InvalidRequest(String),
    Sqlite(String),
}

/// The text that precedes the detail in the rendering of each variant.
pub open spec fn error_prefix(e: AgentForgeError) -> Seq<char> {
    match e {
        AgentForgeError::Config(_) => seq![
            'C', 'o', 'n', 'f', 'i', 'g', 'u', 'r', 'a', 't', 'i', 'o', 'n', ' ', 'e', 'r', 'r', 'o', 'r', ':', ' '
        ],
        AgentForgeError::Io(_) => seq!['I', 'O', ' ', 'e', 'r', 'r', 'o', 'r', ':', ' '],
        AgentForgeError::Http(_) => seq!['H', 'T', 'T', 'P', ' ', 'e', 'r', 'r', 'o', 'r', ':', ' '],
        AgentForgeError::Json(_) => seq!['J', 'S', 'O', 'N', ' ', 'e', 'r', 'r', 'o', 'r', ':', ' '],
        AgentForgeError::ToolExecution(_) => seq![
            'T', 'o', 'o', 'l', ' ', 'e', 'x', 'e', 'c', 'u', 't', 'i', 'o', 'n', ' ', 'f', 'a', 'i', 'l', 'e', 'd', ':', ' '
        ],
        AgentForgeError::ToolNotFound(_) => seq![
            'T', 'o', 'o', 'l', ' ', 'n', 'o', 't', ' ', 'f', 'o', 'u', 'n', 'd', ':', ' '
        ],
        AgentForgeError::Agent(_) => seq!['A', 'g', 'e', 'n', 't', ' ', 'e', 'r', 'r', 'o', 'r', ':', ' '],
        AgentForgeError::Ollama(_) => seq!['O', 'l', 'l', 'a', 'm', 'a', ' ', 'e', 'r', 'r', 'o', 'r', ':', ' '],
        AgentForgeError::InvalidRequest(_) => seq![
            'I', 'n', 'v', 'a', 'l', 'i', 'd', ' ', 'r', 'e', 'q', 'u', 'e', 's', 't', ':', ' '
        ],
        AgentForgeError::Sqlite(_) => seq!['S', 'Q', 'L', 'i', 't', 'e', ' ', 'e', 'r', 'r', 'o', 'r', ':', ' '],
    }
}

/// The detail text that every variant carries.
pub open spec fn error_detail(e: AgentForgeError) -> Seq<char> {
    match e {
        AgentForgeError::Config(s) => s@,
        AgentForgeError::Io(s) => s@,
        AgentForgeError::Http(s) => s@,
        AgentForgeError::Json(s) => s@,
        AgentForgeError::ToolExecution(s) => s@,
        AgentForgeError::ToolNotFound(s) => s@,
        AgentForgeError::Agent(s) => s@,
        AgentForgeError::Ollama(s) => s@,
        AgentForgeError::InvalidRequest(s) => s@,
        AgentForgeError::Sqlite(s) => s@,
    }
}

/// How an error reads when it is displayed.
pub open spec fn error_text(e: AgentForgeError) -> Seq<char> {
    error_prefix(e) + error_detail(e)
}

impl AgentForgeError {
    /// The error's message, as `{}` displays it.
    pub fn display(&self) -> (res: String)
        ensures
            res@ == error_text(*self),
    {
        let mut out: Vec<char> = Vec::new();
        let detail: &String;
        match self {
            AgentForgeError::Config(s) => {
                out = vec![
                    'C', 'o', 'n', 'f', 'i', 'g', 'u', 'r', 'a', 't', 'i', 'o', 'n', ' ', 'e', 'r', 'r', 'o', 'r', ':', ' '
                ];
                detail = s;
            },
            AgentForgeError::Io(s) => {
                out = vec!['I', 'O', ' ', 'e', 'r', 'r', 'o', 'r', ':', ' '];
                detail = s;
            },
            AgentForgeError::Http(s) => {
                out = vec!['H', 'T', 'T', 'P', ' ', 'e', 'r', 'r', 'o', 'r', ':', ' '];
                detail = s;
            },
            AgentForgeError::Json(s) => {
                out = vec!['J', 'S', 'O', 'N', ' ', 'e', 'r', 'r', 'o', 'r', ':', ' '];
                detail = s;
            },
            AgentForgeError::ToolExecution(s) => {
                out = vec![
                    'T', 'o', 'o', 'l', ' ', 'e', 'x', 'e', 'c', 'u', 't', 'i', 'o', 'n', ' ', 'f', 'a', 'i', 'l', 'e', 'd', ':', ' '
                ];
                detail = s;
            },
            AgentForgeError::ToolNotFound(s) => {
                out = vec![
                    'T', 'o', 'o', 'l', ' ', 'n', 'o', 't', ' ', 'f', 'o', 'u', 'n', 'd', ':', ' '
                ];
                detail = s;
            },
            AgentForgeError::Agent(s) => {
                out = vec!['A', 'g', 'e', 'n', 't', ' ', 'e', 'r', 'r', 'o', 'r', ':', ' '];
                detail = s;
            },
            AgentForgeError::Ollama(s) => {
                out = vec!['O', 'l', 'l', 'a', 'm', 'a', ' ', 'e', 'r', 'r', 'o', 'r', ':', ' '];
                detail = s;
            },
            AgentForgeError::InvalidRequest(s) => {
                out = vec![
                    'I', 'n', 'v', 'a', 'l', 'i', 'd', ' ', 'r', 'e', 'q', 'u', 'e', 's', 't', ':', ' '
                ];
                detail = s;
            },
            AgentForgeError::Sqlite(s) => {
                out = vec!['S', 'Q', 'L', 'i', 't', 'e', ' ', 'e', 'r', 'r', 'o', 'r', ':', ' '];
                detail = s;
            },
        }
        assert(out@ == error_prefix(*self));
        append_str(&mut out, detail.as_str());
        string_of(&out)
    }
}

} // verus!
