//! What can go wrong in a run.

use crate::decimal::{decimal, decimal_text};
use crate::text::string_of;
use vstd::prelude::*;
use vstd::string::StringExecFns;

verus! {

/// The failures of a run, each with the text that describes its cause.
#[derive(Debug)]
pub enum DialogGenError {
    /// A configuration file could not be read; holds the file's name.
    MissingFile(String),
    /// The model server could not be reached; holds what the transport said.
    OllamaUnavailable(String),
    /// The model server answered, but not with a usable reply.
    GenerationFailed(String),
    /// Reading or writing a file failed.
    Io(String),
    /// The transport failed after the server was reached.
    Http(String),
    /// A document could not be encoded or decoded.
    Json(String),
}

/// The part of a run in which something can fail.
#[derive(Debug, Clone, Copy, PartialEq, Eq, Structural)]
pub enum Phase {
    /// Asking the model server whether it is up.
    HealthCheck,
    /// Generating the turn with this number, counted from one.
    Turn(usize),
    /// The editing pass.
    Editing,
}

impl Phase {
    /// The name of the phase.
    pub open spec fn name(&self) -> Seq<char> {
        match self {
            Phase::HealthCheck => "health check"@,
            Phase::Turn(n) => "turn "@ + decimal_text(*n as nat) + " generation"@,
            Phase::Editing => "editing"@,
        }
    }

    /// The name of the phase.
    pub fn describe(&self) -> (text: String)
        ensures
            text@ == self.name(),
    {
        match self {
            Phase::HealthCheck => String::from_str("health check"),
            Phase::Turn(n) => String::from_str("turn ").concat(
                string_of(&decimal(*n as u128)).as_str(),
            ).concat(" generation"),
            Phase::Editing => String::from_str("editing"),
        }
    }
}

impl DialogGenError {
    /// The text that the error carries.
    pub open spec fn detail(&self) -> Seq<char> {
        match self {
            DialogGenError::MissingFile(s) => s@,
            DialogGenError::OllamaUnavailable(s) => s@,
            DialogGenError::GenerationFailed(s) => s@,
            DialogGenError::Io(s) => s@,
            DialogGenError::Http(s) => s@,
            DialogGenError::Json(s) => s@,
        }
    }

    /// The words that introduce the detail of each kind of error.
    pub open spec fn heading(&self) -> Seq<char> {
        match self {
            DialogGenError::MissingFile(_) => "Missing required file: "@,
            DialogGenError::OllamaUnavailable(_) => "Ollama server unavailable at "@,
            DialogGenError::GenerationFailed(_) => "LLM generation failed: "@,
            DialogGenError::Io(_) => "IO error: "@,
            DialogGenError::Http(_) => "HTTP error: "@,
            DialogGenError::Json(_) => "JSON error: "@,
        }
    }

    /// The report of the error for the phase in which it came up: the
    /// name of the phase, the word `failed`, and the message.
    pub fn report(&self, phase: Phase) -> (text: String)
        ensures
            text@ == phase.name() + " failed: "@ + (self.heading() + self.detail()),
    {
        phase.describe().concat(" failed: ").concat(self.message().as_str())
    }

    /// The message shown to the user: the heading, then the detail.
    pub fn message(&self) -> (text: String)
        ensures
            text@ == self.heading() + self.detail(),
    {
        match self {
            DialogGenError::MissingFile(s) => String::from_str("Missing required file: ").concat(
                s.as_str(),
            ),
            DialogGenError::OllamaUnavailable(s) => String::from_str(
                "Ollama server unavailable at ",
            ).concat(s.as_str()),
            DialogGenError::GenerationFailed(s) => String::from_str(
                "LLM generation failed: ",
            ).concat(s.as_str()),
            DialogGenError::Io(s) => String::from_str("IO error: ").concat(s.as_str()),
            DialogGenError::Http(s) => String::from_str("HTTP error: ").concat(s.as_str()),
            DialogGenError::Json(s) => String::from_str("JSON error: ").concat(s.as_str()),
        }
    }
}

} // verus!
