//! A two-speaker dialog, generated turn by turn with a language model.
//!
//! The library holds everything about such a run that is a matter of rule:
//! how the configuration files are read ([`config`]), which speaker takes
//! which turn and what the model is asked ([`orchestrator`]), how a raw
//! reply becomes one clean utterance ([`sanitize`]), how scripts are read
//! back ([`script`], [`editor`]), what a request to the model server holds
//! and what its answer means ([`ollama`]), and what the result files are
//! called and hold ([`output`]). Reading files, sending requests and
//! measuring time are left to the caller.
//!
//! Text is modelled as `Seq<char>` throughout; [`text`] and [`decimal`]
//! hold the operations on it, and [`unicode`] names what the standard
//! library's Unicode tables decide.

pub mod config;
pub mod decimal;
pub mod editor;
pub mod error;
pub mod ollama;
pub mod orchestrator;
pub mod output;
pub mod sanitize;
pub mod script;
pub mod text;
pub mod unicode;
