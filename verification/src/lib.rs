//! Core of a template compiler for static site generation.
//!
//! Source files mix literal text with embedded script expressions (`{{ .. }}`)
//! and script statements (`{% .. %}`). The library tokenizes such text,
//! classifies the tokens into typed chunks (unrolling loop blocks into one
//! synthesized script chunk), memoizes parses per file path, executes chunks
//! against a scripting engine, derives per-file metadata, and detects layout
//! inclusion cycles. All file, network and process I/O is left to callers.

pub mod buildinfo;
pub mod cache;
pub mod chunks;
pub mod compile;
pub mod csv;
pub mod engine;
pub mod git_times;
pub mod handle_html;
pub mod highlight_syntax;
pub mod metadata;
pub mod paths;
pub mod strip_html;
pub mod text;
pub mod tokenizer;

pub use tokenizer::Token;
pub use tokenizer::TokenModel;
pub use tokenizer::Tokenized;
pub use tokenizer::tokenize;
