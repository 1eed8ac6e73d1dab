//! Pattern-templated search: a search key is taken apart by a capture pattern,
//! a template is filled with the captured fields (optionally rewritten by
//! per-field rules), and the text that results is used as the pattern that
//! selects entries of a corpus.

pub mod cache;
pub mod config;
pub mod engine;
pub mod error;
pub mod finder;
pub mod fs;
pub mod pattern;
pub mod rules;
pub mod template;
pub mod text;
