//! Context-aware completion and whole-document formatting for CQL text.
//!
//! The crate works on lines of characters: a document is a `Vec<Vec<char>>`,
//! a cursor position is a character index into one line.  Everything here is
//! lexical scanning over those lines; no grammar or syntax tree is built.

pub mod classify;
pub mod complete;
pub mod format;
pub mod keywords;
pub mod scan;
pub mod schema;
pub mod scope;
pub mod text;
