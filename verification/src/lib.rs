//! Settings and credential management for a command-line tool that talks to
//! several providers.
//!
//! The library keeps two stores consistent: the settings tree (active
//! provider, provider definitions, auxiliary servers, trusted projects) and
//! the credential store. It never touches a file itself. Every operation
//! takes the content of the files it needs and returns the content to save,
//! and the atomic writer says which file operation comes next; the caller
//! reads and writes.
//!
//! * `json`, `tree`, `assoc`: the two value trees and their ordered tables.
//! * `codec`, `decimal`: the conversion between them, and the reading of
//!   numbers that it needs.
//! * `settings`, `repository`: the operations on the settings, on a tree and
//!   on the text of the settings file.
//! * `credentials`: the credential store.
//! * `nodes`: providers joined with their credentials, and the switch.
//! * `atomic`: the decisions of the atomic file writer.
//! * `laws`: what holds of the operations, proved.
//! * `json_text`, `toml_text`, `text`: the boundary to the crates and
//!   functions that read and write text.

pub mod assoc;
pub mod atomic;
pub mod codec;
pub mod credentials;
pub mod decimal;
pub mod diagnostics;
pub mod error;
pub mod json;
pub mod json_text;
pub mod laws;
pub mod nodes;
pub mod repository;
pub mod settings;
pub mod text;
pub mod toml_text;
pub mod tree;
pub mod version;
