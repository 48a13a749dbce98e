//! backuptool: the verified core of a parallel, incremental backup tool.
//!
//! Modules:
//! - [`text`]:     character-sequence helpers shared by the other modules
//! - [`error`]:    the error type of the library
//! - [`platform`]: the operating system a decision is made for
//! - [`order`]:    the order of text keys, and sorting by it
//! - [`textmap`]:  a map from text keys to values, kept in key order
//! - [`crypto`]:   selectable encryption (none / AES-256-GCM / ChaCha20-Poly1305)
//! - [`stream`]:   chunked encryption of file contents, one mebibyte at a time
//! - [`manifest`]: per-file metadata, KDF parameters and the ordered file map
//! - [`engine`]:   incremental diff, relative paths, keys, checks, plans and reports of a run
//! - [`reset`]:    clone commands, storage kinds and factory-reset guidance
//! - [`discover`]: candidate sources and destinations
//! - [`dbdump`]:   database dump command lines
//! - [`procs`]:    applications that hold files open
//! - [`vss`]:      volume shadow copy planning
//! - [`i18n`]:     translation catalogs
pub mod text;
pub mod error;
pub mod platform;
pub mod order;
pub mod textmap;
pub mod crypto;
pub mod stream;
pub mod manifest;
pub mod engine;
pub mod reset;
pub mod discover;
pub mod dbdump;
pub mod procs;
pub mod vss;
pub mod i18n;
