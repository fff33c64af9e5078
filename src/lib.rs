//! Metadata core of an APT repository mirror: the clear-sign envelope of an
//! `InRelease` file, the control-document grammar of a `Release` file, the
//! per-file hash sections and the compression variants of each index.
//!
//! All text is handled as bytes, one `Vec<u8>` per input line.

pub mod text;
pub mod keywords;
pub mod error;
pub mod envelope;
pub mod control;
pub mod fields;
pub mod builder;
pub mod manifest;
pub mod sections;
pub mod variants;
pub mod release;
pub mod laws;
