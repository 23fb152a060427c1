//! Parsers for the configuration languages of managed files.
pub mod bash;
