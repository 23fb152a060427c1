//! Block-based reconciliation of dotfiles, verified with Verus.
pub mod text;
pub mod block;
pub mod sidecar;
pub mod parser;
pub mod cli;
