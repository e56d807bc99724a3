//! Environment isolation for AI command-line tools.
//!
//! Each environment has its own directory with a manifest; commands run in
//! it see a clean environment built from the manifest: allowed host
//! variables, fixed values, secrets, proxy settings for the network mode,
//! and forced `HOME`/XDG directories under the environment's root.
//!
//! This crate holds the rules: the manifest's validation, the child
//! environment, the envfile format, and the texts and choices of each
//! command. Reading files, the keychain and processes is left to the caller.

pub mod cli;
pub mod commands;
pub mod env_map;
pub mod env_path;
pub mod error;
pub mod manifest;
pub mod paths;
pub mod runtime_env;
pub mod secrets;
pub mod text;
