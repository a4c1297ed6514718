//! Verified core of `cisak`, a container-runtime installer.
//!
//! The library holds the data model of the installer's `config.toml`, the
//! rules that turn a configuration into download URLs, file names and
//! install locations, the comparison of release versions, and the small
//! text operations the command-line front end relies on.

pub mod config;
pub mod text;
pub mod version;
pub mod install;
pub mod release;
