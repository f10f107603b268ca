//! The logic of the CoreLink command-line client, the client of a
//! content-addressable build cache: the configuration stanzas it keeps in
//! build-tool files (`.bazelrc`, `.cargo/config.toml`, `turbo.json`,
//! `.docker/buildx-cache.json`, `.gitignore`), the resolution of its
//! configuration, and the checks of its environment diagnostic.

pub mod text;
pub mod managed_block;
pub mod config;
pub mod json;
pub mod commands;
