//! The client's subcommands, one module each, holding the logic that each
//! subcommand runs between reading its inputs and writing its outputs.

pub mod bazel_init;
pub mod cargo_init;
pub mod docker_init;
pub mod npm_init;
pub mod config_show;
pub mod ping;
pub mod doctor;
