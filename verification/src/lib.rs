//! Compose stack generation, editing and validation for the nsetup daemon.

pub mod text;
pub mod value;
pub mod kv;
pub mod types;
pub mod compose;
pub mod error;
pub mod names;
pub mod gen;
pub mod tree;
pub mod labels;
pub mod edit;
pub mod infra;
pub mod requests;
pub mod config;
pub mod stacks;
pub mod docker;
pub mod progress;
pub mod system;
pub mod transport;
pub mod token;
pub mod installer;
pub mod cli;
pub mod readback;
