//! Verified core of the carapace execution guard.

pub mod checkpoint;
pub mod cli;
pub mod cli_laws;
pub mod config;
pub mod engine;
pub mod engine_laws;
pub mod learner;
pub mod mcp;
pub mod mcp_laws;
pub mod number;
pub mod outside;
pub mod settings_laws;
pub mod storage;
pub mod storage_laws;
pub mod text;
pub mod text_laws;
pub mod tools;
pub mod tracer;
pub mod types;
pub mod verification;
