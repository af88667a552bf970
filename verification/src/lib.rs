//! Verified core of the RISICO wildfire-risk runner: tiling of the model
//! domain, streaming configuration, warm-state bookkeeping and the binary
//! formats the runner reads and writes.

pub mod streaming;
pub mod text;
pub mod decimal;
pub mod config;
pub mod concurrency;
pub mod ragged;
pub mod timeline;
pub mod snapshots;
pub mod warm_state;
pub mod tokens;
pub mod variables;
pub mod zbin;
pub mod grid;
pub mod inputs;
pub mod catalog;
pub mod scratch;
pub mod legacy;
pub mod config_text;
pub mod netcdf_config;
pub mod runner;
