//! Collapse: file compression jobs, their registry and the rules of the
//! compression service, with machine-checked contracts.

pub mod text;
pub mod paths;
pub mod compression;
pub mod models;
pub mod registry;
pub mod storage;
pub mod config;
pub mod error;
pub mod schemas;
pub mod routes;
pub mod queue;
