//! The rules behind a server control panel: everything it decides, checks,
//! parses and composes, as verified functions on plain values.
pub mod text;
pub mod numbers;
pub mod models;
pub mod utf8;
pub mod ssh;
pub mod capabilities;
pub mod json;
pub mod encoding;
pub mod app_error;
pub mod host_keys;
pub mod registry;
pub mod operations;
pub mod connections;
pub mod privilege;
pub mod stream;
pub mod identifiers;
pub mod terminal;
pub mod log_stream;
pub mod tunnels;
pub mod sorting;
pub mod vault;
pub mod credentials;
pub mod storage;
pub mod profiles;
pub mod window;
mod wiping;
pub mod ssh_config;
pub mod paging;
pub mod paths;
pub mod sections;
pub mod disk;
pub mod providers;
pub mod tier3;
pub mod exec;
