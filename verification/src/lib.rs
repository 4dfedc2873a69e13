//! HTTP switchboard: accepts a message in one shape and delivers it in
//! another, to a destination the configuration chooses.

pub mod secret;
pub mod text;
pub mod toml_doc;
pub mod config_raw;
pub mod config_error;
pub mod config;
pub mod translate;
pub mod adapters;
pub mod pump;
pub mod obs;
pub mod inbound;
pub mod dashboard;
pub mod cli;
