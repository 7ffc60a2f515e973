//! Reports the work a person finished, from GitHub and Jira.
pub mod text;
pub mod time;
pub mod period;
pub mod item;
pub mod duration;
pub mod cli;
pub mod toml_doc;
pub mod kinds;
pub mod config;
pub mod cache;
pub mod diag;
pub mod json;
pub mod render;
pub mod source;
pub mod sources;
