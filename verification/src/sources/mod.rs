//! The systems work is reported from.
pub mod github;
pub mod jira;
