//! GitHub triggers.

pub mod triggers;

pub use triggers::{parse_github_trigger, GitHubTriggerConfig};
