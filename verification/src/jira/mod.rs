//! Jira triggers and the bodies of Jira webhooks.

pub mod models;
pub mod triggers;

pub use models::JiraWebhookPayload;
pub use triggers::{parse_jira_trigger, JiraTriggerConfig};
