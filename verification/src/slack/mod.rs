//! Slack triggers and the bodies of Slack event deliveries.

pub mod models;
pub mod triggers;

pub use models::{
    SlackAuthorization, SlackEvent, SlackEventCallback, SlackPayload, UrlVerificationResponse,
};
pub use triggers::{parse_slack_trigger, SlackTriggerConfig};
