//! What the workflow engine's management API hands out, and how it is paged.

pub mod client;
pub mod models;

pub use client::{N8nClient, N8nClientError};
pub use models::{WebhookEndpoints, Workflow, WorkflowNode, WorkflowsResponse};
