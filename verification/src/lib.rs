//! Routing core of a webhook middleware: trigger discovery, the trigger and
//! secret store, per-provider event matching and fan-out planning, and the
//! provider-API endpoints that capture signing secrets.

pub mod config;
pub mod crypto;
pub mod db;
pub mod github;
pub mod headers;
pub mod jira;
pub mod json;
pub mod matching;
pub mod n8n;
pub mod router;
pub mod routes;
pub mod slack;
pub mod text;
