//! Verified core of the content-aggregation backend: text normalisation,
//! deduplication keys, retry state machines, Notion tree routing and the
//! decision logic of the sync and publish pipelines.

pub mod ai_orchestrator;
pub mod app_core;
pub mod budget_guard;
pub mod collectors;
pub mod config;
pub mod error;
pub mod ipc;
pub mod json;
pub mod num;
pub mod pipeline;
pub mod storage;
pub mod sync_notion;
pub mod text;
