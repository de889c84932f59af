//! Verified core of the rivers daemon: rate limiting, request routing and
//! security rules, OTLP ingestion, SQL placeholder rewriting, ES-module
//! detection and resolution, path redaction, JavaScript proxy generation,
//! the handler-task rules of the V8 and WASM engines, and the text
//! processing they rest on.

pub mod text;
pub mod rate_limit;
pub mod schema_introspection;
pub mod placeholders;
pub mod module_syntax;
pub mod app_paths;
pub mod stack_frames;
pub mod json;
pub mod otlp;
pub mod proxy_codegen;
pub mod query;
pub mod log_control;
pub mod wasm;
pub mod crypto;
pub mod app_log;
pub mod admin_access;
pub mod security;
pub mod server_config;
pub mod host_callbacks;
pub mod view_rules;
pub mod streaming;
pub mod module_resolution;
pub mod db_rules;
pub mod engine_rules;
pub mod task_error;
pub mod js_task;
pub mod dataview_calls;
pub mod health;
pub mod services_discovery;
pub mod task_registry;
