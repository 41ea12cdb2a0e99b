//! Verified core of a terminal client for Sakura Cloud services.

pub mod text;
pub mod service;
pub mod service_names;
pub mod state;
pub mod tabs;
pub mod json;
pub mod cloudhsm;
pub mod cloud_resources;
pub mod network_map;
pub mod order;
pub mod billing;
pub mod api_error;
pub mod apprun;
pub mod apprun_dedicated;
pub mod forms;
pub mod session;
pub mod dialogs;
pub mod view;
pub mod service_counts;
pub mod account_forms;
pub mod keys;
pub mod overlay;
pub mod messages;
pub mod ai_engine_tokens;
