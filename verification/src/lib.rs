//! Verified core of a caching proxy for Harbor container registries.

pub mod api_types;
pub mod auth;
pub mod cache_policy;
pub mod config;
pub mod config_schema;
pub mod db;
pub mod errors;
pub mod management;
pub mod models;
pub mod proxy;
pub mod numfmt;
pub mod registry;
pub mod registry_api;
pub mod router;
pub mod startup;
pub mod storage;
pub mod tee;
pub mod text;
pub mod upstream_api;
pub mod upstream_manager;
