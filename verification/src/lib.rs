//! Control logic of the pnos runtime.

pub mod agent;
pub mod api;
pub mod app_manager;
pub mod archive;
pub mod config;
pub mod deploy;
pub mod digest;
pub mod download;
pub mod fetch;
pub mod health;
pub mod http;
pub mod install;
pub mod laws;
pub mod metrics;
pub mod monitor;
pub mod outside;
pub mod paths;
pub mod proxy;
pub mod rate_limit;
pub mod registry;
pub mod sort;
pub mod stop;
pub mod store;
pub mod table;
pub mod text;
pub mod tick;
pub mod ws;
