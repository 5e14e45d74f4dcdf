//! The decision logic of the session watchdog.

pub mod cli;
pub mod client;
pub mod conditions;
pub mod config;
pub mod daemon;
pub mod engine;
pub mod ids;
pub mod json;
pub mod laws;
pub mod models;
pub mod order;
pub mod os_permissions;
pub mod protocol;
pub mod providers;
pub mod service;
pub mod state;
pub mod text;
pub mod textmap;
pub mod time;
pub mod transport;
