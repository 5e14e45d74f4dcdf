//! The decisions of the background service.

pub mod activity;
pub mod connection;
pub mod control;
pub mod methods;
pub mod reconcile;
pub mod retries;
