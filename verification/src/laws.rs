//! What the operations of the library give for their inputs, stated over the calls themselves.

pub mod basics;
pub mod commands;
pub mod control;
pub mod dialogs;
pub mod failures;
pub mod messages;
pub mod monitoring;
pub mod policies;
pub mod polls;
pub mod prompts;
pub mod providers;
pub mod recovery;
pub mod retries;
pub mod sessions;
pub mod state;
pub mod transcripts;
pub mod visits;
