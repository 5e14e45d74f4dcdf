//! What is remembered between runs: the watchlist, the recovery state, the control revision and
//! the event log.

pub mod control;
pub mod events;
pub mod runtime;
pub mod watchlist;

pub use control::{ControlDocument, ControlStateStore};
pub use events::EventLogStore;
pub use runtime::{HandledFailure, PendingRecovery, RecoveryMetrics, RecoveryOutcome, RuntimeState};
pub use watchlist::{UnsupportedVersion, WatchlistDocument, WatchlistStore};
