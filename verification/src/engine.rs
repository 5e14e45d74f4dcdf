//! Decides what is done about the failed turns of watched sessions.

pub mod manual;
pub mod pending;
pub mod permit;
pub mod policy;
pub mod recovery;
pub mod upkeep;

pub use manual::RetryRefusal;
pub use pending::{Look, Verdict};
pub use permit::RecoveryPermit;
pub use policy::{render_prompt, retry_delay_seconds};
pub use recovery::{Candidate, Cleared, Confirmed, Decision, Observation, SendOutcome, WatchEngine};
