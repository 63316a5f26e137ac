//! The authoritative state of runs and sessions.
pub mod commit;
pub mod events;
pub mod execution;
pub mod hook_state;
pub mod interruption_state;
pub mod leases;
pub mod memory_store;
pub mod messages;
pub mod order;
pub mod prepared_state;
pub mod records;
pub mod resume_history;
pub mod scope;
pub mod segments;
pub mod snapshot_refs;
pub mod steps;
pub mod transition;
pub mod verification_state;
