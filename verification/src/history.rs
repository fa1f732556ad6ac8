//! The record a caller appends to its sync-history store after a run.
//!
//! The engine itself persists nothing: it exposes what was transferred
//! and in which direction, and the caller builds one of these records
//! per completed run.

use vstd::prelude::*;

verus! {

/// One completed operation as the history store keeps it. `operation`
/// is one of the caller's operation tags (a sync, a manual conflict
/// resolution, an error), and `direction` names which way files moved.
pub struct SyncLogEntry {
    pub id: i64,
    pub game_id: String,
    pub game_name: String,
    pub timestamp: String,
    pub operation: String,
    pub files_synced: i32,
    pub files_changed: Vec<String>,
    pub direction: String,
    pub success: bool,
    pub error_message: Option<String>,
}

} // verus!
