//! A reconciliation engine for keeping two directory trees — a "local" root
//! and a "cloud-synced" root — consistent with each other.
//!
//! The engine works on plain values: callers enumerate each tree into a
//! [`index::TreeIndex`], the engine classifies every relative path
//! ([`diff`]), resolves divergent entries under a [`policy::ResolutionPolicy`]
//! and emits a [`plan::SyncPlan`] of copy operations plus the conflicts it
//! could not decide. Callers perform the actual filesystem reads and copies.

pub mod diff;
pub mod history;
pub mod index;
pub mod laws;
pub mod paths;
pub mod plan;
pub mod policy;
pub mod report;
pub mod strutil;
pub mod variants;
pub mod wiki;

use vstd::prelude::*;

verus! {

/// Builds the fixed greeting used by the application shell.
pub fn greet(name: &str) -> (r: String)
    ensures
        r@ == "Hello, "@ + name@ + "! You've been greeted from Rust!"@,
{
    let mut s = String::from_str("Hello, ");
    s.append(name);
    s.append("! You've been greeted from Rust!");
    s
}

} // verus!
