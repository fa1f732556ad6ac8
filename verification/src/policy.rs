//! Conflict resolution: the run-wide policy and the per-entry decision.
//!
//! A divergent entry (same relative path on both sides, different
//! modification timestamps) is resolved by the run's `ResolutionPolicy`
//! into a transfer direction, or left unresolved for the caller.

use vstd::prelude::*;

verus! {

/// The run-wide rule for divergent entries. `Unset` means manual
/// resolution: every divergent entry is surfaced as a conflict.
#[derive(Clone, Copy, Debug, PartialEq, Eq, Structural)]
pub enum ResolutionPolicy {
    Unset,
    PreferLocal,
    PreferNewer,
    PreferCloud,
}

/// What to do with one divergent entry.
#[derive(Clone, Copy, Debug, PartialEq, Eq, Structural)]
pub enum ConflictAction {
    TransferLocalToCloud,
    TransferCloudToLocal,
    Unresolved,
}

/// The decision rule, as a function of the policy and the two
/// modification timestamps. Under `PreferNewer` the strictly newer side
/// wins and a tie falls back to copying cloud to local, so that the
/// decision is deterministic.
pub open spec fn resolve_spec(policy: ResolutionPolicy, local_modified: u128, cloud_modified: u128) -> ConflictAction {
    match policy {
        ResolutionPolicy::PreferLocal => ConflictAction::TransferLocalToCloud,
        ResolutionPolicy::PreferCloud => ConflictAction::TransferCloudToLocal,
        ResolutionPolicy::PreferNewer => if local_modified > cloud_modified {
            ConflictAction::TransferLocalToCloud
        } else {
            ConflictAction::TransferCloudToLocal
        },
        ResolutionPolicy::Unset => ConflictAction::Unresolved,
    }
}

/// Decides one divergent entry. Pure: no entry's resolution depends on
/// another's, and a policy that auto-resolves never emits `Unresolved`.
pub fn resolve_divergent(policy: ResolutionPolicy, local_modified: u128, cloud_modified: u128) -> (action: ConflictAction)
    ensures
        action == resolve_spec(policy, local_modified, cloud_modified),
        action == ConflictAction::Unresolved <==> policy == ResolutionPolicy::Unset,
{
    match policy {
        ResolutionPolicy::PreferLocal => ConflictAction::TransferLocalToCloud,
        ResolutionPolicy::PreferCloud => ConflictAction::TransferCloudToLocal,
        ResolutionPolicy::PreferNewer => {
            if local_modified > cloud_modified {
                ConflictAction::TransferLocalToCloud
            } else {
                ConflictAction::TransferCloudToLocal
            }
        },
        ResolutionPolicy::Unset => ConflictAction::Unresolved,
    }
}

/// The view of an optional string tag, for contracts.
pub open spec fn tag_view(tag: &Option<String>) -> Option<Seq<char>> {
    match *tag {
        Some(s) => Some(s@),
        None => None,
    }
}

/// How a string tag maps to a policy. An absent tag means manual
/// resolution, and so does any tag the engine does not recognize: an
/// unknown policy value never silently transfers data.
pub open spec fn policy_of_tag(tag: Option<Seq<char>>) -> ResolutionPolicy {
    match tag {
        None => ResolutionPolicy::Unset,
        Some(s) => if s == "local"@ {
            ResolutionPolicy::PreferLocal
        } else if s == "cloud"@ {
            ResolutionPolicy::PreferCloud
        } else if s == "newer"@ {
            ResolutionPolicy::PreferNewer
        } else {
            ResolutionPolicy::Unset
        },
    }
}

/// Parses the caller-facing tag (`"local"`, `"cloud"`, `"newer"`) into a
/// policy, folding every unrecognized value into `Unset`.
pub fn policy_from_tag(tag: &Option<String>) -> (p: ResolutionPolicy)
    ensures
        p == policy_of_tag(tag_view(tag)),
{
    match tag {
        None => ResolutionPolicy::Unset,
        Some(s) => {
            let local_tag = String::from_str("local");
            let cloud_tag = String::from_str("cloud");
            let newer_tag = String::from_str("newer");
            if *s == local_tag {
                ResolutionPolicy::PreferLocal
            } else if *s == cloud_tag {
                ResolutionPolicy::PreferCloud
            } else if *s == newer_tag {
                ResolutionPolicy::PreferNewer
            } else {
                ResolutionPolicy::Unset
            }
        },
    }
}

} // verus!
