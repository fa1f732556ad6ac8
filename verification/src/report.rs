//! The outcome reported for one run.
//!
//! The run succeeded exactly when no conflict was left unresolved; the
//! report carries the number of files transferred, the human-readable
//! summary line, and every unresolved conflict.

use vstd::prelude::*;

use crate::plan::{FileConflict, SyncPlan};

verus! {

/// The decimal digit `d` as a character.
pub open spec fn digit_char(d: nat) -> char {
    if d == 0 {
        '0'
    } else if d == 1 {
        '1'
    } else if d == 2 {
        '2'
    } else if d == 3 {
        '3'
    } else if d == 4 {
        '4'
    } else if d == 5 {
        '5'
    } else if d == 6 {
        '6'
    } else if d == 7 {
        '7'
    } else if d == 8 {
        '8'
    } else {
        '9'
    }
}

/// The decimal rendering of `n`, most significant digit first, with no
/// leading zero except for zero itself.
pub open spec fn dec_str(n: nat) -> Seq<char>
    decreases n,
{
    if n < 10 {
        seq![digit_char(n)]
    } else {
        dec_str(n / 10).push(digit_char(n % 10))
    }
}

/// The one-character string for the decimal digit `d`.
fn digit_str(d: usize) -> (r: &'static str)
    requires
        d < 10,
    ensures
        r@ == seq![digit_char(d as nat)],
{
    proof {
        reveal_strlit("0");
        reveal_strlit("1");
        reveal_strlit("2");
        reveal_strlit("3");
        reveal_strlit("4");
        reveal_strlit("5");
        reveal_strlit("6");
        reveal_strlit("7");
        reveal_strlit("8");
        reveal_strlit("9");
    }
    let r = match d {
        0 => "0",
        1 => "1",
        2 => "2",
        3 => "3",
        4 => "4",
        5 => "5",
        6 => "6",
        7 => "7",
        8 => "8",
        _ => "9",
    };
    proof {
        assert(r@ =~= seq![digit_char(d as nat)]);
    }
    r
}

/// Renders `n` in decimal.
pub fn usize_to_string(n: usize) -> (r: String)
    ensures
        r@ == dec_str(n as nat),
    decreases n,
{
    if n < 10 {
        String::from_str(digit_str(n))
    } else {
        let mut s = usize_to_string(n / 10);
        s.append(digit_str(n % 10));
        proof {
            assert(s@ =~= dec_str(n as nat));
        }
        s
    }
}

/// The summary line of a run with no unresolved conflicts.
pub open spec fn success_message(n: nat) -> Seq<char> {
    "Successfully synced "@ + dec_str(n) + " file(s)"@
}

/// The summary line of a run that left conflicts to resolve.
pub open spec fn conflict_message(n: nat) -> Seq<char> {
    "Found "@ + dec_str(n) + " conflict(s) - user resolution required"@
}

/// What one run reports back: whether every entry was settled, how many
/// files were copied, a summary line, and the unresolved conflicts.
pub struct SyncResult {
    pub success: bool,
    pub message: String,
    pub files_synced: usize,
    pub conflicts: Vec<FileConflict>,
}

/// Both records report the same path, timestamps and sizes.
pub open spec fn same_conflict(a: FileConflict, b: FileConflict) -> bool {
    &&& a.rel() == b.rel()
    &&& a.local_path@ == b.local_path@
    &&& a.cloud_path@ == b.cloud_path@
    &&& a.local_modified == b.local_modified
    &&& a.cloud_modified == b.cloud_modified
    &&& a.local_size == b.local_size
    &&& a.cloud_size == b.cloud_size
}

/// Summarizes a fully executed plan. To be called once every transfer
/// of the plan has been performed: the run succeeded exactly when the
/// plan has no conflict, and every file of the plan was then copied.
pub fn outcome_of_plan(plan: &SyncPlan) -> (r: SyncResult)
    ensures
        r.success == (plan.conflicts@.len() == 0),
        r.files_synced == plan.transfers@.len(),
        r.conflicts@.len() == plan.conflicts@.len(),
        forall|i: int|
            0 <= i < plan.conflicts@.len() ==> same_conflict(
                #[trigger] r.conflicts@[i],
                plan.conflicts@[i],
            ),
        plan.conflicts@.len() == 0 ==> r.message@ == success_message(plan.transfers@.len()),
        plan.conflicts@.len() > 0 ==> r.message@ == conflict_message(plan.conflicts@.len()),
{
    let files_synced = plan.transfers.len();
    let n_conflicts = plan.conflicts.len();
    let success = n_conflicts == 0;

    let message = if success {
        let mut m = String::from_str("Successfully synced ");
        let num = usize_to_string(files_synced);
        m.append(num.as_str());
        m.append(" file(s)");
        proof {
            assert(m@ =~= success_message(files_synced as nat));
        }
        m
    } else {
        let mut m = String::from_str("Found ");
        let num = usize_to_string(n_conflicts);
        m.append(num.as_str());
        m.append(" conflict(s) - user resolution required");
        proof {
            assert(m@ =~= conflict_message(n_conflicts as nat));
        }
        m
    };

    let mut conflicts: Vec<FileConflict> = Vec::new();
    let mut i: usize = 0;
    while i < n_conflicts
        invariant
            0 <= i <= n_conflicts,
            n_conflicts == plan.conflicts@.len(),
            conflicts@.len() == i,
            forall|k: int|
                0 <= k < i ==> same_conflict(#[trigger] conflicts@[k], plan.conflicts@[k]),
        decreases n_conflicts - i,
    {
        conflicts.push(plan.conflicts[i].duplicate());
        i += 1;
    }

    SyncResult { success, message, files_synced, conflicts }
}

/// The relative paths the plan copies, in plan order: what a caller
/// logs as the files changed by the run.
pub fn transferred_paths(plan: &SyncPlan) -> (r: Vec<String>)
    ensures
        r@.len() == plan.transfers@.len(),
        forall|i: int| 0 <= i < r@.len() ==> #[trigger] r@[i]@ == plan.transfers@[i].rel(),
{
    let mut r: Vec<String> = Vec::new();
    let n = plan.transfers.len();
    let mut i: usize = 0;
    while i < n
        invariant
            0 <= i <= n,
            n == plan.transfers@.len(),
            r@.len() == i,
            forall|k: int| 0 <= k < i ==> #[trigger] r@[k]@ == plan.transfers@[k].rel(),
        decreases n - i,
    {
        r.push(plan.transfers[i].relative_path.clone());
        i += 1;
    }
    r
}

} // verus!
