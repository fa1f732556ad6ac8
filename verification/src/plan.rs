//! Planning one sync run.
//!
//! The planner turns a diff into a plan: one copy operation per
//! one-sided path, one copy operation or one conflict record per
//! divergent path, as the policy decides. The plan is what the caller
//! executes; the engine itself touches no file.

use vstd::prelude::*;

use crate::diff::{
    cloud_only_at, diff_indexes, divergent_at, has_div_rel, has_rel, local_only_at, TreeDiff,
};
use crate::index::{Sig, TreeIndex};
use crate::paths::{join_path, joined};
use crate::policy::{resolve_divergent, resolve_spec, ConflictAction, ResolutionPolicy};

verus! {

/// Which way one file is copied.
#[derive(Clone, Copy, Debug, PartialEq, Eq, Structural)]
pub enum Direction {
    LocalToCloud,
    CloudToLocal,
}

/// One decided copy: the file at `source_path` overwrites whatever is at
/// `dest_path`, creating missing intermediate directories first.
pub struct TransferOp {
    pub relative_path: String,
    pub source_path: String,
    pub dest_path: String,
    pub direction: Direction,
}

impl TransferOp {
    pub open spec fn rel(&self) -> Seq<char> {
        self.relative_path@
    }
}

/// A divergent entry the policy would not decide, with both sides'
/// paths, timestamps and sizes, for the caller to resolve.
pub struct FileConflict {
    pub relative_path: String,
    pub local_path: String,
    pub cloud_path: String,
    pub local_modified: u128,
    pub cloud_modified: u128,
    pub local_size: u64,
    pub cloud_size: u64,
}

impl FileConflict {
    pub open spec fn rel(&self) -> Seq<char> {
        self.relative_path@
    }

    /// A field-for-field copy.
    pub fn duplicate(&self) -> (r: FileConflict)
        ensures
            r.rel() == self.rel(),
            r.local_path@ == self.local_path@,
            r.cloud_path@ == self.cloud_path@,
            r.local_modified == self.local_modified,
            r.cloud_modified == self.cloud_modified,
            r.local_size == self.local_size,
            r.cloud_size == self.cloud_size,
    {
        FileConflict {
            relative_path: self.relative_path.clone(),
            local_path: self.local_path.clone(),
            cloud_path: self.cloud_path.clone(),
            local_modified: self.local_modified,
            cloud_modified: self.cloud_modified,
            local_size: self.local_size,
            cloud_size: self.cloud_size,
        }
    }
}

/// Everything one run decided: the copies to perform and the conflicts
/// requiring caller resolution.
pub struct SyncPlan {
    pub transfers: Vec<TransferOp>,
    pub conflicts: Vec<FileConflict>,
}

/// The operation copies a path the policy entitles it to, in the stated
/// direction, between the right absolute paths.
pub open spec fn valid_transfer(
    op: TransferOp,
    lroot: Seq<char>,
    croot: Seq<char>,
    l: Map<Seq<char>, Sig>,
    c: Map<Seq<char>, Sig>,
    policy: ResolutionPolicy,
) -> bool {
    match op.direction {
        Direction::LocalToCloud => {
            &&& local_only_at(l, c, op.rel()) || (divergent_at(l, c, op.rel()) && resolve_spec(
                policy,
                l[op.rel()].modified,
                c[op.rel()].modified,
            ) == ConflictAction::TransferLocalToCloud)
            &&& op.source_path@ == joined(lroot, op.rel())
            &&& op.dest_path@ == joined(croot, op.rel())
        },
        Direction::CloudToLocal => {
            &&& cloud_only_at(l, c, op.rel()) || (divergent_at(l, c, op.rel()) && resolve_spec(
                policy,
                l[op.rel()].modified,
                c[op.rel()].modified,
            ) == ConflictAction::TransferCloudToLocal)
            &&& op.source_path@ == joined(croot, op.rel())
            &&& op.dest_path@ == joined(lroot, op.rel())
        },
    }
}

/// The record reports a divergent path the policy left unresolved, with
/// both sides' actual paths, timestamps and sizes.
pub open spec fn valid_conflict(
    cf: FileConflict,
    lroot: Seq<char>,
    croot: Seq<char>,
    l: Map<Seq<char>, Sig>,
    c: Map<Seq<char>, Sig>,
    policy: ResolutionPolicy,
) -> bool {
    &&& divergent_at(l, c, cf.rel())
    &&& resolve_spec(policy, l[cf.rel()].modified, c[cf.rel()].modified)
        == ConflictAction::Unresolved
    &&& cf.local_path@ == joined(lroot, cf.rel())
    &&& cf.cloud_path@ == joined(croot, cf.rel())
    &&& cf.local_modified == l[cf.rel()].modified
    &&& cf.cloud_modified == c[cf.rel()].modified
    &&& cf.local_size == l[cf.rel()].size
    &&& cf.cloud_size == c[cf.rel()].size
}

/// Some operation in `s` copies the relative path `p` in direction `d`.
pub open spec fn has_transfer(s: Seq<TransferOp>, p: Seq<char>, d: Direction) -> bool {
    exists|i: int| 0 <= i < s.len() && s[i].rel() == p && s[i].direction == d
}

/// Some conflict record in `s` reports the relative path `p`.
pub open spec fn has_conflict(s: Seq<FileConflict>, p: Seq<char>) -> bool {
    exists|i: int| 0 <= i < s.len() && s[i].rel() == p
}

pub open spec fn transfer_rels_unique(s: Seq<TransferOp>) -> bool {
    forall|i: int, j: int| 0 <= i < j < s.len() ==> s[i].rel() != s[j].rel()
}

pub open spec fn conflict_rels_unique(s: Seq<FileConflict>) -> bool {
    forall|i: int, j: int| 0 <= i < j < s.len() ==> s[i].rel() != s[j].rel()
}

/// The relative path `p` belongs to one of the first `q` divergent
/// entries.
pub open spec fn among_divergent(dv: Seq<crate::diff::DivergentEntry>, q: int, p: Seq<char>) -> bool {
    exists|w: int| 0 <= w < q && dv[w].rel() == p
}

/// What the policy decided for the divergent path `p` stands in the
/// plan: its transfer in the decided direction, or its conflict record.
pub open spec fn decision_recorded(
    ts: Seq<TransferOp>,
    cs: Seq<FileConflict>,
    l: Map<Seq<char>, Sig>,
    c: Map<Seq<char>, Sig>,
    policy: ResolutionPolicy,
    p: Seq<char>,
) -> bool {
    match resolve_spec(policy, l[p].modified, c[p].modified) {
        ConflictAction::TransferLocalToCloud => has_transfer(ts, p, Direction::LocalToCloud),
        ConflictAction::TransferCloudToLocal => has_transfer(ts, p, Direction::CloudToLocal),
        ConflictAction::Unresolved => has_conflict(cs, p),
    }
}

impl SyncPlan {
    /// The plan is sound (every operation and record is entitled and
    /// correctly addressed), complete (every path requiring action has
    /// its operation or record), and lists each path once.
    pub open spec fn describes(
        &self,
        lroot: Seq<char>,
        croot: Seq<char>,
        l: Map<Seq<char>, Sig>,
        c: Map<Seq<char>, Sig>,
        policy: ResolutionPolicy,
    ) -> bool {
        &&& forall|i: int|
            0 <= i < self.transfers@.len() ==> valid_transfer(
                #[trigger] self.transfers@[i],
                lroot,
                croot,
                l,
                c,
                policy,
            )
        &&& transfer_rels_unique(self.transfers@)
        &&& forall|p: Seq<char>| #[trigger]
            local_only_at(l, c, p) ==> has_transfer(self.transfers@, p, Direction::LocalToCloud)
        &&& forall|p: Seq<char>| #[trigger]
            cloud_only_at(l, c, p) ==> has_transfer(self.transfers@, p, Direction::CloudToLocal)
        &&& forall|p: Seq<char>| #[trigger]
            divergent_at(l, c, p) ==> decision_recorded(
                self.transfers@,
                self.conflicts@,
                l,
                c,
                policy,
                p,
            )
        &&& forall|i: int|
            0 <= i < self.conflicts@.len() ==> valid_conflict(
                #[trigger] self.conflicts@[i],
                lroot,
                croot,
                l,
                c,
                policy,
            )
        &&& conflict_rels_unique(self.conflicts@)
    }
}

/// After recording a transfer for the divergent entry at `q`, the plan
/// under construction still maps its extra operations to distinct
/// divergent entries and keeps every earlier decision.
proof fn lemma_push_divergent_transfer(
    d: &TreeDiff,
    lroot: Seq<char>,
    croot: Seq<char>,
    l: Map<Seq<char>, Sig>,
    c: Map<Seq<char>, Sig>,
    policy: ResolutionPolicy,
    old_ts: Seq<TransferOp>,
    new_ts: Seq<TransferOp>,
    cs: Seq<FileConflict>,
    q: int,
    n1: int,
    n2: int,
)
    requires
        d.describes(lroot, croot, l, c),
        n1 == d.local_only@.len(),
        n2 == d.cloud_only@.len(),
        0 <= q < d.divergent@.len(),
        old_ts.len() >= n1 + n2,
        new_ts.len() == old_ts.len() + 1,
        forall|k: int| 0 <= k < old_ts.len() ==> new_ts[k] == old_ts[k],
        new_ts.last().rel() == d.divergent@[q].rel(),
        forall|k: int|
            0 <= k < n1 ==> #[trigger] old_ts[k].rel() == d.local_only@[k].rel(),
        forall|k: int|
            0 <= k < n2 ==> #[trigger] old_ts[n1 + k].rel() == d.cloud_only@[k].rel(),
        forall|k: int|
            n1 + n2 <= k < old_ts.len() ==> among_divergent(
                d.divergent@,
                q,
                #[trigger] old_ts[k].rel(),
            ),
        transfer_rels_unique(old_ts),
        forall|w: int|
            0 <= w < q ==> decision_recorded(old_ts, cs, l, c, policy, #[trigger] d.divergent@[w].rel()),
        match resolve_spec(
            policy,
            l[d.divergent@[q].rel()].modified,
            c[d.divergent@[q].rel()].modified,
        ) {
            ConflictAction::TransferLocalToCloud => new_ts.last().direction
                == Direction::LocalToCloud,
            ConflictAction::TransferCloudToLocal => new_ts.last().direction
                == Direction::CloudToLocal,
            ConflictAction::Unresolved => false,
        },
    ensures
        forall|k: int|
            n1 + n2 <= k < new_ts.len() ==> among_divergent(
                d.divergent@,
                q + 1,
                #[trigger] new_ts[k].rel(),
            ),
        transfer_rels_unique(new_ts),
        forall|w: int|
            0 <= w < q + 1 ==> decision_recorded(new_ts, cs, l, c, policy, #[trigger] d.divergent@[w].rel()),
{
    let p = d.divergent@[q].rel();
    assert(divergent_at(l, c, p));
    assert forall|k: int|
        n1 + n2 <= k < new_ts.len() implies among_divergent(
        d.divergent@,
        q + 1,
        #[trigger] new_ts[k].rel(),
    ) by {
        if k < old_ts.len() {
            assert(among_divergent(d.divergent@, q, old_ts[k].rel()));
            let w = choose|w: int| 0 <= w < q && d.divergent@[w].rel() == old_ts[k].rel();
            assert(d.divergent@[w].rel() == new_ts[k].rel());
        } else {
            assert(d.divergent@[q].rel() == new_ts[k].rel());
        }
    }
    assert forall|k1: int, k2: int|
        0 <= k1 < k2 < new_ts.len() implies new_ts[k1].rel() != new_ts[k2].rel() by {
        if k2 < old_ts.len() {
            assert(old_ts[k1].rel() != old_ts[k2].rel());
        } else {
            assert(new_ts[k2].rel() == d.divergent@[q].rel());
            assert(new_ts[k1] == old_ts[k1]);
            if k1 < n1 {
                assert(old_ts[k1].rel() == d.local_only@[k1].rel());
                assert(local_only_at(l, c, d.local_only@[k1].rel()));
            } else if k1 < n1 + n2 {
                let b = k1 - n1;
                assert(old_ts[n1 + b].rel() == d.cloud_only@[b].rel());
                assert(cloud_only_at(l, c, d.cloud_only@[b].rel()));
            } else {
                assert(among_divergent(d.divergent@, q, old_ts[k1].rel()));
                let w = choose|w: int| 0 <= w < q && d.divergent@[w].rel() == old_ts[k1].rel();
                assert(d.divergent@[w].rel() != d.divergent@[q].rel());
            }
        }
    }
    assert forall|w: int|
        0 <= w < q + 1 implies decision_recorded(new_ts, cs, l, c, policy, #[trigger] d.divergent@[w].rel()) by {
        let pw = d.divergent@[w].rel();
        if w < q {
            match resolve_spec(policy, l[pw].modified, c[pw].modified) {
                ConflictAction::TransferLocalToCloud => {
                    let x = choose|x: int|
                        0 <= x < old_ts.len() && old_ts[x].rel() == pw && old_ts[x].direction
                            == Direction::LocalToCloud;
                    assert(new_ts[x].rel() == pw && new_ts[x].direction == Direction::LocalToCloud);
                },
                ConflictAction::TransferCloudToLocal => {
                    let x = choose|x: int|
                        0 <= x < old_ts.len() && old_ts[x].rel() == pw && old_ts[x].direction
                            == Direction::CloudToLocal;
                    assert(new_ts[x].rel() == pw && new_ts[x].direction == Direction::CloudToLocal);
                },
                ConflictAction::Unresolved => {},
            }
        } else {
            assert(new_ts[new_ts.len() - 1].rel() == pw);
        }
    }
}

/// After recording a conflict for the divergent entry at `q`, the
/// conflict list still reports distinct divergent entries and keeps
/// every earlier decision.
proof fn lemma_push_divergent_conflict(
    d: &TreeDiff,
    lroot: Seq<char>,
    croot: Seq<char>,
    l: Map<Seq<char>, Sig>,
    c: Map<Seq<char>, Sig>,
    policy: ResolutionPolicy,
    ts: Seq<TransferOp>,
    old_cs: Seq<FileConflict>,
    new_cs: Seq<FileConflict>,
    q: int,
)
    requires
        d.describes(lroot, croot, l, c),
        0 <= q < d.divergent@.len(),
        new_cs.len() == old_cs.len() + 1,
        forall|k: int| 0 <= k < old_cs.len() ==> new_cs[k] == old_cs[k],
        new_cs.last().rel() == d.divergent@[q].rel(),
        forall|k: int|
            0 <= k < old_cs.len() ==> among_divergent(
                d.divergent@,
                q,
                #[trigger] old_cs[k].rel(),
            ),
        conflict_rels_unique(old_cs),
        forall|w: int|
            0 <= w < q ==> decision_recorded(ts, old_cs, l, c, policy, #[trigger] d.divergent@[w].rel()),
        resolve_spec(policy, l[d.divergent@[q].rel()].modified, c[d.divergent@[q].rel()].modified)
            == ConflictAction::Unresolved,
    ensures
        forall|k: int|
            0 <= k < new_cs.len() ==> among_divergent(
                d.divergent@,
                q + 1,
                #[trigger] new_cs[k].rel(),
            ),
        conflict_rels_unique(new_cs),
        forall|w: int|
            0 <= w < q + 1 ==> decision_recorded(ts, new_cs, l, c, policy, #[trigger] d.divergent@[w].rel()),
{
    assert forall|k: int|
        0 <= k < new_cs.len() implies among_divergent(
        d.divergent@,
        q + 1,
        #[trigger] new_cs[k].rel(),
    ) by {
        if k < old_cs.len() {
            assert(among_divergent(d.divergent@, q, old_cs[k].rel()));
            let w = choose|w: int| 0 <= w < q && d.divergent@[w].rel() == old_cs[k].rel();
            assert(d.divergent@[w].rel() == new_cs[k].rel());
        } else {
            assert(d.divergent@[q].rel() == new_cs[k].rel());
        }
    }
    assert forall|k1: int, k2: int|
        0 <= k1 < k2 < new_cs.len() implies new_cs[k1].rel() != new_cs[k2].rel() by {
        if k2 < old_cs.len() {
            assert(old_cs[k1].rel() != old_cs[k2].rel());
        } else {
            assert(among_divergent(d.divergent@, q, old_cs[k1].rel()));
            let w = choose|w: int| 0 <= w < q && d.divergent@[w].rel() == old_cs[k1].rel();
            assert(d.divergent@[w].rel() != d.divergent@[q].rel());
        }
    }
    assert forall|w: int|
        0 <= w < q + 1 implies decision_recorded(ts, new_cs, l, c, policy, #[trigger] d.divergent@[w].rel()) by {
        let pw = d.divergent@[w].rel();
        if w < q {
            if resolve_spec(policy, l[pw].modified, c[pw].modified) == ConflictAction::Unresolved {
                let x = choose|x: int| 0 <= x < old_cs.len() && old_cs[x].rel() == pw;
                assert(new_cs[x].rel() == pw);
            }
        } else {
            assert(new_cs[new_cs.len() - 1].rel() == pw);
        }
    }
}

/// Plans one run over a finished diff: one copy per one-sided path, and
/// per divergent path whatever the policy decides — a copy, or a
/// conflict record when the policy is `Unset` (fail-safe: an undecided
/// divergence is reported, never silently transferred).
pub fn plan_from_diff(
    d: &TreeDiff,
    local: &TreeIndex,
    cloud: &TreeIndex,
    policy: ResolutionPolicy,
) -> (plan: SyncPlan)
    requires
        local.wf(),
        cloud.wf(),
        d.describes(local.root@, cloud.root@, local.map_view(), cloud.map_view()),
    ensures
        plan.describes(local.root@, cloud.root@, local.map_view(), cloud.map_view(), policy),
{
    let ghost lroot = local.root@;
    let ghost croot = cloud.root@;
    let ghost l = local.map_view();
    let ghost c = cloud.map_view();

    let mut transfers: Vec<TransferOp> = Vec::new();
    let mut conflicts: Vec<FileConflict> = Vec::new();

    let n1 = d.local_only.len();
    let mut i: usize = 0;
    while i < n1
        invariant
            local.wf(),
            cloud.wf(),
            d.describes(lroot, croot, l, c),
            lroot == local.root@,
            croot == cloud.root@,
            l == local.map_view(),
            c == cloud.map_view(),
            0 <= i <= n1,
            n1 == d.local_only@.len(),
            transfers@.len() == i,
            forall|k: int|
                0 <= k < i ==> #[trigger] transfers@[k].rel() == d.local_only@[k].rel()
                    && transfers@[k].direction == Direction::LocalToCloud,
            forall|k: int|
                0 <= k < transfers@.len() ==> valid_transfer(
                    #[trigger] transfers@[k],
                    lroot,
                    croot,
                    l,
                    c,
                    policy,
                ),
        decreases n1 - i,
    {
        let e = &d.local_only[i];
        let dest = join_path(cloud.root.as_str(), e.relative_path.as_str());
        transfers.push(
            TransferOp {
                relative_path: e.relative_path.clone(),
                source_path: e.absolute_path.clone(),
                dest_path: dest,
                direction: Direction::LocalToCloud,
            },
        );
        i += 1;
    }

    let n2 = d.cloud_only.len();
    let mut j: usize = 0;
    while j < n2
        invariant
            local.wf(),
            cloud.wf(),
            d.describes(lroot, croot, l, c),
            lroot == local.root@,
            croot == cloud.root@,
            l == local.map_view(),
            c == cloud.map_view(),
            0 <= j <= n2,
            n1 == d.local_only@.len(),
            n2 == d.cloud_only@.len(),
            transfers@.len() == n1 + j,
            forall|k: int|
                0 <= k < n1 ==> #[trigger] transfers@[k].rel() == d.local_only@[k].rel()
                    && transfers@[k].direction == Direction::LocalToCloud,
            forall|k: int|
                0 <= k < j ==> #[trigger] transfers@[n1 + k].rel() == d.cloud_only@[k].rel()
                    && transfers@[n1 + k].direction == Direction::CloudToLocal,
            forall|k: int|
                0 <= k < transfers@.len() ==> valid_transfer(
                    #[trigger] transfers@[k],
                    lroot,
                    croot,
                    l,
                    c,
                    policy,
                ),
        decreases n2 - j,
    {
        let e = &d.cloud_only[j];
        let dest = join_path(local.root.as_str(), e.relative_path.as_str());
        transfers.push(
            TransferOp {
                relative_path: e.relative_path.clone(),
                source_path: e.absolute_path.clone(),
                dest_path: dest,
                direction: Direction::CloudToLocal,
            },
        );
        j += 1;
    }

    proof {
        assert forall|k1: int, k2: int|
            0 <= k1 < k2 < transfers@.len() implies transfers@[k1].rel() != transfers@[k2].rel() by {
            if k2 < n1 {
                assert(transfers@[k1].rel() == d.local_only@[k1].rel());
                assert(transfers@[k2].rel() == d.local_only@[k2].rel());
            } else if k1 < n1 {
                let b = k2 - n1;
                assert(transfers@[n1 + b].rel() == d.cloud_only@[b].rel());
                assert(local_only_at(l, c, d.local_only@[k1].rel()));
                assert(cloud_only_at(l, c, d.cloud_only@[b].rel()));
            } else {
                let a = k1 - n1;
                let b = k2 - n1;
                assert(transfers@[n1 + a].rel() == d.cloud_only@[a].rel());
                assert(transfers@[n1 + b].rel() == d.cloud_only@[b].rel());
            }
        }
    }

    let n3 = d.divergent.len();
    let mut q: usize = 0;
    while q < n3
        invariant
            local.wf(),
            cloud.wf(),
            d.describes(lroot, croot, l, c),
            lroot == local.root@,
            croot == cloud.root@,
            l == local.map_view(),
            c == cloud.map_view(),
            0 <= q <= n3,
            n1 == d.local_only@.len(),
            n2 == d.cloud_only@.len(),
            n3 == d.divergent@.len(),
            transfers@.len() >= n1 + n2,
            forall|k: int|
                0 <= k < n1 ==> #[trigger] transfers@[k].rel() == d.local_only@[k].rel()
                    && transfers@[k].direction == Direction::LocalToCloud,
            forall|k: int|
                0 <= k < n2 ==> #[trigger] transfers@[n1 + k].rel() == d.cloud_only@[k].rel()
                    && transfers@[n1 + k].direction == Direction::CloudToLocal,
            forall|k: int|
                n1 + n2 <= k < transfers@.len() ==> among_divergent(
                    d.divergent@,
                    q as int,
                    #[trigger] transfers@[k].rel(),
                ),
            forall|k: int|
                0 <= k < conflicts@.len() ==> among_divergent(
                    d.divergent@,
                    q as int,
                    #[trigger] conflicts@[k].rel(),
                ),
            forall|k: int|
                0 <= k < transfers@.len() ==> valid_transfer(
                    #[trigger] transfers@[k],
                    lroot,
                    croot,
                    l,
                    c,
                    policy,
                ),
            forall|k: int|
                0 <= k < conflicts@.len() ==> valid_conflict(
                    #[trigger] conflicts@[k],
                    lroot,
                    croot,
                    l,
                    c,
                    policy,
                ),
            forall|w: int|
                0 <= w < q ==> decision_recorded(
                    transfers@,
                    conflicts@,
                    l,
                    c,
                    policy,
                    #[trigger] d.divergent@[w].rel(),
                ),
            transfer_rels_unique(transfers@),
            conflict_rels_unique(conflicts@),
        decreases n3 - q,
    {
        let dv = &d.divergent[q];
        let ghost old_ts = transfers@;
        let ghost old_cs = conflicts@;
        proof {
            assert forall|k: int|
                n1 + n2 <= k < old_ts.len() implies among_divergent(
                d.divergent@,
                q as int,
                #[trigger] old_ts[k].rel(),
            ) by {
                assert(old_ts[k].rel() == transfers@[k].rel());
                assert(among_divergent(d.divergent@, q as int, transfers@[k].rel()));
            }
            assert forall|k: int|
                0 <= k < old_cs.len() implies among_divergent(
                d.divergent@,
                q as int,
                #[trigger] old_cs[k].rel(),
            ) by {
                assert(old_cs[k].rel() == conflicts@[k].rel());
                assert(among_divergent(d.divergent@, q as int, conflicts@[k].rel()));
            }
        }
        match resolve_divergent(policy, dv.local.modified, dv.cloud.modified) {
            ConflictAction::TransferLocalToCloud => {
                transfers.push(
                    TransferOp {
                        relative_path: dv.local.relative_path.clone(),
                        source_path: dv.local.absolute_path.clone(),
                        dest_path: dv.cloud.absolute_path.clone(),
                        direction: Direction::LocalToCloud,
                    },
                );
                proof {
                    lemma_push_divergent_transfer(
                        d,
                        lroot,
                        croot,
                        l,
                        c,
                        policy,
                        old_ts,
                        transfers@,
                        conflicts@,
                        q as int,
                        n1 as int,
                        n2 as int,
                    );
                }
            },
            ConflictAction::TransferCloudToLocal => {
                transfers.push(
                    TransferOp {
                        relative_path: dv.local.relative_path.clone(),
                        source_path: dv.cloud.absolute_path.clone(),
                        dest_path: dv.local.absolute_path.clone(),
                        direction: Direction::CloudToLocal,
                    },
                );
                proof {
                    lemma_push_divergent_transfer(
                        d,
                        lroot,
                        croot,
                        l,
                        c,
                        policy,
                        old_ts,
                        transfers@,
                        conflicts@,
                        q as int,
                        n1 as int,
                        n2 as int,
                    );
                }
            },
            ConflictAction::Unresolved => {
                conflicts.push(
                    FileConflict {
                        relative_path: dv.local.relative_path.clone(),
                        local_path: dv.local.absolute_path.clone(),
                        cloud_path: dv.cloud.absolute_path.clone(),
                        local_modified: dv.local.modified,
                        cloud_modified: dv.cloud.modified,
                        local_size: dv.local.size,
                        cloud_size: dv.cloud.size,
                    },
                );
                proof {
                    lemma_push_divergent_conflict(
                        d,
                        lroot,
                        croot,
                        l,
                        c,
                        policy,
                        transfers@,
                        old_cs,
                        conflicts@,
                        q as int,
                    );
                }
            },
        }
        q += 1;
    }

    proof {
        assert forall|p: Seq<char>| #[trigger] local_only_at(l, c, p) implies has_transfer(
            transfers@,
            p,
            Direction::LocalToCloud,
        ) by {
            assert(has_rel(d.local_only@, p));
            let w = choose|w: int| 0 <= w < d.local_only@.len() && d.local_only@[w].rel() == p;
            assert(transfers@[w].rel() == p && transfers@[w].direction == Direction::LocalToCloud);
        }
        assert forall|p: Seq<char>| #[trigger] cloud_only_at(l, c, p) implies has_transfer(
            transfers@,
            p,
            Direction::CloudToLocal,
        ) by {
            assert(has_rel(d.cloud_only@, p));
            let w = choose|w: int| 0 <= w < d.cloud_only@.len() && d.cloud_only@[w].rel() == p;
            assert(transfers@[n1 + w].rel() == p && transfers@[n1 + w].direction
                == Direction::CloudToLocal);
        }
        assert forall|p: Seq<char>| #[trigger] divergent_at(l, c, p) implies decision_recorded(
            transfers@,
            conflicts@,
            l,
            c,
            policy,
            p,
        ) by {
            assert(has_div_rel(d.divergent@, p));
            let w = choose|w: int| 0 <= w < d.divergent@.len() && d.divergent@[w].rel() == p;
            assert(decision_recorded(transfers@, conflicts@, l, c, policy, d.divergent@[w].rel()));
        }
    }

    SyncPlan { transfers, conflicts }
}

/// Plans one full run: classifies both indexes and decides every entry.
pub fn plan_sync(local: &TreeIndex, cloud: &TreeIndex, policy: ResolutionPolicy) -> (plan: SyncPlan)
    requires
        local.wf(),
        cloud.wf(),
    ensures
        plan.describes(local.root@, cloud.root@, local.map_view(), cloud.map_view(), policy),
{
    let d = diff_indexes(local, cloud);
    plan_from_diff(&d, local, cloud, policy)
}

/// Plans one run from the raw tree enumerations, as the engine's entry
/// point sees them: indexes both roots, parses the resolution tag, and
/// decides every entry. The caller checks both roots exist before
/// enumerating, executes the returned transfers, and reports the
/// returned conflicts.
pub fn plan_sync_run(
    local_root: &str,
    local_files: &Vec<crate::index::RawFile>,
    cloud_root: &str,
    cloud_files: &Vec<crate::index::RawFile>,
    auto_resolve: &Option<String>,
) -> (plan: SyncPlan)
    ensures
        plan.describes(
            local_root@,
            cloud_root@,
            crate::index::build_map(local_root@, local_files@),
            crate::index::build_map(cloud_root@, cloud_files@),
            crate::policy::policy_of_tag(crate::policy::tag_view(auto_resolve)),
        ),
{
    let local = crate::index::build_index(local_root, local_files);
    let cloud = crate::index::build_index(cloud_root, cloud_files);
    let policy = crate::policy::policy_from_tag(auto_resolve);
    plan_sync(&local, &cloud, policy)
}

/// The caller's manual follow-up for one reported conflict: the same
/// transfer primitive, pointed at one record. `use_local` copies the
/// local side over the cloud side; otherwise the cloud side wins.
pub fn resolve_conflict(conflict: &FileConflict, use_local: bool) -> (op: TransferOp)
    ensures
        op.rel() == conflict.rel(),
        use_local ==> op.direction == Direction::LocalToCloud && op.source_path@
            == conflict.local_path@ && op.dest_path@ == conflict.cloud_path@,
        !use_local ==> op.direction == Direction::CloudToLocal && op.source_path@
            == conflict.cloud_path@ && op.dest_path@ == conflict.local_path@,
{
    if use_local {
        TransferOp {
            relative_path: conflict.relative_path.clone(),
            source_path: conflict.local_path.clone(),
            dest_path: conflict.cloud_path.clone(),
            direction: Direction::LocalToCloud,
        }
    } else {
        TransferOp {
            relative_path: conflict.relative_path.clone(),
            source_path: conflict.cloud_path.clone(),
            dest_path: conflict.local_path.clone(),
            direction: Direction::CloudToLocal,
        }
    }
}

} // verus!
