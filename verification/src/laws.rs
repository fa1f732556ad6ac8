//! Run-level laws of the engine.
//!
//! These lemmas state what holds of whole runs: executing a plan makes
//! both trees agree on every path it copies (completeness), a run that
//! succeeded leaves nothing for a second run to do (idempotence), and
//! an absent or unrecognized policy never lets a divergent entry be
//! copied silently (fail-safety). The effect of executing a plan is
//! modelled on the index maps: copying a file installs the source
//! side's entry, signature included, at the destination.

use vstd::prelude::*;

use crate::diff::{cloud_only_at, divergent_at, identical_at, local_only_at};
use crate::index::Sig;
use crate::plan::{
    has_conflict, has_transfer, transfer_rels_unique, Direction, SyncPlan, TransferOp,
};
use crate::policy::{policy_of_tag, resolve_spec, ConflictAction, ResolutionPolicy};

verus! {

/// The two maps agree at `p`: present in one exactly when present in
/// the other, and then with the same signature.
pub open spec fn eq_at(m1: Map<Seq<char>, Sig>, m2: Map<Seq<char>, Sig>, p: Seq<char>) -> bool {
    &&& m1.contains_key(p) <==> m2.contains_key(p)
    &&& m1.contains_key(p) ==> m1[p] == m2[p]
}

/// The effect of one executed copy on the two index maps: the source
/// side's entry appears, unchanged, at the destination side.
pub open spec fn apply_one(
    l: Map<Seq<char>, Sig>,
    c: Map<Seq<char>, Sig>,
    op: TransferOp,
) -> (Map<Seq<char>, Sig>, Map<Seq<char>, Sig>) {
    match op.direction {
        Direction::LocalToCloud => (l, c.insert(op.rel(), l[op.rel()])),
        Direction::CloudToLocal => (l.insert(op.rel(), c[op.rel()]), c),
    }
}

/// The effect of executing every copy of `ops`, in order.
pub open spec fn apply_transfers(
    l: Map<Seq<char>, Sig>,
    c: Map<Seq<char>, Sig>,
    ops: Seq<TransferOp>,
) -> (Map<Seq<char>, Sig>, Map<Seq<char>, Sig>)
    decreases ops.len(),
{
    if ops.len() == 0 {
        (l, c)
    } else {
        let (l1, c1) = apply_transfers(l, c, ops.drop_last());
        apply_one(l1, c1, ops.last())
    }
}

/// What executing a plan whose operations copy distinct paths does to
/// each path: a path copied to the cloud keeps its local entry and gets
/// it as its cloud entry, a path copied to local symmetrically, and a
/// path no operation names is untouched on both sides.
pub proof fn lemma_apply_effect(
    l: Map<Seq<char>, Sig>,
    c: Map<Seq<char>, Sig>,
    ops: Seq<TransferOp>,
)
    requires
        transfer_rels_unique(ops),
    ensures
        forall|p: Seq<char>| #[trigger]
            has_transfer(ops, p, Direction::LocalToCloud) ==> eq_at(
                apply_transfers(l, c, ops).0,
                l,
                p,
            ) && apply_transfers(l, c, ops).1.contains_key(p) && (l.contains_key(p)
                ==> apply_transfers(l, c, ops).1[p] == l[p]),
        forall|p: Seq<char>| #[trigger]
            has_transfer(ops, p, Direction::CloudToLocal) ==> eq_at(
                apply_transfers(l, c, ops).1,
                c,
                p,
            ) && apply_transfers(l, c, ops).0.contains_key(p) && (c.contains_key(p)
                ==> apply_transfers(l, c, ops).0[p] == c[p]),
        forall|p: Seq<char>|
            !(#[trigger] has_transfer(ops, p, Direction::LocalToCloud)) && !has_transfer(
                ops,
                p,
                Direction::CloudToLocal,
            ) ==> eq_at(apply_transfers(l, c, ops).0, l, p) && eq_at(
                apply_transfers(l, c, ops).1,
                c,
                p,
            ),
    decreases ops.len(),
{
    if ops.len() > 0 {
        let init = ops.drop_last();
        let op = ops.last();
        assert forall|i: int, j: int| 0 <= i < j < init.len() implies init[i].rel()
            != init[j].rel() by {
            assert(ops[i].rel() != ops[j].rel());
        }
        lemma_apply_effect(l, c, init);
        let l1 = apply_transfers(l, c, init).0;
        let c1 = apply_transfers(l, c, init).1;
        let r = op.rel();

        assert(!has_transfer(init, r, Direction::LocalToCloud) && !has_transfer(
            init,
            r,
            Direction::CloudToLocal,
        )) by {
            if exists|i: int|
                0 <= i < init.len() && init[i].rel() == r && (init[i].direction
                    == Direction::LocalToCloud || init[i].direction == Direction::CloudToLocal) {
                let i = choose|i: int| 0 <= i < init.len() && init[i].rel() == r;
                assert(ops[i].rel() == ops[ops.len() - 1].rel());
                assert(false);
            }
            if has_transfer(init, r, Direction::LocalToCloud) {
                let i = choose|i: int|
                    0 <= i < init.len() && init[i].rel() == r && init[i].direction
                        == Direction::LocalToCloud;
                assert(ops[i].rel() == ops[ops.len() - 1].rel());
            }
            if has_transfer(init, r, Direction::CloudToLocal) {
                let i = choose|i: int|
                    0 <= i < init.len() && init[i].rel() == r && init[i].direction
                        == Direction::CloudToLocal;
                assert(ops[i].rel() == ops[ops.len() - 1].rel());
            }
        }
        assert(eq_at(l1, l, r) && eq_at(c1, c, r));

        assert forall|p: Seq<char>| #[trigger]
            has_transfer(ops, p, Direction::LocalToCloud) implies eq_at(
            apply_transfers(l, c, ops).0,
            l,
            p,
        ) && apply_transfers(l, c, ops).1.contains_key(p) && (l.contains_key(p)
            ==> apply_transfers(l, c, ops).1[p] == l[p]) by {
            let i = choose|i: int|
                0 <= i < ops.len() && ops[i].rel() == p && ops[i].direction
                    == Direction::LocalToCloud;
            if i < ops.len() - 1 {
                assert(init[i].rel() == p && init[i].direction == Direction::LocalToCloud);
                assert(has_transfer(init, p, Direction::LocalToCloud));
                assert(p != r) by {
                    if p == r {
                        assert(ops[i].rel() == ops[ops.len() - 1].rel());
                    }
                }
            } else {
                assert(op.direction == Direction::LocalToCloud);
            }
        }
        assert forall|p: Seq<char>| #[trigger]
            has_transfer(ops, p, Direction::CloudToLocal) implies eq_at(
            apply_transfers(l, c, ops).1,
            c,
            p,
        ) && apply_transfers(l, c, ops).0.contains_key(p) && (c.contains_key(p)
            ==> apply_transfers(l, c, ops).0[p] == c[p]) by {
            let i = choose|i: int|
                0 <= i < ops.len() && ops[i].rel() == p && ops[i].direction
                    == Direction::CloudToLocal;
            if i < ops.len() - 1 {
                assert(init[i].rel() == p && init[i].direction == Direction::CloudToLocal);
                assert(has_transfer(init, p, Direction::CloudToLocal));
                assert(p != r) by {
                    if p == r {
                        assert(ops[i].rel() == ops[ops.len() - 1].rel());
                    }
                }
            } else {
                assert(op.direction == Direction::CloudToLocal);
            }
        }
        assert forall|p: Seq<char>|
            !(#[trigger] has_transfer(ops, p, Direction::LocalToCloud)) && !has_transfer(
                ops,
                p,
                Direction::CloudToLocal,
            ) implies eq_at(apply_transfers(l, c, ops).0, l, p) && eq_at(
            apply_transfers(l, c, ops).1,
            c,
            p,
        ) by {
            assert(p != r) by {
                if p == r {
                    assert(ops[ops.len() - 1].rel() == p);
                    match op.direction {
                        Direction::LocalToCloud => {
                            assert(has_transfer(ops, p, Direction::LocalToCloud));
                        },
                        Direction::CloudToLocal => {
                            assert(has_transfer(ops, p, Direction::CloudToLocal));
                        },
                    }
                }
            }
            assert(!has_transfer(init, p, Direction::LocalToCloud)) by {
                if has_transfer(init, p, Direction::LocalToCloud) {
                    let i = choose|i: int|
                        0 <= i < init.len() && init[i].rel() == p && init[i].direction
                            == Direction::LocalToCloud;
                    assert(ops[i].rel() == p && ops[i].direction == Direction::LocalToCloud);
                    assert(has_transfer(ops, p, Direction::LocalToCloud));
                }
            }
            assert(!has_transfer(init, p, Direction::CloudToLocal)) by {
                if has_transfer(init, p, Direction::CloudToLocal) {
                    let i = choose|i: int|
                        0 <= i < init.len() && init[i].rel() == p && init[i].direction
                            == Direction::CloudToLocal;
                    assert(ops[i].rel() == p && ops[i].direction == Direction::CloudToLocal);
                    assert(has_transfer(ops, p, Direction::CloudToLocal));
                }
            }
        }
    }
}

/// Completeness: a path present in exactly one root before the run is
/// present in both, with the same signature, once the run's plan has
/// been executed.
pub proof fn lemma_sync_completeness(
    lroot: Seq<char>,
    croot: Seq<char>,
    l: Map<Seq<char>, Sig>,
    c: Map<Seq<char>, Sig>,
    policy: ResolutionPolicy,
    plan: SyncPlan,
    p: Seq<char>,
)
    requires
        plan.describes(lroot, croot, l, c, policy),
        local_only_at(l, c, p) || cloud_only_at(l, c, p),
    ensures
        apply_transfers(l, c, plan.transfers@).0.contains_key(p),
        apply_transfers(l, c, plan.transfers@).1.contains_key(p),
        apply_transfers(l, c, plan.transfers@).0[p] == apply_transfers(l, c, plan.transfers@).1[p],
{
    lemma_apply_effect(l, c, plan.transfers@);
    if local_only_at(l, c, p) {
        assert(has_transfer(plan.transfers@, p, Direction::LocalToCloud));
    } else {
        assert(has_transfer(plan.transfers@, p, Direction::CloudToLocal));
    }
}

/// Idempotence: when a run's plan left no conflict and its transfers
/// were executed, a second run over the resulting trees — under any
/// policy — plans no transfer and reports no conflict.
pub proof fn lemma_sync_idempotent(
    lroot: Seq<char>,
    croot: Seq<char>,
    l: Map<Seq<char>, Sig>,
    c: Map<Seq<char>, Sig>,
    policy: ResolutionPolicy,
    policy2: ResolutionPolicy,
    first: SyncPlan,
    second: SyncPlan,
)
    requires
        first.describes(lroot, croot, l, c, policy),
        first.conflicts@.len() == 0,
        second.describes(
            lroot,
            croot,
            apply_transfers(l, c, first.transfers@).0,
            apply_transfers(l, c, first.transfers@).1,
            policy2,
        ),
    ensures
        second.transfers@.len() == 0,
        second.conflicts@.len() == 0,
{
    let ops = first.transfers@;
    let l2 = apply_transfers(l, c, ops).0;
    let c2 = apply_transfers(l, c, ops).1;

    assert(second.transfers@.len() == 0) by {
        if second.transfers@.len() > 0 {
            let op = second.transfers@[0];
            assert(crate::plan::valid_transfer(op, lroot, croot, l2, c2, policy2));
            lemma_settled_at(lroot, croot, l, c, policy, first, op.rel());
        }
    }
    assert(second.conflicts@.len() == 0) by {
        if second.conflicts@.len() > 0 {
            let cf = second.conflicts@[0];
            assert(crate::plan::valid_conflict(cf, lroot, croot, l2, c2, policy2));
            lemma_settled_at(lroot, croot, l, c, policy, first, cf.rel());
        }
    }
}

/// After a conflict-free run, no single path is one-sided or divergent
/// any more.
proof fn lemma_settled_at(
    lroot: Seq<char>,
    croot: Seq<char>,
    l: Map<Seq<char>, Sig>,
    c: Map<Seq<char>, Sig>,
    policy: ResolutionPolicy,
    first: SyncPlan,
    p: Seq<char>,
)
    requires
        first.describes(lroot, croot, l, c, policy),
        first.conflicts@.len() == 0,
    ensures
        !local_only_at(
            apply_transfers(l, c, first.transfers@).0,
            apply_transfers(l, c, first.transfers@).1,
            p,
        ),
        !cloud_only_at(
            apply_transfers(l, c, first.transfers@).0,
            apply_transfers(l, c, first.transfers@).1,
            p,
        ),
        !divergent_at(
            apply_transfers(l, c, first.transfers@).0,
            apply_transfers(l, c, first.transfers@).1,
            p,
        ),
{
    let ops = first.transfers@;
    let l2 = apply_transfers(l, c, ops).0;
    let c2 = apply_transfers(l, c, ops).1;
    lemma_apply_effect(l, c, ops);

    {
        if has_transfer(ops, p, Direction::LocalToCloud) {
            let i = choose|i: int|
                0 <= i < ops.len() && ops[i].rel() == p && ops[i].direction
                    == Direction::LocalToCloud;
            assert(crate::plan::valid_transfer(ops[i], lroot, croot, l, c, policy));
            assert(l.contains_key(p));
            assert(identical_at(l2, c2, p));
        } else if has_transfer(ops, p, Direction::CloudToLocal) {
            let i = choose|i: int|
                0 <= i < ops.len() && ops[i].rel() == p && ops[i].direction
                    == Direction::CloudToLocal;
            assert(crate::plan::valid_transfer(ops[i], lroot, croot, l, c, policy));
            assert(c.contains_key(p));
            assert(identical_at(l2, c2, p));
        } else {
            assert(eq_at(l2, l, p) && eq_at(c2, c, p));
            if local_only_at(l, c, p) {
                assert(has_transfer(ops, p, Direction::LocalToCloud));
                assert(false);
            }
            if cloud_only_at(l, c, p) {
                assert(has_transfer(ops, p, Direction::CloudToLocal));
                assert(false);
            }
            if divergent_at(l, c, p) {
                assert(crate::plan::decision_recorded(ops, first.conflicts@, l, c, policy, p));
                match resolve_spec(policy, l[p].modified, c[p].modified) {
                    ConflictAction::TransferLocalToCloud => {
                        assert(has_transfer(ops, p, Direction::LocalToCloud));
                    },
                    ConflictAction::TransferCloudToLocal => {
                        assert(has_transfer(ops, p, Direction::CloudToLocal));
                    },
                    ConflictAction::Unresolved => {
                        let i = choose|i: int|
                            0 <= i < first.conflicts@.len() && first.conflicts@[i].rel() == p;
                        assert(false);
                    },
                }
                assert(false);
            }
        }
    }
}

/// Fail-safety: under an absent tag, or any tag other than the three
/// recognized ones, every divergent path is reported as a conflict and
/// no operation of the plan copies it.
pub proof fn lemma_fail_safe_policy(
    lroot: Seq<char>,
    croot: Seq<char>,
    l: Map<Seq<char>, Sig>,
    c: Map<Seq<char>, Sig>,
    tag: Option<Seq<char>>,
    plan: SyncPlan,
    p: Seq<char>,
)
    requires
        plan.describes(lroot, croot, l, c, policy_of_tag(tag)),
        match tag {
            None => true,
            Some(s) => s != "local"@ && s != "cloud"@ && s != "newer"@,
        },
        divergent_at(l, c, p),
    ensures
        has_conflict(plan.conflicts@, p),
        !has_transfer(plan.transfers@, p, Direction::LocalToCloud),
        !has_transfer(plan.transfers@, p, Direction::CloudToLocal),
{
    let policy = policy_of_tag(tag);
    assert(policy == ResolutionPolicy::Unset);
    assert(crate::plan::decision_recorded(plan.transfers@, plan.conflicts@, l, c, policy, p));
    if has_transfer(plan.transfers@, p, Direction::LocalToCloud) {
        let i = choose|i: int|
            0 <= i < plan.transfers@.len() && plan.transfers@[i].rel() == p
                && plan.transfers@[i].direction == Direction::LocalToCloud;
        assert(crate::plan::valid_transfer(plan.transfers@[i], lroot, croot, l, c, policy));
        assert(false);
    }
    if has_transfer(plan.transfers@, p, Direction::CloudToLocal) {
        let i = choose|i: int|
            0 <= i < plan.transfers@.len() && plan.transfers@[i].rel() == p
                && plan.transfers@[i].direction == Direction::CloudToLocal;
        assert(crate::plan::valid_transfer(plan.transfers@[i], lroot, croot, l, c, policy));
        assert(false);
    }
}

} // verus!
