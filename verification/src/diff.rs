//! Cross-referencing two tree indexes.
//!
//! Every relative path present in either index falls in exactly one of
//! four classes: present only locally, present only in the cloud,
//! present in both with equal timestamps (identical, no action), or
//! present in both with different timestamps (divergent). The timestamp
//! is the only signature compared: content never is.

use vstd::prelude::*;

use crate::index::{FileEntry, Sig, TreeIndex};
use crate::paths::joined;

verus! {

/// Present locally, absent in the cloud.
pub open spec fn local_only_at(l: Map<Seq<char>, Sig>, c: Map<Seq<char>, Sig>, p: Seq<char>) -> bool {
    l.contains_key(p) && !c.contains_key(p)
}

/// Present in the cloud, absent locally.
pub open spec fn cloud_only_at(l: Map<Seq<char>, Sig>, c: Map<Seq<char>, Sig>, p: Seq<char>) -> bool {
    c.contains_key(p) && !l.contains_key(p)
}

/// Present on both sides with bit-for-bit equal timestamps.
pub open spec fn identical_at(l: Map<Seq<char>, Sig>, c: Map<Seq<char>, Sig>, p: Seq<char>) -> bool {
    l.contains_key(p) && c.contains_key(p) && l[p].modified == c[p].modified
}

/// Present on both sides with different timestamps.
pub open spec fn divergent_at(l: Map<Seq<char>, Sig>, c: Map<Seq<char>, Sig>, p: Seq<char>) -> bool {
    l.contains_key(p) && c.contains_key(p) && l[p].modified != c[p].modified
}

/// A relative path present in both indexes whose timestamps differ:
/// the entry from each side, under the same relative path.
pub struct DivergentEntry {
    pub local: FileEntry,
    pub cloud: FileEntry,
}

impl DivergentEntry {
    pub open spec fn rel(&self) -> Seq<char> {
        self.local.rel()
    }
}

/// Some entry in `s` carries the relative path `p`.
pub open spec fn has_rel(s: Seq<FileEntry>, p: Seq<char>) -> bool {
    exists|i: int| 0 <= i < s.len() && s[i].rel() == p
}

/// Some divergent entry in `s` carries the relative path `p`.
pub open spec fn has_div_rel(s: Seq<DivergentEntry>, p: Seq<char>) -> bool {
    exists|i: int| 0 <= i < s.len() && s[i].rel() == p
}

pub open spec fn rels_unique(s: Seq<FileEntry>) -> bool {
    forall|i: int, j: int| 0 <= i < j < s.len() ==> s[i].rel() != s[j].rel()
}

pub open spec fn div_rels_unique(s: Seq<DivergentEntry>) -> bool {
    forall|i: int, j: int| 0 <= i < j < s.len() ==> s[i].rel() != s[j].rel()
}

/// The three action-requiring classes of one diff. Identical paths need
/// no action and are not represented.
pub struct TreeDiff {
    pub local_only: Vec<FileEntry>,
    pub cloud_only: Vec<FileEntry>,
    pub divergent: Vec<DivergentEntry>,
}

impl TreeDiff {
    /// The diff lists exactly the paths of each class of the two maps,
    /// once each, with each entry carrying that side's metadata.
    pub open spec fn describes(
        &self,
        lroot: Seq<char>,
        croot: Seq<char>,
        l: Map<Seq<char>, Sig>,
        c: Map<Seq<char>, Sig>,
    ) -> bool {
        &&& forall|i: int|
            0 <= i < self.local_only@.len() ==> {
                let e = #[trigger] self.local_only@[i];
                local_only_at(l, c, e.rel()) && e.sig() == l[e.rel()] && e.absolute_path@
                    == joined(lroot, e.rel())
            }
        &&& forall|p: Seq<char>| #[trigger] local_only_at(l, c, p) ==> has_rel(self.local_only@, p)
        &&& rels_unique(self.local_only@)
        &&& forall|i: int|
            0 <= i < self.cloud_only@.len() ==> {
                let e = #[trigger] self.cloud_only@[i];
                cloud_only_at(l, c, e.rel()) && e.sig() == c[e.rel()] && e.absolute_path@
                    == joined(croot, e.rel())
            }
        &&& forall|p: Seq<char>| #[trigger] cloud_only_at(l, c, p) ==> has_rel(self.cloud_only@, p)
        &&& rels_unique(self.cloud_only@)
        &&& forall|i: int|
            0 <= i < self.divergent@.len() ==> {
                let d = #[trigger] self.divergent@[i];
                d.cloud.rel() == d.rel() && divergent_at(l, c, d.rel()) && d.local.sig() == l[d.rel()]
                    && d.cloud.sig() == c[d.rel()] && d.local.absolute_path@ == joined(lroot, d.rel())
                    && d.cloud.absolute_path@ == joined(croot, d.rel())
            }
        &&& forall|p: Seq<char>| #[trigger] divergent_at(l, c, p) ==> has_div_rel(self.divergent@, p)
        &&& div_rels_unique(self.divergent@)
    }
}

/// Every relative path present in the union of the two indexes falls in
/// exactly one of the four classes, and a path in neither index falls in
/// none.
pub proof fn lemma_classification_coverage(
    l: Map<Seq<char>, Sig>,
    c: Map<Seq<char>, Sig>,
    p: Seq<char>,
)
    ensures
        l.contains_key(p) || c.contains_key(p) ==> {
            let in_local_only = local_only_at(l, c, p);
            let in_cloud_only = cloud_only_at(l, c, p);
            let in_identical = identical_at(l, c, p);
            let in_divergent = divergent_at(l, c, p);
            &&& in_local_only || in_cloud_only || in_identical || in_divergent
            &&& in_local_only ==> !in_cloud_only && !in_identical && !in_divergent
            &&& in_cloud_only ==> !in_local_only && !in_identical && !in_divergent
            &&& in_identical ==> !in_local_only && !in_cloud_only && !in_divergent
            &&& in_divergent ==> !in_local_only && !in_cloud_only && !in_identical
        },
        !l.contains_key(p) && !c.contains_key(p) ==> !local_only_at(l, c, p) && !cloud_only_at(
            l,
            c,
            p,
        ) && !identical_at(l, c, p) && !divergent_at(l, c, p),
{
}

/// Classifies every relative path of the two indexes. Identical paths
/// (equal timestamps) require no action and are left out, whatever their
/// size or content.
pub fn diff_indexes(local: &TreeIndex, cloud: &TreeIndex) -> (d: TreeDiff)
    requires
        local.wf(),
        cloud.wf(),
    ensures
        d.describes(local.root@, cloud.root@, local.map_view(), cloud.map_view()),
{
    let ghost l = local.map_view();
    let ghost c = cloud.map_view();
    let mut local_only: Vec<FileEntry> = Vec::new();
    let mut cloud_only: Vec<FileEntry> = Vec::new();
    let mut divergent: Vec<DivergentEntry> = Vec::new();

    let n = local.entries.len();
    let mut i: usize = 0;
    while i < n
        invariant
            local.wf(),
            cloud.wf(),
            l == local.map_view(),
            c == cloud.map_view(),
            0 <= i <= n,
            n == local.entries@.len(),
            forall|k: int|
                0 <= k < local_only@.len() ==> {
                    let e = #[trigger] local_only@[k];
                    local_only_at(l, c, e.rel()) && e.sig() == l[e.rel()] && e.absolute_path@
                        == joined(local.root@, e.rel())
                },
            forall|k: int|
                0 <= k < local_only@.len() ==> exists|j: int|
                    0 <= j < i && #[trigger] local_only@[k].rel() == local.entries@[j].rel(),
            forall|j: int|
                0 <= j < i && local_only_at(l, c, #[trigger] local.entries@[j].rel()) ==> has_rel(
                    local_only@,
                    local.entries@[j].rel(),
                ),
            rels_unique(local_only@),
            div_rels_unique(divergent@),
            forall|k: int|
                0 <= k < divergent@.len() ==> {
                    let d = #[trigger] divergent@[k];
                    d.cloud.rel() == d.rel() && divergent_at(l, c, d.rel()) && d.local.sig() == l[d.rel()]
                        && d.cloud.sig() == c[d.rel()] && d.local.absolute_path@ == joined(
                        local.root@,
                        d.rel(),
                    ) && d.cloud.absolute_path@ == joined(cloud.root@, d.rel())
                },
            forall|k: int|
                0 <= k < divergent@.len() ==> exists|j: int|
                    0 <= j < i && #[trigger] divergent@[k].rel() == local.entries@[j].rel(),
            forall|j: int|
                0 <= j < i && divergent_at(l, c, #[trigger] local.entries@[j].rel()) ==> has_div_rel(
                    divergent@,
                    local.entries@[j].rel(),
                ),
            cloud_only@.len() == 0,
        decreases n - i,
    {
        let e = &local.entries[i];
        proof {
            crate::index::lemma_index_map_at(local.entries@, i as int);
        }
        let ghost old_lo = local_only@;
        let ghost old_dv = divergent@;
        match cloud.get(&e.relative_path) {
            None => {
                local_only.push(e.duplicate());
                proof {
                    assert(local_only@[old_lo.len() as int].rel() == local.entries@[i as int].rel());
                    assert forall|k: int|
                        0 <= k < local_only@.len() implies exists|j: int|
                        0 <= j < i + 1 && #[trigger] local_only@[k].rel() == local.entries@[j].rel() by {
                        if k < old_lo.len() {
                            let j = choose|j: int|
                                0 <= j < i && old_lo[k].rel() == local.entries@[j].rel();
                            assert(local_only@[k].rel() == local.entries@[j].rel());
                        } else {
                            assert(local_only@[k].rel() == local.entries@[i as int].rel());
                        }
                    }
                    assert forall|k1: int, k2: int|
                        0 <= k1 < k2 < local_only@.len() implies local_only@[k1].rel()
                        != local_only@[k2].rel() by {
                        if k2 < old_lo.len() {
                            assert(old_lo[k1].rel() != old_lo[k2].rel());
                        } else {
                            let j = choose|j: int|
                                0 <= j < i && old_lo[k1].rel() == local.entries@[j].rel();
                            assert(local.entries@[j].rel() != local.entries@[i as int].rel());
                        }
                    }
                    assert forall|j: int|
                        0 <= j < i + 1 && local_only_at(
                            l,
                            c,
                            #[trigger] local.entries@[j].rel(),
                        ) implies has_rel(local_only@, local.entries@[j].rel()) by {
                        if j < i {
                            let w = choose|w: int|
                                0 <= w < old_lo.len() && old_lo[w].rel() == local.entries@[j].rel();
                            assert(local_only@[w].rel() == local.entries@[j].rel());
                        } else {
                            assert(local_only@[old_lo.len() as int].rel() == local.entries@[j].rel());
                        }
                    }
                }
            },
            Some(ce) => {
                if ce.modified != e.modified {
                    divergent.push(DivergentEntry { local: e.duplicate(), cloud: ce.duplicate() });
                    proof {
                        assert(divergent@[old_dv.len() as int].rel() == local.entries@[i as int].rel());
                        assert forall|k: int|
                            0 <= k < divergent@.len() implies exists|j: int|
                            0 <= j < i + 1 && #[trigger] divergent@[k].rel() == local.entries@[j].rel() by {
                            if k < old_dv.len() {
                                let j = choose|j: int|
                                    0 <= j < i && old_dv[k].rel() == local.entries@[j].rel();
                                assert(divergent@[k].rel() == local.entries@[j].rel());
                            } else {
                                assert(divergent@[k].rel() == local.entries@[i as int].rel());
                            }
                        }
                        assert forall|k1: int, k2: int|
                            0 <= k1 < k2 < divergent@.len() implies divergent@[k1].rel()
                            != divergent@[k2].rel() by {
                            if k2 < old_dv.len() {
                                assert(old_dv[k1].rel() != old_dv[k2].rel());
                            } else {
                                let j = choose|j: int|
                                    0 <= j < i && old_dv[k1].rel() == local.entries@[j].rel();
                                assert(local.entries@[j].rel() != local.entries@[i as int].rel());
                            }
                        }
                        assert forall|j: int|
                            0 <= j < i + 1 && divergent_at(
                                l,
                                c,
                                #[trigger] local.entries@[j].rel(),
                            ) implies has_div_rel(divergent@, local.entries@[j].rel()) by {
                            if j < i {
                                let w = choose|w: int|
                                    0 <= w < old_dv.len() && old_dv[w].rel() == local.entries@[j].rel();
                                assert(divergent@[w].rel() == local.entries@[j].rel());
                            } else {
                                assert(divergent@[old_dv.len() as int].rel() == local.entries@[j].rel());
                            }
                        }
                    }
                }
            },
        }
        i += 1;
    }
    proof {
        assert forall|p: Seq<char>| #[trigger] local_only_at(l, c, p) implies has_rel(local_only@, p) by {
            crate::index::lemma_index_map_dom(local.entries@, p);
            let j = choose|j: int| 0 <= j < local.entries@.len() && local.entries@[j].rel() == p;
            assert(local_only_at(l, c, local.entries@[j].rel()));
        }
        assert forall|p: Seq<char>| #[trigger] divergent_at(l, c, p) implies has_div_rel(divergent@, p) by {
            crate::index::lemma_index_map_dom(local.entries@, p);
            let j = choose|j: int| 0 <= j < local.entries@.len() && local.entries@[j].rel() == p;
            assert(divergent_at(l, c, local.entries@[j].rel()));
        }
    }

    let m = cloud.entries.len();
    let mut k: usize = 0;
    while k < m
        invariant
            local.wf(),
            cloud.wf(),
            l == local.map_view(),
            c == cloud.map_view(),
            0 <= k <= m,
            m == cloud.entries@.len(),
            forall|q: int|
                0 <= q < cloud_only@.len() ==> {
                    let e = #[trigger] cloud_only@[q];
                    cloud_only_at(l, c, e.rel()) && e.sig() == c[e.rel()] && e.absolute_path@
                        == joined(cloud.root@, e.rel())
                },
            forall|q: int|
                0 <= q < cloud_only@.len() ==> exists|j: int|
                    0 <= j < k && #[trigger] cloud_only@[q].rel() == cloud.entries@[j].rel(),
            forall|j: int|
                0 <= j < k && cloud_only_at(l, c, #[trigger] cloud.entries@[j].rel()) ==> has_rel(
                    cloud_only@,
                    cloud.entries@[j].rel(),
                ),
            rels_unique(cloud_only@),
        decreases m - k,
    {
        let e = &cloud.entries[k];
        proof {
            crate::index::lemma_index_map_at(cloud.entries@, k as int);
        }
        let ghost old_co = cloud_only@;
        if local.get(&e.relative_path).is_none() {
            cloud_only.push(e.duplicate());
            proof {
                assert(cloud_only@[old_co.len() as int].rel() == cloud.entries@[k as int].rel());
                assert forall|q: int|
                    0 <= q < cloud_only@.len() implies exists|j: int|
                    0 <= j < k + 1 && #[trigger] cloud_only@[q].rel() == cloud.entries@[j].rel() by {
                    if q < old_co.len() {
                        let j = choose|j: int|
                            0 <= j < k && old_co[q].rel() == cloud.entries@[j].rel();
                        assert(cloud_only@[q].rel() == cloud.entries@[j].rel());
                    } else {
                        assert(cloud_only@[q].rel() == cloud.entries@[k as int].rel());
                    }
                }
                assert forall|k1: int, k2: int|
                    0 <= k1 < k2 < cloud_only@.len() implies cloud_only@[k1].rel() != cloud_only@[k2].rel() by {
                    if k2 < old_co.len() {
                        assert(old_co[k1].rel() != old_co[k2].rel());
                    } else {
                        let j = choose|j: int|
                            0 <= j < k && old_co[k1].rel() == cloud.entries@[j].rel();
                        assert(cloud.entries@[j].rel() != cloud.entries@[k as int].rel());
                    }
                }
                assert forall|j: int|
                    0 <= j < k + 1 && cloud_only_at(
                        l,
                        c,
                        #[trigger] cloud.entries@[j].rel(),
                    ) implies has_rel(cloud_only@, cloud.entries@[j].rel()) by {
                    if j < k {
                        let w = choose|w: int|
                            0 <= w < old_co.len() && old_co[w].rel() == cloud.entries@[j].rel();
                        assert(cloud_only@[w].rel() == cloud.entries@[j].rel());
                    } else {
                        assert(cloud_only@[old_co.len() as int].rel() == cloud.entries@[j].rel());
                    }
                }
            }
        }
        k += 1;
    }
    proof {
        assert forall|p: Seq<char>| #[trigger] cloud_only_at(l, c, p) implies has_rel(cloud_only@, p) by {
            crate::index::lemma_index_map_dom(cloud.entries@, p);
            let j = choose|j: int| 0 <= j < cloud.entries@.len() && cloud.entries@[j].rel() == p;
            assert(cloud_only_at(l, c, cloud.entries@[j].rel()));
        }
    }

    TreeDiff { local_only, cloud_only, divergent }
}

} // verus!
