//! Tree indexes: the flat mapping from root-relative path to file
//! metadata that one enumeration of a directory tree produces.
//!
//! Callers walk a tree and hand in one [`RawFile`] per regular file; the
//! index strips the root prefix from each absolute path and keys the
//! entries by the relative path. The index is the engine's whole picture
//! of a tree: a file that is not in it is treated as absent on that side.

use vstd::prelude::*;

use crate::paths::{joined, lemma_strip_joins, strip_root, strip_spec};

verus! {

/// A file as the tree walk reports it: its absolute path, its last-write
/// timestamp in nanoseconds, and its size in bytes.
pub struct RawFile {
    pub absolute_path: String,
    pub modified: u128,
    pub size: u64,
}

/// The metadata signature by which two files at the same relative path
/// are compared: the last-write timestamp, plus the size carried along
/// for conflict reporting.
#[derive(Clone, Copy, Debug, PartialEq, Eq, Structural)]
pub struct Sig {
    pub modified: u128,
    pub size: u64,
}

impl RawFile {
    pub open spec fn sig(&self) -> Sig {
        Sig { modified: self.modified, size: self.size }
    }
}

/// One indexed file: the relative path is the key within the tree, the
/// absolute path is always the root joined with it.
pub struct FileEntry {
    pub relative_path: String,
    pub absolute_path: String,
    pub modified: u128,
    pub size: u64,
}

impl FileEntry {
    pub open spec fn rel(&self) -> Seq<char> {
        self.relative_path@
    }

    pub open spec fn sig(&self) -> Sig {
        Sig { modified: self.modified, size: self.size }
    }

    /// A field-for-field copy.
    pub fn duplicate(&self) -> (r: FileEntry)
        ensures
            r.rel() == self.rel(),
            r.absolute_path@ == self.absolute_path@,
            r.sig() == self.sig(),
    {
        FileEntry {
            relative_path: self.relative_path.clone(),
            absolute_path: self.absolute_path.clone(),
            modified: self.modified,
            size: self.size,
        }
    }
}

/// The mathematical content of a sequence of entries: the map from
/// relative path to metadata signature.
pub open spec fn index_map(entries: Seq<FileEntry>) -> Map<Seq<char>, Sig>
    decreases entries.len(),
{
    if entries.len() == 0 {
        Map::empty()
    } else {
        index_map(entries.drop_last()).insert(entries.last().rel(), entries.last().sig())
    }
}

/// A path is in the map exactly when some entry carries it.
pub proof fn lemma_index_map_dom(entries: Seq<FileEntry>, p: Seq<char>)
    ensures
        index_map(entries).contains_key(p) <==> exists|i: int|
            0 <= i < entries.len() && entries[i].rel() == p,
    decreases entries.len(),
{
    if entries.len() > 0 {
        lemma_index_map_dom(entries.drop_last(), p);
        if entries.last().rel() == p {
            assert(entries[entries.len() - 1].rel() == p);
        } else if index_map(entries).contains_key(p) {
            let i = choose|i: int| 0 <= i < entries.drop_last().len() && entries.drop_last()[i].rel() == p;
            assert(entries[i].rel() == p);
        } else if exists|i: int| 0 <= i < entries.len() && entries[i].rel() == p {
            let i = choose|i: int| 0 <= i < entries.len() && entries[i].rel() == p;
            assert(entries.drop_last()[i].rel() == p);
        }
    }
}

/// With unique relative paths, each entry is the map's value at its key.
pub proof fn lemma_index_map_at(entries: Seq<FileEntry>, i: int)
    requires
        forall|k: int, j: int| 0 <= k < j < entries.len() ==> entries[k].rel() != entries[j].rel(),
        0 <= i < entries.len(),
    ensures
        index_map(entries).contains_key(entries[i].rel()),
        index_map(entries)[entries[i].rel()] == entries[i].sig(),
    decreases entries.len(),
{
    lemma_index_map_dom(entries, entries[i].rel());
    if i < entries.len() - 1 {
        assert(entries[i].rel() != entries.last().rel());
        assert(entries.drop_last()[i] == entries[i]);
        lemma_index_map_at(entries.drop_last(), i);
    }
}

/// One tree's index: the root it was built from and one entry per file.
///
/// Well-formedness: relative paths are unique, and every entry's
/// absolute path is the root joined with its relative path.
pub struct TreeIndex {
    pub root: String,
    pub entries: Vec<FileEntry>,
}

impl TreeIndex {
    /// The index as a map from relative path to metadata signature.
    pub open spec fn map_view(&self) -> Map<Seq<char>, Sig> {
        index_map(self.entries@)
    }

    pub open spec fn wf(&self) -> bool {
        &&& forall|i: int, j: int|
            0 <= i < j < self.entries@.len() ==> self.entries@[i].rel() != self.entries@[j].rel()
        &&& forall|i: int|
            0 <= i < self.entries@.len() ==> self.entries@[i].absolute_path@ == joined(
                self.root@,
                self.entries@[i].rel(),
            )
    }

    /// An empty index over `root`.
    pub fn new(root: &str) -> (index: TreeIndex)
        ensures
            index.wf(),
            index.root@ == root@,
            index.map_view() == Map::<Seq<char>, Sig>::empty(),
    {
        TreeIndex { root: String::from_str(root), entries: Vec::new() }
    }

    /// Looks a relative path up in the index.
    pub fn get(&self, rel: &String) -> (r: Option<&FileEntry>)
        requires
            self.wf(),
        ensures
            match r {
                Some(e) => self.map_view().contains_key(rel@) && e.rel() == rel@ && e.sig()
                    == self.map_view()[rel@] && e.absolute_path@ == joined(self.root@, rel@),
                None => !self.map_view().contains_key(rel@),
            },
    {
        let n = self.entries.len();
        let mut i: usize = 0;
        while i < n
            invariant
                self.wf(),
                0 <= i <= n,
                n == self.entries@.len(),
                forall|j: int| 0 <= j < i ==> self.entries@[j].rel() != rel@,
            decreases n - i,
        {
            if self.entries[i].relative_path == *rel {
                proof {
                    lemma_index_map_at(self.entries@, i as int);
                }
                return Some(&self.entries[i]);
            }
            i += 1;
        }
        proof {
            lemma_index_map_dom(self.entries@, rel@);
        }
        None
    }

    /// Adds an entry for a relative path that is not yet in the index.
    fn push_entry(&mut self, entry: FileEntry)
        requires
            old(self).wf(),
            !old(self).map_view().contains_key(entry.rel()),
            entry.absolute_path@ == joined(old(self).root@, entry.rel()),
        ensures
            final(self).wf(),
            final(self).root@ == old(self).root@,
            final(self).map_view() == old(self).map_view().insert(entry.rel(), entry.sig()),
    {
        proof {
            lemma_index_map_dom(self.entries@, entry.rel());
            assert(self.entries@.push(entry).drop_last() =~= self.entries@);
        }
        self.entries.push(entry);
    }
}

/// How a sequence of raw files indexes under `root`: files outside the
/// root are skipped, and of two files with the same relative path the
/// first one listed is kept.
pub open spec fn build_map(root: Seq<char>, files: Seq<RawFile>) -> Map<Seq<char>, Sig>
    decreases files.len(),
{
    if files.len() == 0 {
        Map::empty()
    } else {
        let m = build_map(root, files.drop_last());
        match strip_spec(root, files.last().absolute_path@) {
            Some(rel) => if m.contains_key(rel) {
                m
            } else {
                m.insert(rel, files.last().sig())
            },
            None => m,
        }
    }
}

/// Indexes one enumerated tree: strips the root from every absolute
/// path and keys the entries by the relative path. A file whose path
/// does not lie under the root never appears in the index.
pub fn build_index(root: &str, files: &Vec<RawFile>) -> (index: TreeIndex)
    ensures
        index.wf(),
        index.root@ == root@,
        index.map_view() == build_map(root@, files@),
{
    let mut index = TreeIndex::new(root);
    let n = files.len();
    let mut i: usize = 0;
    while i < n
        invariant
            index.wf(),
            index.root@ == root@,
            0 <= i <= n,
            n == files@.len(),
            index.map_view() == build_map(root@, files@.take(i as int)),
        decreases n - i,
    {
        proof {
            assert(files@.take(i as int + 1).drop_last() =~= files@.take(i as int));
            assert(files@.take(i as int + 1).last() == files@[i as int]);
        }
        match strip_root(root, files[i].absolute_path.as_str()) {
            Some(rel) => {
                if index.get(&rel).is_none() {
                    proof {
                        lemma_strip_joins(root@, files@[i as int].absolute_path@);
                    }
                    let abs = files[i].absolute_path.clone();
                    let entry = FileEntry {
                        relative_path: rel,
                        absolute_path: abs,
                        modified: files[i].modified,
                        size: files[i].size,
                    };
                    index.push_entry(entry);
                }
            },
            None => {},
        }
        i += 1;
    }
    proof {
        assert(files@.take(n as int) =~= files@);
    }
    index
}

} // verus!
