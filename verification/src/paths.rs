//! Root-relative path handling.
//!
//! Paths are plain strings. A file's relative path is its absolute path
//! with the root (and the separating `/`) stripped; joining a root and a
//! relative path inverts that. A root that already ends in `/` is joined
//! without a second separator.

use vstd::prelude::*;

verus! {

/// The absolute path of `rel` under `root`.
pub open spec fn joined(root: Seq<char>, rel: Seq<char>) -> Seq<char> {
    if root.len() > 0 && root.last() == '/' {
        root + rel
    } else {
        root + seq!['/'] + rel
    }
}

/// The relative path of `abs` under `root`, if `abs` lies under `root`.
pub open spec fn strip_spec(root: Seq<char>, abs: Seq<char>) -> Option<Seq<char>> {
    if root.len() > 0 && root.last() == '/' {
        if abs.len() >= root.len() && abs.subrange(0, root.len() as int) == root {
            Some(abs.skip(root.len() as int))
        } else {
            None
        }
    } else {
        if abs.len() > root.len() && abs.subrange(0, root.len() as int) == root && abs[root.len() as int]
            == '/' {
            Some(abs.skip(root.len() as int + 1))
        } else {
            None
        }
    }
}

/// Stripping is the inverse of joining: a path that strips to `rel`
/// is exactly the join of the root with `rel`.
pub proof fn lemma_strip_joins(root: Seq<char>, abs: Seq<char>)
    requires
        strip_spec(root, abs) is Some,
    ensures
        joined(root, strip_spec(root, abs)->Some_0) == abs,
{
    let rel = strip_spec(root, abs)->Some_0;
    if root.len() > 0 && root.last() == '/' {
        assert(joined(root, rel) =~= abs);
    } else {
        assert(joined(root, rel) =~= abs);
    }
}

/// Joins a root and a relative path into an absolute path.
pub fn join_path(root: &str, rel: &str) -> (r: String)
    ensures
        r@ == joined(root@, rel@),
{
    let n = root.unicode_len();
    let mut s = String::from_str(root);
    if n == 0 || root.get_char(n - 1) != '/' {
        s.append("/");
        proof {
            reveal_strlit("/");
            assert(s@ =~= root@ + seq!['/']);
        }
    }
    s.append(rel);
    proof {
        assert(s@ =~= joined(root@, rel@));
    }
    s
}

/// Strips `root` from the front of `abs`, returning the relative path,
/// or `None` when `abs` does not lie under `root`.
pub fn strip_root(root: &str, abs: &str) -> (r: Option<String>)
    ensures
        match r {
            Some(rel) => strip_spec(root@, abs@) == Some(rel@),
            None => strip_spec(root@, abs@) is None,
        },
{
    let rlen = root.unicode_len();
    let alen = abs.unicode_len();
    if alen < rlen {
        return None;
    }
    let mut i: usize = 0;
    while i < rlen
        invariant
            0 <= i <= rlen,
            rlen == root@.len(),
            alen == abs@.len(),
            rlen <= alen,
            forall|j: int| 0 <= j < i ==> abs@[j] == root@[j],
        decreases rlen - i,
    {
        if abs.get_char(i) != root.get_char(i) {
            proof {
                assert(abs@.subrange(0, rlen as int)[i as int] != root@[i as int]);
            }
            return None;
        }
        i += 1;
    }
    proof {
        assert(abs@.subrange(0, rlen as int) =~= root@);
    }
    if rlen > 0 && root.get_char(rlen - 1) == '/' {
        let rel = abs.substring_char(rlen, alen);
        proof {
            assert(rel@ =~= abs@.skip(rlen as int));
        }
        Some(String::from_str(rel))
    } else {
        if alen == rlen || abs.get_char(rlen) != '/' {
            return None;
        }
        let rel = abs.substring_char(rlen + 1, alen);
        proof {
            assert(rel@ =~= abs@.skip(rlen as int + 1));
        }
        Some(String::from_str(rel))
    }
}

} // verus!
