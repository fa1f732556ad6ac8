//! Small string algorithms: substring search, replacement of every
//! occurrence of a pattern, and splitting on separator characters.

use vstd::prelude::*;

verus! {

/// `pat` occurs in `s` starting at position `i`.
pub open spec fn is_substring_at(s: Seq<char>, pat: Seq<char>, i: int) -> bool {
    0 <= i && i + pat.len() <= s.len() && s.subrange(i, i + pat.len() as int) == pat
}

/// `pat` occurs somewhere in `s`.
pub open spec fn has_substring(s: Seq<char>, pat: Seq<char>) -> bool {
    exists|i: int| is_substring_at(s, pat, i)
}

/// Relies on String::push: appends the one character.
#[verifier::external_body]
pub(crate) fn push_char(s: &mut String, ch: char)
    ensures
        final(s)@ == old(s)@.push(ch),
{
    s.push(ch);
}

/// Whether `pat` matches `s` at position `i`.
fn match_at(s: &str, pat: &str, i: usize) -> (r: bool)
    requires
        i + pat@.len() <= s@.len(),
    ensures
        r == is_substring_at(s@, pat@, i as int),
{
    let n = s.unicode_len();
    let m = pat.unicode_len();
    let mut k: usize = 0;
    while k < m
        invariant
            0 <= k <= m,
            m == pat@.len(),
            n == s@.len(),
            i + m <= n,
            forall|j: int| 0 <= j < k ==> s@[i + j] == pat@[j],
        decreases m - k,
    {
        if s.get_char(i + k) != pat.get_char(k) {
            proof {
                assert(s@.subrange(i as int, i as int + m as int)[k as int] != pat@[k as int]);
            }
            return false;
        }
        k += 1;
    }
    proof {
        assert(s@.subrange(i as int, i as int + m as int) =~= pat@);
    }
    true
}

/// Whether `s` begins with `pat`.
pub fn starts_with_pat(s: &str, pat: &str) -> (r: bool)
    ensures
        r == is_substring_at(s@, pat@, 0),
{
    let n = s.unicode_len();
    let m = pat.unicode_len();
    if m > n {
        return false;
    }
    match_at(s, pat, 0)
}

/// Whether `pat` occurs anywhere in `s`.
pub fn contains_sub(s: &str, pat: &str) -> (r: bool)
    ensures
        r == has_substring(s@, pat@),
{
    let n = s.unicode_len();
    let m = pat.unicode_len();
    if m > n {
        proof {
            if has_substring(s@, pat@) {
                let i = choose|i: int| is_substring_at(s@, pat@, i);
                assert(false);
            }
        }
        return false;
    }
    if m == 0 {
        proof {
            assert(s@.subrange(0, 0) =~= pat@);
            assert(is_substring_at(s@, pat@, 0));
        }
        return true;
    }
    let mut i: usize = 0;
    while i <= n - m
        invariant
            0 <= i <= n - m + 1,
            n == s@.len(),
            m == pat@.len(),
            0 < m <= n,
            forall|j: int| 0 <= j < i ==> !is_substring_at(s@, pat@, j),
        decreases n - i,
    {
        if match_at(s, pat, i) {
            return true;
        }
        i += 1;
    }
    proof {
        if has_substring(s@, pat@) {
            let j = choose|j: int| is_substring_at(s@, pat@, j);
            assert(j <= n - m);
            assert(false);
        }
    }
    false
}

/// `s` with every occurrence of `pat`, scanned left to right without
/// overlap, replaced by `rep`.
pub open spec fn replaced(s: Seq<char>, pat: Seq<char>, rep: Seq<char>) -> Seq<char>
    decreases s.len(),
    when pat.len() > 0
{
    if s.len() < pat.len() {
        s
    } else if s.take(pat.len() as int) == pat {
        rep + replaced(s.skip(pat.len() as int), pat, rep)
    } else {
        seq![s[0]] + replaced(s.skip(1), pat, rep)
    }
}

/// Replaces every occurrence of `pat` in `s` by `rep`.
pub fn replace_all(s: &str, pat: &str, rep: &str) -> (r: String)
    requires
        pat@.len() > 0,
    ensures
        r@ == replaced(s@, pat@, rep@),
{
    let n = s.unicode_len();
    let m = pat.unicode_len();
    let mut r = String::new();
    proof {
        assert(s@.skip(0) =~= s@);
        assert(Seq::<char>::empty() + replaced(s@, pat@, rep@) =~= replaced(s@, pat@, rep@));
    }
    let mut i: usize = 0;
    while i < n
        invariant
            0 <= i <= n,
            n == s@.len(),
            m == pat@.len(),
            m > 0,
            r@ + replaced(s@.skip(i as int), pat@, rep@) == replaced(s@, pat@, rep@),
        decreases n - i,
    {
        let ghost prev = r@;
        if m <= n - i && match_at(s, pat, i) {
            r.append(rep);
            proof {
                assert(s@.skip(i as int).take(m as int) =~= s@.subrange(
                    i as int,
                    i as int + m as int,
                ));
                assert(s@.skip(i as int).skip(m as int) =~= s@.skip(i as int + m as int));
                assert(replaced(s@.skip(i as int), pat@, rep@) == rep@ + replaced(
                    s@.skip(i as int + m as int),
                    pat@,
                    rep@,
                ));
                assert(r@ + replaced(s@.skip(i as int + m as int), pat@, rep@) =~= prev + replaced(
                    s@.skip(i as int),
                    pat@,
                    rep@,
                ));
            }
            i += m;
        } else {
            let ch = s.get_char(i);
            push_char(&mut r, ch);
            proof {
                let t = s@.skip(i as int);
                assert(t[0] == s@[i as int]);
                assert(t.skip(1) =~= s@.skip(i as int + 1));
                if t.len() >= m {
                    assert(t.take(m as int) =~= s@.subrange(i as int, i as int + m as int));
                    assert(!is_substring_at(s@, pat@, i as int));
                    assert(t.take(m as int) != pat@);
                } else {
                    assert(replaced(t, pat@, rep@) == t);
                    assert(replaced(t.skip(1), pat@, rep@) == t.skip(1));
                    assert(t =~= seq![t[0]] + t.skip(1));
                }
                assert(replaced(t, pat@, rep@) == seq![s@[i as int]] + replaced(
                    s@.skip(i as int + 1),
                    pat@,
                    rep@,
                ));
                assert(r@ + replaced(s@.skip(i as int + 1), pat@, rep@) =~= prev + replaced(
                    t,
                    pat@,
                    rep@,
                ));
            }
            i += 1;
        }
    }
    proof {
        assert(s@.skip(n as int) =~= Seq::<char>::empty());
        assert(r@ =~= r@ + replaced(s@.skip(n as int), pat@, rep@));
    }
    r
}

/// A segment separator of the wiki markup: a newline or a pipe.
pub open spec fn is_sep(ch: char) -> bool {
    ch == '\n' || ch == '|'
}

/// The segments of `s` between separators, in order. An empty string
/// has one empty segment; a trailing separator opens one more.
pub open spec fn split_segments(s: Seq<char>) -> Seq<Seq<char>>
    decreases s.len(),
{
    if s.len() == 0 {
        seq![Seq::<char>::empty()]
    } else if is_sep(s.last()) {
        split_segments(s.drop_last()).push(Seq::<char>::empty())
    } else {
        let r = split_segments(s.drop_last());
        r.update(r.len() - 1, r.last().push(s.last()))
    }
}

/// Splitting yields at least one segment.
pub proof fn lemma_split_segments_len(s: Seq<char>)
    ensures
        split_segments(s).len() >= 1,
    decreases s.len(),
{
    if s.len() > 0 {
        lemma_split_segments_len(s.drop_last());
    }
}

/// Splits `s` at every newline and pipe.
pub fn split_on_separators(s: &str) -> (segs: Vec<String>)
    ensures
        segs@.map_values(|x: String| x@) == split_segments(s@),
{
    let mut segs: Vec<String> = Vec::new();
    let mut cur = String::new();
    let n = s.unicode_len();
    let mut i: usize = 0;
    while i < n
        invariant
            0 <= i <= n,
            n == s@.len(),
            segs@.map_values(|x: String| x@).push(cur@) == split_segments(s@.take(i as int)),
        decreases n - i,
    {
        let ghost mapped = segs@.map_values(|x: String| x@);
        let ch = s.get_char(i);
        proof {
            assert(s@.take(i as int + 1).drop_last() =~= s@.take(i as int));
            assert(s@.take(i as int + 1).last() == s@[i as int]);
            lemma_split_segments_len(s@.take(i as int));
        }
        if ch == '\n' || ch == '|' {
            segs.push(cur);
            cur = String::new();
            proof {
                assert(segs@.map_values(|x: String| x@) =~= mapped.push(
                    split_segments(s@.take(i as int)).last(),
                ));
                assert(segs@.map_values(|x: String| x@).push(cur@) =~= split_segments(
                    s@.take(i as int + 1),
                ));
            }
        } else {
            let ghost oldcur = cur@;
            push_char(&mut cur, ch);
            proof {
                let r = split_segments(s@.take(i as int));
                assert(r == mapped.push(oldcur));
                assert(r.last() == oldcur);
                assert(cur@ == oldcur.push(s@[i as int]));
                assert(segs@.map_values(|x: String| x@).push(cur@) =~= r.update(
                    r.len() - 1,
                    r.last().push(s@[i as int]),
                ));
            }
        }
        i += 1;
    }
    proof {
        assert(s@.take(n as int) =~= s@);
    }
    segs.push(cur);
    proof {
        assert(segs@.map_values(|x: String| x@) =~= split_segments(s@));
    }
    segs
}

} // verus!
