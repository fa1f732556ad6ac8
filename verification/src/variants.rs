//! Candidate folder names for a game.
//!
//! Save folders are often named after the game with small variations:
//! punctuation dropped, spaces removed or replaced by underscores,
//! lowercased, or dot-prefixed for hidden folders. This module derives
//! that list of variants from a game's name, each variant listed once,
//! in a fixed order.

use vstd::prelude::*;

use crate::strutil::{contains_sub, has_substring, push_char};

verus! {

/// The lowercase form that `str::to_lowercase` gives a string: a
/// function of the characters alone.
pub uninterp spec fn lower_of(s: Seq<char>) -> Seq<char>;

/// Whether `char::is_alphanumeric` holds of the character.
pub uninterp spec fn is_alnum_char(ch: char) -> bool;

/// Whether `char::is_whitespace` holds of the character.
pub uninterp spec fn is_space_char(ch: char) -> bool;

/// Relies on str::to_lowercase: the result depends on the characters
/// alone, and an empty string stays empty.
#[verifier::external_body]
fn to_lowercase(s: &str) -> (r: String)
    ensures
        r@ == lower_of(s@),
        s@.len() == 0 ==> r@.len() == 0,
{
    s.to_lowercase()
}

/// Relies on char::is_alphanumeric: a fixed property of the character.
#[verifier::external_body]
fn char_is_alphanumeric(ch: char) -> (r: bool)
    ensures
        r == is_alnum_char(ch),
{
    ch.is_alphanumeric()
}

/// Relies on char::is_whitespace: a fixed property of the character.
#[verifier::external_body]
fn char_is_whitespace(ch: char) -> (r: bool)
    ensures
        r == is_space_char(ch),
{
    ch.is_whitespace()
}

/// `s` with its leading whitespace removed.
pub open spec fn trim_start(s: Seq<char>) -> Seq<char>
    decreases s.len(),
{
    if s.len() > 0 && is_space_char(s[0]) {
        trim_start(s.skip(1))
    } else {
        s
    }
}

/// `s` with its trailing whitespace removed.
pub open spec fn trim_end(s: Seq<char>) -> Seq<char>
    decreases s.len(),
{
    if s.len() > 0 && is_space_char(s.last()) {
        trim_end(s.drop_last())
    } else {
        s
    }
}

/// `s` with leading and trailing whitespace removed.
pub open spec fn trimmed(s: Seq<char>) -> Seq<char> {
    trim_end(trim_start(s))
}

proof fn lemma_trim_start_at(s: Seq<char>, i: int)
    requires
        0 <= i <= s.len(),
        forall|k: int| 0 <= k < i ==> is_space_char(s[k]),
        i < s.len() ==> !is_space_char(s[i]),
    ensures
        trim_start(s) == s.skip(i),
    decreases i,
{
    if i == 0 {
        assert(s.skip(0) =~= s);
    } else {
        assert(is_space_char(s[0]));
        lemma_trim_start_at(s.skip(1), i - 1);
        assert(s.skip(1).skip(i - 1) =~= s.skip(i));
    }
}

proof fn lemma_trim_end_at(s: Seq<char>, j: int)
    requires
        0 <= j <= s.len(),
        forall|k: int| j <= k < s.len() ==> is_space_char(s[k]),
        j > 0 ==> !is_space_char(s[j - 1]),
    ensures
        trim_end(s) == s.take(j),
    decreases s.len() - j,
{
    if j == s.len() {
        assert(s.take(j) =~= s);
    } else {
        assert(is_space_char(s.last()));
        lemma_trim_end_at(s.drop_last(), j);
        assert(s.drop_last().take(j) =~= s.take(j));
    }
}

/// Removes leading and trailing whitespace.
pub(crate) fn trim_str(s: &str) -> (r: String)
    ensures
        r@ == trimmed(s@),
{
    let n = s.unicode_len();
    let mut i: usize = 0;
    while i < n && char_is_whitespace(s.get_char(i))
        invariant
            0 <= i <= n,
            n == s@.len(),
            forall|k: int| 0 <= k < i ==> is_space_char(s@[k]),
        decreases n - i,
    {
        i += 1;
    }
    let mut j: usize = n;
    while j > i && char_is_whitespace(s.get_char(j - 1))
        invariant
            i <= j <= n,
            n == s@.len(),
            forall|k: int| j <= k < n ==> is_space_char(s@[k]),
        decreases j,
    {
        j -= 1;
    }
    let r = s.substring_char(i, j);
    proof {
        lemma_trim_start_at(s@, i as int);
        let t = s@.skip(i as int);
        assert(forall|k: int|
            j - i <= k < t.len() ==> is_space_char(#[trigger] t[k]) && t[k] == s@[k + i]);
        if j > i {
            assert(t[j - i - 1] == s@[j - 1]);
        }
        lemma_trim_end_at(t, j - i);
        assert(t.take(j - i) =~= s@.subrange(i as int, j as int));
    }
    String::from_str(r)
}

/// The characters of `s` that are alphanumeric or a space, in order.
pub open spec fn keep_alnum_space(s: Seq<char>) -> Seq<char>
    decreases s.len(),
{
    if s.len() == 0 {
        Seq::empty()
    } else {
        let rest = keep_alnum_space(s.drop_last());
        if is_alnum_char(s.last()) || s.last() == ' ' {
            rest.push(s.last())
        } else {
            rest
        }
    }
}

/// `s` with every space removed.
pub open spec fn without_spaces(s: Seq<char>) -> Seq<char>
    decreases s.len(),
{
    if s.len() == 0 {
        Seq::empty()
    } else {
        let rest = without_spaces(s.drop_last());
        if s.last() == ' ' {
            rest
        } else {
            rest.push(s.last())
        }
    }
}

/// `s` with every space replaced by an underscore.
pub open spec fn underscored(s: Seq<char>) -> Seq<char>
    decreases s.len(),
{
    if s.len() == 0 {
        Seq::empty()
    } else {
        underscored(s.drop_last()).push(
            if s.last() == ' ' {
                '_'
            } else {
                s.last()
            },
        )
    }
}

fn filter_alnum_space(s: &String) -> (r: String)
    ensures
        r@ == keep_alnum_space(s@),
{
    let mut r = String::new();
    let n = s.as_str().unicode_len();
    let mut i: usize = 0;
    while i < n
        invariant
            0 <= i <= n,
            n == s@.len(),
            r@ == keep_alnum_space(s@.take(i as int)),
        decreases n - i,
    {
        let ch = s.as_str().get_char(i);
        proof {
            assert(s@.take(i as int + 1).drop_last() =~= s@.take(i as int));
            assert(s@.take(i as int + 1).last() == s@[i as int]);
        }
        if char_is_alphanumeric(ch) || ch == ' ' {
            push_char(&mut r, ch);
        }
        i += 1;
    }
    proof {
        assert(s@.take(n as int) =~= s@);
    }
    r
}

fn remove_spaces(s: &String) -> (r: String)
    ensures
        r@ == without_spaces(s@),
{
    let mut r = String::new();
    let n = s.as_str().unicode_len();
    let mut i: usize = 0;
    while i < n
        invariant
            0 <= i <= n,
            n == s@.len(),
            r@ == without_spaces(s@.take(i as int)),
        decreases n - i,
    {
        let ch = s.as_str().get_char(i);
        proof {
            assert(s@.take(i as int + 1).drop_last() =~= s@.take(i as int));
            assert(s@.take(i as int + 1).last() == s@[i as int]);
        }
        if ch != ' ' {
            push_char(&mut r, ch);
        }
        i += 1;
    }
    proof {
        assert(s@.take(n as int) =~= s@);
    }
    r
}

fn spaces_to_underscores(s: &String) -> (r: String)
    ensures
        r@ == underscored(s@),
{
    let mut r = String::new();
    let n = s.as_str().unicode_len();
    let mut i: usize = 0;
    while i < n
        invariant
            0 <= i <= n,
            n == s@.len(),
            r@ == underscored(s@.take(i as int)),
        decreases n - i,
    {
        let ch = s.as_str().get_char(i);
        proof {
            assert(s@.take(i as int + 1).drop_last() =~= s@.take(i as int));
            assert(s@.take(i as int + 1).last() == s@[i as int]);
        }
        if ch == ' ' {
            push_char(&mut r, '_');
        } else {
            push_char(&mut r, ch);
        }
        i += 1;
    }
    proof {
        assert(s@.take(n as int) =~= s@);
    }
    r
}

/// Whether some string of `v` reads `x`.
pub(crate) fn contains_string(v: &Vec<String>, x: &String) -> (r: bool)
    ensures
        r == v@.map_values(|s: String| s@).contains(x@),
{
    let n = v.len();
    let mut i: usize = 0;
    while i < n
        invariant
            0 <= i <= n,
            n == v@.len(),
            forall|k: int| 0 <= k < i ==> v@[k]@ != x@,
        decreases n - i,
    {
        if v[i] == *x {
            proof {
                assert(v@.map_values(|s: String| s@)[i as int] == x@);
            }
            return true;
        }
        i += 1;
    }
    proof {
        let m = v@.map_values(|s: String| s@);
        if m.contains(x@) {
            let k = choose|k: int| 0 <= k < m.len() && m[k] == x@;
            assert(v@[k]@ == x@);
        }
    }
    false
}

/// The variant list: the trimmed name; the name with punctuation
/// dropped, when that changes it and leaves something; the name without
/// spaces; with underscores for spaces; lowercased; lowercased without
/// spaces; and the latter dot-prefixed — each added only when not
/// already listed.
pub open spec fn variants_spec(name: Seq<char>) -> Seq<Seq<char>> {
    let t = trimmed(name);
    let v0 = seq![t];
    let clean = keep_alnum_space(t);
    let v1 = if clean != t && clean.len() > 0 {
        v0.push(clean)
    } else {
        v0
    };
    let no_spaces = without_spaces(t);
    let v2 = if !v1.contains(no_spaces) {
        v1.push(no_spaces)
    } else {
        v1
    };
    let unders = underscored(t);
    let v3 = if !v2.contains(unders) {
        v2.push(unders)
    } else {
        v2
    };
    let lower = lower_of(t);
    let v4 = if !v3.contains(lower) {
        v3.push(lower)
    } else {
        v3
    };
    let lower_ns = without_spaces(lower);
    let v5 = if !v4.contains(lower_ns) {
        v4.push(lower_ns)
    } else {
        v4
    };
    let dotted = seq!['.'] + lower_ns;
    if !v5.contains(dotted) {
        v5.push(dotted)
    } else {
        v5
    }
}

/// Derives the candidate folder-name variants of a game's name.
pub fn generate_name_variants(game_name: &str) -> (variants: Vec<String>)
    ensures
        variants@.map_values(|s: String| s@) == variants_spec(game_name@),
{
    let ghost gview = game_name@;
    let name = trim_str(game_name);
    let mut variants: Vec<String> = Vec::new();

    variants.push(name.clone());
    proof {
        assert(variants@.map_values(|s: String| s@) =~= seq![trimmed(gview)]);
    }

    let clean = filter_alnum_space(&name);
    if !(clean == name) && clean.as_str().unicode_len() > 0 {
        let ghost before = variants@.map_values(|s: String| s@);
        variants.push(clean);
        proof {
            assert(variants@.map_values(|s: String| s@) =~= before.push(
                keep_alnum_space(trimmed(gview)),
            ));
        }
    }

    let no_spaces = remove_spaces(&name);
    if !contains_string(&variants, &no_spaces) {
        let ghost before = variants@.map_values(|s: String| s@);
        variants.push(no_spaces);
        proof {
            assert(variants@.map_values(|s: String| s@) =~= before.push(
                without_spaces(trimmed(gview)),
            ));
        }
    }

    let unders = spaces_to_underscores(&name);
    if !contains_string(&variants, &unders) {
        let ghost before = variants@.map_values(|s: String| s@);
        variants.push(unders);
        proof {
            assert(variants@.map_values(|s: String| s@) =~= before.push(
                underscored(trimmed(gview)),
            ));
        }
    }

    let lower = to_lowercase(name.as_str());
    let lower_ns = remove_spaces(&lower);
    if !contains_string(&variants, &lower) {
        let ghost before = variants@.map_values(|s: String| s@);
        variants.push(lower);
        proof {
            assert(variants@.map_values(|s: String| s@) =~= before.push(lower_of(trimmed(gview))));
        }
    }

    if !contains_string(&variants, &lower_ns) {
        let ghost before = variants@.map_values(|s: String| s@);
        variants.push(lower_ns.clone());
        proof {
            assert(variants@.map_values(|s: String| s@) =~= before.push(
                without_spaces(lower_of(trimmed(gview))),
            ));
        }
    }

    let mut dotted = String::from_str(".");
    dotted.append(lower_ns.as_str());
    proof {
        reveal_strlit(".");
        assert(dotted@ =~= seq!['.'] + without_spaces(lower_of(trimmed(gview))));
    }
    if !contains_string(&variants, &dotted) {
        let ghost before = variants@.map_values(|s: String| s@);
        variants.push(dotted);
        proof {
            assert(variants@.map_values(|s: String| s@) =~= before.push(
                seq!['.'] + without_spaces(lower_of(trimmed(gview))),
            ));
        }
    }

    variants
}

/// The folder name and the lowercased variant match: one contains the
/// other.
pub open spec fn matches_variant(folder: Seq<char>, variant: Seq<char>) -> bool {
    has_substring(folder, lower_of(variant)) || has_substring(lower_of(variant), folder)
}

/// Whether an already-lowercased folder name matches any of the
/// variants: the folder name contains the lowercased variant, or the
/// other way round.
pub fn folder_matches_variants(folder_name_lower: &str, variants: &Vec<String>) -> (r: bool)
    ensures
        r == exists|i: int|
            0 <= i < variants@.len() && matches_variant(
                folder_name_lower@,
                #[trigger] variants@[i]@,
            ),
{
    let n = variants.len();
    let mut i: usize = 0;
    while i < n
        invariant
            0 <= i <= n,
            n == variants@.len(),
            forall|k: int|
                0 <= k < i ==> !matches_variant(folder_name_lower@, #[trigger] variants@[k]@),
        decreases n - i,
    {
        let variant_lower = to_lowercase(variants[i].as_str());
        if contains_sub(folder_name_lower, variant_lower.as_str()) || contains_sub(
            variant_lower.as_str(),
            folder_name_lower,
        ) {
            proof {
                assert(matches_variant(folder_name_lower@, variants@[i as int]@));
            }
            return true;
        }
        i += 1;
    }
    false
}

} // verus!
