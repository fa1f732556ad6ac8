//! The save-location suggestion side of the application: the query URL
//! for the wiki's cargo API, and the parsing of the save-location
//! markup it returns into candidate paths.
//!
//! Suggestions only feed root selection; they take no part in
//! reconciliation.

use vstd::prelude::*;

use crate::strutil::{
    contains_sub, has_substring, is_substring_at, replace_all, replaced, split_on_separators,
    split_segments, starts_with_pat,
};
use crate::variants::{contains_string, trim_str, trimmed};

verus! {

/// What `urlencoding::encode` gives a string: a function of the input
/// alone.
pub uninterp spec fn url_encoded(s: Seq<char>) -> Seq<char>;

/// Relies on urlencoding::encode: percent-encodes every byte except
/// alphanumerics and `-`, `_`, `.`, `~`; an empty input gives an empty
/// result.
#[verifier::external_body]
fn url_encode(s: &str) -> (r: String)
    ensures
        r@ == url_encoded(s@),
        s@.len() == 0 ==> r@.len() == 0,
{
    urlencoding::encode(s).into_owned()
}

/// One suggestion: a game's page name and the save paths found for it,
/// with the source the suggestion came from.
pub struct PCGamingWikiSaveLocation {
    pub game_name: String,
    pub save_paths: Vec<String>,
    pub source: String,
}

/// The cargo-API query for a game's save-game locations, with the
/// game's name percent-encoded into the name filter.
pub fn wiki_query_url(game_name: &str) -> (r: String)
    ensures
        r@
            == "https://www.pcgamingwiki.com/w/api.php?action=cargoquery&tables=Infobox_game,Game_data&join_on=Infobox_game._pageID=Game_data._pageID&fields=Infobox_game._pageName=Page,Game_data.save_game_location=Game%20data%20save%20game%20location&where=Infobox_game._pageName%20LIKE%20%22%25"@
            + url_encoded(game_name@) + "%25%22&format=json&limit=10"@,
{
    let mut r = String::from_str(
        "https://www.pcgamingwiki.com/w/api.php?action=cargoquery&tables=Infobox_game,Game_data&join_on=Infobox_game._pageID=Game_data._pageID&fields=Infobox_game._pageName=Page,Game_data.save_game_location=Game%20data%20save%20game%20location&where=Infobox_game._pageName%20LIKE%20%22%25",
    );
    let encoded = url_encode(game_name);
    r.append(encoded.as_str());
    r.append("%25%22&format=json&limit=10");
    r
}

/// `s` after every replacement pair has been applied, in order: each
/// pair replaces every occurrence of its pattern in the running result.
pub open spec fn apply_replacements(s: Seq<char>, reps: Seq<(String, String)>) -> Seq<char>
    decreases reps.len(),
{
    if reps.len() == 0 {
        s
    } else {
        apply_replacements(replaced(s, reps[0].0@, reps[0].1@), reps.skip(1))
    }
}

/// Applies every replacement pair to `s`, in order.
fn apply_replacements_exec(s: &String, replacements: &Vec<(String, String)>) -> (r: String)
    requires
        forall|i: int| 0 <= i < replacements@.len() ==> #[trigger] replacements@[i].0@.len() > 0,
    ensures
        r@ == apply_replacements(s@, replacements@),
{
    let mut cur = s.clone();
    let n = replacements.len();
    proof {
        assert(replacements@.skip(0) =~= replacements@);
    }
    let mut i: usize = 0;
    while i < n
        invariant
            0 <= i <= n,
            n == replacements@.len(),
            forall|k: int| 0 <= k < replacements@.len() ==> #[trigger] replacements@[k].0@.len() > 0,
            apply_replacements(cur@, replacements@.skip(i as int)) == apply_replacements(
                s@,
                replacements@,
            ),
        decreases n - i,
    {
        let ghost prev = cur@;
        cur = replace_all(
            cur.as_str(),
            replacements[i].0.as_str(),
            replacements[i].1.as_str(),
        );
        proof {
            let rest = replacements@.skip(i as int);
            assert(rest[0] == replacements@[i as int]);
            assert(rest.skip(1) =~= replacements@.skip(i as int + 1));
            assert(apply_replacements(prev, rest) == apply_replacements(
                replaced(prev, rest[0].0@, rest[0].1@),
                rest.skip(1),
            ));
        }
        i += 1;
    }
    proof {
        assert(replacements@.skip(n as int) =~= Seq::<(String, String)>::empty());
    }
    cur
}

/// One markup line, expanded: the replacement pairs applied, leftover
/// braces removed, and backslashes turned into forward slashes.
pub open spec fn expanded_path(line: Seq<char>, reps: Seq<(String, String)>) -> Seq<char> {
    let p0 = apply_replacements(line, reps);
    let p1 = replaced(p0, "{{"@, Seq::<char>::empty());
    let p2 = replaced(p1, "}}"@, Seq::<char>::empty());
    replaced(p2, "\\"@, "/"@)
}

/// The line is dropped before expansion: blank, or pure markup with no
/// path template in it.
pub open spec fn line_skipped(t: Seq<char>) -> bool {
    t.len() == 0 || (is_substring_at(t, "{{"@, 0) && !has_substring(t, "{{p|"@))
}

/// The expanded line is dropped: markup remains, or nothing usable is
/// left.
pub open spec fn path_rejected(p: Seq<char>) -> bool {
    has_substring(p, "{{"@) || p.len() == 0 || p == seq!['/']
}

/// What one markup line adds to the list of paths gathered so far.
pub open spec fn parse_step(
    acc: Seq<Seq<char>>,
    line: Seq<char>,
    reps: Seq<(String, String)>,
) -> Seq<Seq<char>> {
    let t = trimmed(line);
    if line_skipped(t) {
        acc
    } else {
        let p = expanded_path(t, reps);
        if path_rejected(p) || acc.contains(p) {
            acc
        } else {
            acc.push(p)
        }
    }
}

/// The paths gathered from a sequence of markup lines, in order.
pub open spec fn parse_lines(
    acc: Seq<Seq<char>>,
    segs: Seq<Seq<char>>,
    reps: Seq<(String, String)>,
) -> Seq<Seq<char>>
    decreases segs.len(),
{
    if segs.len() == 0 {
        acc
    } else {
        parse_lines(parse_step(acc, segs[0], reps), segs.skip(1), reps)
    }
}

/// The save paths parsed from one field of wiki markup: the field split
/// at newlines and pipes, each line trimmed, expanded and cleaned, the
/// usable results listed once each in order of first appearance.
pub open spec fn parsed_save_paths(raw: Seq<char>, reps: Seq<(String, String)>) -> Seq<Seq<char>> {
    parse_lines(Seq::empty(), split_segments(raw), reps)
}

/// Parses the wiki's save-location markup into candidate paths. The
/// replacement pairs expand the wiki's path templates (the caller
/// supplies what each template stands for on this machine); lines that
/// are blank, pure markup, or still hold unexpanded templates are
/// dropped, and each surviving path is listed once.
pub fn parse_pcgw_save_location(raw: &str, replacements: &Vec<(String, String)>) -> (paths: Vec<
    String,
>)
    requires
        forall|i: int| 0 <= i < replacements@.len() ==> #[trigger] replacements@[i].0@.len() > 0,
    ensures
        paths@.map_values(|x: String| x@) == parsed_save_paths(raw@, replacements@),
{
    let ghost segs_view = split_segments(raw@);
    let segs = split_on_separators(raw);
    let mut paths: Vec<String> = Vec::new();
    let n = segs.len();
    proof {
        assert(segs_view.skip(0) =~= segs_view);
        assert(paths@.map_values(|x: String| x@) =~= Seq::<Seq<char>>::empty());
    }
    let mut k: usize = 0;
    while k < n
        invariant
            0 <= k <= n,
            n == segs@.len(),
            segs@.map_values(|x: String| x@) == segs_view,
            forall|i: int| 0 <= i < replacements@.len() ==> #[trigger] replacements@[i].0@.len() > 0,
            parse_lines(
                paths@.map_values(|x: String| x@),
                segs_view.skip(k as int),
                replacements@,
            ) == parsed_save_paths(raw@, replacements@),
        decreases n - k,
    {
        let ghost acc = paths@.map_values(|x: String| x@);
        let ghost rest = segs_view.skip(k as int);
        proof {
            assert(rest[0] == segs_view[k as int]);
            assert(segs@.map_values(|x: String| x@)[k as int] == segs@[k as int]@);
            assert(rest.skip(1) =~= segs_view.skip(k as int + 1));
        }
        let t = trim_str(segs[k].as_str());
        let skip_line = if t.as_str().unicode_len() == 0 {
            true
        } else {
            starts_with_pat(t.as_str(), "{{") && !contains_sub(t.as_str(), "{{p|")
        };
        if !skip_line {
            let expanded = apply_replacements_exec(&t, replacements);
            proof {
                reveal_strlit("{{");
                reveal_strlit("}}");
                reveal_strlit("\\");
                assert("{{"@.len() > 0);
                assert("}}"@.len() > 0);
                assert("\\"@.len() > 0);
            }
            let p1 = replace_all(expanded.as_str(), "{{", "");
            let p2 = replace_all(p1.as_str(), "}}", "");
            let p = replace_all(p2.as_str(), "\\", "/");
            proof {
                reveal_strlit("");
                assert(""@ =~= Seq::<char>::empty());
                assert(p@ == expanded_path(t@, replacements@));
            }
            let slash = String::from_str("/");
            let rejected = contains_sub(p.as_str(), "{{") || p.as_str().unicode_len() == 0 || p
                == slash;
            proof {
                reveal_strlit("/");
                assert("/"@ =~= seq!['/']);
            }
            if !rejected {
                if !contains_string(&paths, &p) {
                    paths.push(p);
                    proof {
                        assert(paths@.map_values(|x: String| x@) =~= acc.push(
                            expanded_path(trimmed(segs_view[k as int]), replacements@),
                        ));
                    }
                }
            }
        }
        proof {
            assert(parse_lines(acc, rest, replacements@) == parse_lines(
                parse_step(acc, rest[0], replacements@),
                rest.skip(1),
                replacements@,
            ));
            assert(paths@.map_values(|x: String| x@) =~= parse_step(
                acc,
                segs_view[k as int],
                replacements@,
            ));
        }
        k += 1;
    }
    proof {
        assert(segs_view.skip(n as int) =~= Seq::<Seq<char>>::empty());
    }
    paths
}

} // verus!
