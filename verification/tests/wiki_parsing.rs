use memorycard::strutil::{contains_sub, replace_all, split_on_separators, starts_with_pat};
use memorycard::wiki::{parse_pcgw_save_location, wiki_query_url, PCGamingWikiSaveLocation};

#[test]
fn query_url_percent_encodes_the_name() {
    let url = wiki_query_url("Half Life");
    assert_eq!(
        url,
        "https://www.pcgamingwiki.com/w/api.php?action=cargoquery&tables=Infobox_game,Game_data&join_on=Infobox_game._pageID=Game_data._pageID&fields=Infobox_game._pageName=Page,Game_data.save_game_location=Game%20data%20save%20game%20location&where=Infobox_game._pageName%20LIKE%20%22%25Half%20Life%25%22&format=json&limit=10"
    );
}

#[test]
fn query_url_keeps_plain_names_as_they_are() {
    let url = wiki_query_url("Celeste");
    assert!(url.contains("%25Celeste%25"));
}

fn reps(pairs: &[(&str, &str)]) -> Vec<(String, String)> {
    pairs.iter().map(|(a, b)| (a.to_string(), b.to_string())).collect()
}

#[test]
fn parse_expands_pipe_free_templates() {
    // A replacement pattern without a pipe survives the segment split
    // and is expanded in place.
    let replacements = reps(&[("~", "/home/user")]);
    let raw = "~\\Documents\\My Games\n~/.config/Game";
    let paths = parse_pcgw_save_location(raw, &replacements);
    assert_eq!(
        paths,
        vec![
            "/home/user/Documents/My Games".to_string(),
            "/home/user/.config/Game".to_string(),
        ]
    );
}

#[test]
fn parse_splits_templates_at_their_pipe() {
    // The markup is split at pipes before any template is expanded, so
    // a `{{p|...}}` template falls apart: its `{{p` half is dropped as
    // pure markup, and the remainder loses its braces and keeps the
    // variable name as a path component.
    let replacements = reps(&[("{{p|userprofile}}", "/home/user")]);
    let raw = "{{p|userprofile}}\\Documents\\My Games";
    let paths = parse_pcgw_save_location(raw, &replacements);
    assert_eq!(paths, vec!["userprofile/Documents/My Games".to_string()]);
}

#[test]
fn parse_drops_markup_only_lines_and_duplicates() {
    // Markup-only segments, bare slashes and repeated paths are all
    // dropped; a path is listed once, at its first appearance.
    let raw = "{{Save game data}}|\\|saves\\slot|saves/slot";
    let paths = parse_pcgw_save_location(raw, &reps(&[]));
    assert_eq!(paths, vec!["saves/slot".to_string()]);
}

#[test]
fn parse_strips_braces_of_unknown_templates() {
    let replacements = reps(&[("{{p|userprofile}}", "/home/user")]);
    let raw = "{{p|hkcu}}\\Software\\Game\n{{p|userprofile}}\\ok";
    let paths = parse_pcgw_save_location(raw, &replacements);
    assert_eq!(
        paths,
        vec!["hkcu/Software/Game".to_string(), "userprofile/ok".to_string()]
    );
}

#[test]
fn parse_of_empty_markup_is_empty() {
    let paths = parse_pcgw_save_location("", &reps(&[]));
    assert!(paths.is_empty());
}

#[test]
fn replace_all_replaces_every_occurrence() {
    assert_eq!(replace_all("a\\b\\c", "\\", "/"), "a/b/c");
    assert_eq!(replace_all("{{x}}{{y}}", "{{", ""), "x}}y}}");
    assert_eq!(replace_all("aaa", "aa", "b"), "ba");
    assert_eq!(replace_all("none here", "zz", "q"), "none here");
}

#[test]
fn contains_and_starts_with() {
    assert!(contains_sub("{{p|userprofile}}", "{{p|"));
    assert!(!contains_sub("plain path", "{{"));
    assert!(starts_with_pat("{{Save}}", "{{"));
    assert!(!starts_with_pat("x{{Save}}", "{{"));
    assert!(contains_sub("anything", ""));
}

#[test]
fn split_handles_newlines_and_pipes() {
    let segs = split_on_separators("a|b\nc");
    assert_eq!(segs, vec!["a".to_string(), "b".to_string(), "c".to_string()]);
    let segs2 = split_on_separators("|");
    assert_eq!(segs2, vec!["".to_string(), "".to_string()]);
    let segs3 = split_on_separators("");
    assert_eq!(segs3, vec!["".to_string()]);
}

#[test]
fn save_location_suggestion_holds_its_fields() {
    let loc = PCGamingWikiSaveLocation {
        game_name: "Celeste".to_string(),
        save_paths: vec!["/home/user/.local/share/Celeste".to_string()],
        source: "pcgamingwiki".to_string(),
    };
    assert_eq!(loc.game_name, "Celeste");
    assert_eq!(loc.save_paths.len(), 1);
    assert_eq!(loc.source, "pcgamingwiki");
}
