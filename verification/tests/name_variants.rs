use memorycard::variants::{folder_matches_variants, generate_name_variants};

#[test]
fn variants_of_a_plain_name() {
    let v = generate_name_variants("My Game");
    assert_eq!(
        v,
        vec![
            "My Game".to_string(),
            "MyGame".to_string(),
            "My_Game".to_string(),
            "my game".to_string(),
            "mygame".to_string(),
            ".mygame".to_string(),
        ]
    );
}

#[test]
fn variants_strip_punctuation() {
    let v = generate_name_variants("Game: Name!");
    assert!(v.contains(&"Game: Name!".to_string()));
    assert!(v.contains(&"Game Name".to_string()));
    assert!(v.contains(&"game: name!".to_string()));
    assert!(v.contains(&".game:name!".to_string()));
}

#[test]
fn variants_trim_surrounding_whitespace() {
    let v = generate_name_variants("  Portal  ");
    assert_eq!(v[0], "Portal");
    assert!(v.contains(&"portal".to_string()));
    assert!(v.contains(&".portal".to_string()));
}

#[test]
fn variants_of_single_lowercase_word() {
    // Every transformation collapses to the same string; each variant
    // is listed once.
    let v = generate_name_variants("celeste");
    assert_eq!(v, vec!["celeste".to_string(), ".celeste".to_string()]);
}

#[test]
fn folder_matching_is_case_insensitive_on_variants() {
    let variants = generate_name_variants("Stardew Valley");
    assert!(folder_matches_variants("stardewvalley", &variants));
    assert!(folder_matches_variants("stardew valley saves", &variants));
    assert!(!folder_matches_variants("terraria", &variants));
}

#[test]
fn folder_matching_accepts_folder_contained_in_variant() {
    let variants = generate_name_variants("Super Long Game Title");
    // The folder name is a substring of the lowercased variant.
    assert!(folder_matches_variants("longgame", &variants));
}
