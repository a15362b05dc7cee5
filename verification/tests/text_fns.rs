use auth::text::{str_contains, str_eq};

#[test]
fn empty_needle_is_contained_everywhere() {
    assert!(str_contains("", ""));
    assert!(str_contains("June", ""));
}

#[test]
fn containment_matches_the_standard_notion() {
    for (hay, needle) in [
        ("Esteban", "ban"),
        ("Esteban", "Esteban"),
        ("Esteban", "Estebann"),
        ("Esteban", "tEb"),
        ("aaa", "aa"),
        ("abab", "aba"),
        ("", "a"),
        ("June", "une"),
        ("June", "J"),
        ("June", "e"),
        ("June", "ju"),
    ] {
        assert_eq!(
            str_contains(hay, needle),
            hay.contains(needle),
            "diverges on {:?} / {:?}",
            hay,
            needle
        );
    }
}

#[test]
fn containment_handles_wide_characters() {
    assert!(str_contains("Ren\u{e9}e", "\u{e9}e"));
    assert!(!str_contains("Renee", "\u{e9}"));
}

#[test]
fn string_equality_is_exact() {
    assert!(str_eq("", ""));
    assert!(str_eq("root", "root"));
    assert!(!str_eq("root", "Root"));
    assert!(!str_eq("root", "roo"));
    assert!(!str_eq("roo", "root"));
}
