use lumina_dict::normalize::normalize_word;

#[test]
fn normalize_empty_is_empty() {
    assert_eq!(normalize_word(""), "");
}

#[test]
fn normalize_folds_umlauts() {
    assert_eq!(normalize_word("Müller"), "mueller");
}

#[test]
fn normalize_folds_sharp_s() {
    assert_eq!(normalize_word("Straße"), "strasse");
}

#[test]
fn normalize_folds_capital_umlauts_and_sharp_s() {
    assert_eq!(normalize_word("ÄÖÜ"), "aeoeue");
    assert_eq!(normalize_word("GROẞ"), "gross");
}

#[test]
fn normalize_strips_hyphen_and_slash() {
    assert_eq!(normalize_word("a-b/c"), "abc");
}

#[test]
fn normalize_lowercases_ascii() {
    assert_eq!(normalize_word("Haus"), "haus");
}

#[test]
fn normalize_lowercases_non_ascii() {
    // Exercises the full Unicode case-folding path.
    assert_eq!(normalize_word("Éclair"), "éclair");
}

#[test]
fn normalize_is_idempotent() {
    for w in ["Müller", "Straße", "a-b/c", "Haus", "", "GROẞ-ÄÖÜ/ß", "Éclair"] {
        let once = normalize_word(w);
        assert_eq!(normalize_word(&once), once);
    }
}

#[test]
fn normalize_is_deterministic() {
    let a = normalize_word("Straßen-Bahn");
    let b = normalize_word("Straßen-Bahn");
    assert_eq!(a, b);
    assert_eq!(a, "strassenbahn");
}
