use lumina_dict::engine::resolve_in_store;
use lumina_dict::store::{FormRow, HeadwordRow, SenseRow, Store};

fn hw(id: i64, word: &str, norm: Option<&str>, pos: Option<&str>) -> HeadwordRow {
    HeadwordRow {
        id,
        word: word.to_string(),
        normalized_word: norm.map(|s| s.to_string()),
        lang: "German".to_string(),
        pos: pos.map(|s| s.to_string()),
        etymology: None,
    }
}

fn sense(id: i64, gloss: &str) -> SenseRow {
    SenseRow { dictionary_id: id, gloss: gloss.to_string() }
}

fn form(id: i64, f: &str, norm: Option<&str>, tags: Option<&str>) -> FormRow {
    FormRow {
        dictionary_id: id,
        form: f.to_string(),
        normalized_form: norm.map(|s| s.to_string()),
        tags: tags.map(|s| s.to_string()),
    }
}

#[test]
fn headword_precedence_over_forms() {
    // A headword "lauf" and an inflected form "lauf" owned by "laufen":
    // the headword's own entry must come back, with no inflection block.
    let store = Store {
        headwords: vec![hw(1, "lauf", Some("lauf"), Some("noun")), hw(2, "laufen", Some("laufen"), Some("verb"))],
        senses: vec![sense(1, "run (noun)"), sense(2, "to run")],
        forms: vec![form(2, "lauf", Some("lauf"), Some("imperative"))],
    };
    let r = resolve_in_store(&store, "lauf");
    assert_eq!(r.len(), 1);
    assert_eq!(r[0].text, "lauf");
    assert_eq!(r[0].entry_id, Some(1));
    assert!(r[0].inflections.is_none());
}

#[test]
fn inflection_fallback_yields_owning_headword() {
    // No headword "lief", but a usable inflected form "lief" owned by
    // "laufen": the owning headword comes back with one inflection record.
    let store = Store {
        headwords: vec![hw(2, "laufen", Some("laufen"), Some("verb"))],
        senses: vec![sense(2, "to run")],
        forms: vec![form(2, "lief", Some("lief"), Some("past"))],
    };
    let r = resolve_in_store(&store, "lief");
    assert_eq!(r.len(), 1);
    assert_eq!(r[0].text, "laufen");
    let infl = r[0].inflections.as_ref().expect("inflection block expected");
    assert_eq!(infl.len(), 1);
    assert_eq!(infl[0].form, "lief");
    assert_eq!(infl[0].tags.as_deref(), Some("past"));
    assert!(infl[0].normalized_form.is_none());
}

#[test]
fn error_tagged_form_is_never_a_path() {
    // The only matching row carries an error marker: no resolution.
    let store = Store {
        headwords: vec![hw(2, "laufen", Some("laufen"), Some("verb"))],
        senses: vec![sense(2, "to run")],
        forms: vec![form(2, "lief", Some("lief"), Some("error: conjugation table"))],
    };
    assert!(resolve_in_store(&store, "lief").is_empty());
}

#[test]
fn error_tag_is_matched_case_insensitively() {
    let store = Store {
        headwords: vec![hw(2, "laufen", None, None)],
        senses: vec![],
        forms: vec![form(2, "lief", None, Some("ERROR"))],
    };
    assert!(resolve_in_store(&store, "lief").is_empty());
}

#[test]
fn error_tagged_form_is_skipped_for_a_later_clean_one() {
    let store = Store {
        headwords: vec![hw(2, "laufen", None, None), hw(3, "liegen", None, None)],
        senses: vec![],
        forms: vec![
            form(2, "lief", None, Some("error")),
            form(3, "lief", None, Some("past")),
        ],
    };
    let r = resolve_in_store(&store, "lief");
    assert_eq!(r.len(), 1);
    assert_eq!(r[0].text, "liegen");
}

#[test]
fn duplicate_rows_collapse_to_one_entry() {
    // Two storage rows with the same identifier and surface text produce
    // one entry, first seen wins.
    let store = Store {
        headwords: vec![hw(1, "haus", None, Some("noun")), hw(1, "haus", None, Some("noun, dated"))],
        senses: vec![sense(1, "house")],
        forms: vec![],
    };
    let r = resolve_in_store(&store, "haus");
    assert_eq!(r.len(), 1);
    assert_eq!(r[0].grammar.as_deref(), Some("noun"));
}

#[test]
fn normalized_headword_match_finds_native_orthography() {
    // "Haus" is stored with folded form "haus"; the folded query matches it.
    let store = Store {
        headwords: vec![hw(1, "Haus", Some("haus"), Some("noun"))],
        senses: vec![sense(1, "house")],
        forms: vec![],
    };
    let r = resolve_in_store(&store, "haus");
    assert_eq!(r.len(), 1);
    assert_eq!(r[0].text, "Haus");
    assert_eq!(r[0].definition.as_deref(), Some("house"));
}

#[test]
fn umlaut_query_reaches_folded_headword() {
    let store = Store {
        headwords: vec![hw(1, "Müller", Some("mueller"), Some("noun"))],
        senses: vec![sense(1, "miller")],
        forms: vec![],
    };
    let r = resolve_in_store(&store, "MÜLLER");
    assert_eq!(r.len(), 1);
    assert_eq!(r[0].text, "Müller");
}

#[test]
fn blank_word_resolves_to_nothing() {
    let store = Store {
        headwords: vec![hw(1, " ", None, None)],
        senses: vec![],
        forms: vec![],
    };
    assert!(resolve_in_store(&store, "").is_empty());
    assert!(resolve_in_store(&store, "   \t\n").is_empty());
}

#[test]
fn absent_word_resolves_to_nothing() {
    let store = Store {
        headwords: vec![hw(1, "haus", None, None)],
        senses: vec![],
        forms: vec![],
    };
    assert!(resolve_in_store(&store, "baum").is_empty());
}

#[test]
fn repeated_resolution_is_identical() {
    let store = Store {
        headwords: vec![hw(1, "Haus", Some("haus"), Some("noun"))],
        senses: vec![sense(1, "house"), sense(1, "home")],
        forms: vec![form(1, "Häuser", Some("haeuser"), Some("plural"))],
    };
    let a = resolve_in_store(&store, "Häuser");
    let b = resolve_in_store(&store, "Häuser");
    assert_eq!(a.len(), b.len());
    assert_eq!(a[0].text, b[0].text);
    assert_eq!(a[0].definition, b[0].definition);
    assert_eq!(a[0].entry_id, b[0].entry_id);
}

#[test]
fn glosses_join_with_fixed_separator() {
    let store = Store {
        headwords: vec![hw(1, "haus", None, None)],
        senses: vec![sense(1, "house"), sense(1, "home"), sense(2, "unrelated")],
        forms: vec![],
    };
    let r = resolve_in_store(&store, "haus");
    assert_eq!(r[0].definition.as_deref(), Some("house | home"));
}

#[test]
fn no_senses_means_no_definition() {
    let store = Store {
        headwords: vec![hw(1, "haus", None, None)],
        senses: vec![],
        forms: vec![],
    };
    let r = resolve_in_store(&store, "haus");
    assert!(r[0].definition.is_none());
}

#[test]
fn normalized_form_match_is_the_last_stage() {
    // Neither the raw nor the folded query matches a headword, and the raw
    // query matches no form; the folded query matches a form's folded form.
    let store = Store {
        headwords: vec![hw(1, "gehen", Some("gehen"), Some("verb"))],
        senses: vec![sense(1, "to go")],
        forms: vec![form(1, "ging", Some("ging"), Some("past"))],
    };
    let r = resolve_in_store(&store, "GING");
    assert_eq!(r.len(), 1);
    assert_eq!(r[0].text, "gehen");
    let infl = r[0].inflections.as_ref().expect("inflection block expected");
    assert_eq!(infl[0].form, "GING");
    assert_eq!(infl[0].tags.as_deref(), Some("past"));
}
