use lumina_dict::resolve::{search_dictionary, search_inflections};
use lumina_dict::stats::store_stats;
use lumina_dict::suggest::search_suggestions;
use rusqlite::Connection;

fn fresh_store() -> Connection {
    let conn = Connection::open_in_memory().expect("in-memory store");
    conn.execute(
        "CREATE TABLE dictionary (id INTEGER, word TEXT, normalized_word TEXT, lang TEXT, pos TEXT, etymology_text TEXT)",
        (),
    )
    .unwrap();
    conn.execute("CREATE TABLE senses (dictionary_id INTEGER, gloss TEXT)", ()).unwrap();
    conn.execute(
        "CREATE TABLE forms (dictionary_id INTEGER, form TEXT, normalized_form TEXT, tags TEXT)",
        (),
    )
    .unwrap();
    conn
}

fn add_headword(conn: &Connection, id: i64, word: &str, norm: &str, pos: &str) {
    conn.execute(
        "INSERT INTO dictionary VALUES (?1, ?2, ?3, 'German', ?4, NULL)",
        (id, word, norm, pos),
    )
    .unwrap();
}

fn add_sense(conn: &Connection, id: i64, gloss: &str) {
    conn.execute("INSERT INTO senses VALUES (?1, ?2)", (id, gloss)).unwrap();
}

fn add_form(conn: &Connection, id: i64, form: &str, norm: &str, tags: Option<&str>) {
    conn.execute("INSERT INTO forms VALUES (?1, ?2, ?3, ?4)", (id, form, norm, tags)).unwrap();
}

#[test]
fn live_exact_headword_match() {
    let conn = fresh_store();
    add_headword(&conn, 1, "Haus", "haus", "noun");
    add_sense(&conn, 1, "house");
    add_sense(&conn, 1, "building");
    let r = search_dictionary(&conn, "Haus");
    assert_eq!(r.len(), 1);
    assert_eq!(r[0].text, "Haus");
    assert_eq!(r[0].language, "German");
    assert_eq!(r[0].grammar.as_deref(), Some("noun"));
    assert_eq!(r[0].definition.as_deref(), Some("house | building"));
    assert_eq!(r[0].entry_id, Some(1));
    assert!(r[0].inflections.is_none());
}

#[test]
fn live_normalized_headword_match() {
    let conn = fresh_store();
    add_headword(&conn, 1, "Haus", "haus", "noun");
    add_sense(&conn, 1, "house");
    let r = search_dictionary(&conn, "haus");
    assert_eq!(r.len(), 1);
    assert_eq!(r[0].text, "Haus");
}

#[test]
fn live_headword_precedence() {
    let conn = fresh_store();
    add_headword(&conn, 1, "lauf", "lauf", "noun");
    add_headword(&conn, 2, "laufen", "laufen", "verb");
    add_form(&conn, 2, "lauf", "lauf", Some("imperative"));
    let r = search_dictionary(&conn, "lauf");
    assert_eq!(r.len(), 1);
    assert_eq!(r[0].text, "lauf");
    assert!(r[0].inflections.is_none());
}

#[test]
fn live_inflection_fallback() {
    let conn = fresh_store();
    add_headword(&conn, 2, "laufen", "laufen", "verb");
    add_sense(&conn, 2, "to run");
    add_form(&conn, 2, "lief", "lief", Some("past"));
    let r = search_dictionary(&conn, "lief");
    assert_eq!(r.len(), 1);
    assert_eq!(r[0].text, "laufen");
    let infl = r[0].inflections.as_ref().unwrap();
    assert_eq!(infl.len(), 1);
    assert_eq!(infl[0].form, "lief");
    assert_eq!(infl[0].tags.as_deref(), Some("past"));
}

#[test]
fn live_error_tagged_form_is_excluded() {
    let conn = fresh_store();
    add_headword(&conn, 2, "laufen", "laufen", "verb");
    add_form(&conn, 2, "lief", "lief", Some("error"));
    assert!(search_dictionary(&conn, "lief").is_empty());
}

#[test]
fn live_untagged_form_is_usable() {
    let conn = fresh_store();
    add_headword(&conn, 2, "laufen", "laufen", "verb");
    add_form(&conn, 2, "lief", "lief", None);
    let r = search_dictionary(&conn, "lief");
    assert_eq!(r.len(), 1);
    let infl = r[0].inflections.as_ref().unwrap();
    assert!(infl[0].tags.is_none());
}

#[test]
fn live_blank_query_returns_nothing() {
    let conn = fresh_store();
    add_headword(&conn, 1, "Haus", "haus", "noun");
    assert!(search_dictionary(&conn, "  \t").is_empty());
}

#[test]
fn live_umlaut_query_folds_to_stored_form() {
    let conn = fresh_store();
    add_headword(&conn, 1, "Müller", "mueller", "noun");
    let r = search_dictionary(&conn, "MÜLLER");
    assert_eq!(r.len(), 1);
    assert_eq!(r[0].text, "Müller");
}

#[test]
fn live_suggestions_are_sorted_prefixed_and_capped() {
    let conn = fresh_store();
    add_headword(&conn, 1, "haus", "haus", "noun");
    add_headword(&conn, 2, "hase", "hase", "noun");
    add_headword(&conn, 3, "hand", "hand", "noun");
    add_headword(&conn, 4, "baum", "baum", "noun");
    let r = search_suggestions(&conn, "ha", 10);
    let words: Vec<&str> = r.iter().map(|s| s.word.as_str()).collect();
    assert_eq!(words, vec!["hand", "hase", "haus"]);
    let capped = search_suggestions(&conn, "ha", 2);
    assert_eq!(capped.len(), 2);
    assert_eq!(capped[0].word, "hand");
    assert_eq!(capped[1].word, "hase");
}

#[test]
fn live_suggestions_are_case_sensitive_on_the_prefix() {
    // The storage-level match is looser; the returned words are filtered to
    // those literally starting with the prefix.
    let conn = fresh_store();
    add_headword(&conn, 1, "Haus", "haus", "noun");
    add_headword(&conn, 2, "hase", "hase", "noun");
    let r = search_suggestions(&conn, "ha", 10);
    let words: Vec<&str> = r.iter().map(|s| s.word.as_str()).collect();
    assert_eq!(words, vec!["hase"]);
}

#[test]
fn live_suggestions_empty_prefix_lists_first_words() {
    let conn = fresh_store();
    add_headword(&conn, 1, "b", "b", "x");
    add_headword(&conn, 2, "a", "a", "x");
    add_headword(&conn, 3, "c", "c", "x");
    let r = search_suggestions(&conn, "", 2);
    let words: Vec<&str> = r.iter().map(|s| s.word.as_str()).collect();
    assert_eq!(words, vec!["a", "b"]);
}

#[test]
fn live_suggestions_deduplicate_words() {
    let conn = fresh_store();
    add_headword(&conn, 1, "haus", "haus", "noun");
    add_headword(&conn, 2, "haus", "haus", "name");
    let r = search_suggestions(&conn, "ha", 10);
    assert_eq!(r.len(), 1);
    assert_eq!(r[0].word, "haus");
}

#[test]
fn live_stats_count_the_tables() {
    let conn = fresh_store();
    add_headword(&conn, 1, "haus", "haus", "noun");
    add_headword(&conn, 2, "haus", "haus", "name");
    add_headword(&conn, 3, "baum", "baum", "noun");
    add_sense(&conn, 1, "house");
    add_sense(&conn, 3, "tree");
    add_form(&conn, 3, "bäume", "baeume", Some("plural"));
    let s = store_stats(&conn);
    assert_eq!(s.word_count, 2); // distinct words
    assert_eq!(s.sense_count, 2);
    assert_eq!(s.form_count, 1);
    assert_eq!(s.synonym_count, 0);
}

#[test]
fn live_stats_degrade_to_zero_without_tables() {
    let conn = Connection::open_in_memory().expect("open");
    let s = store_stats(&conn);
    assert_eq!(s.word_count, 0);
    assert_eq!(s.sense_count, 0);
    assert_eq!(s.form_count, 0);
}

#[test]
fn live_inflection_listing_is_capped() {
    let conn = fresh_store();
    for i in 0..30 {
        add_form(&conn, i, "geht", "geht", Some("present"));
    }
    let r = search_inflections(&conn, "geht", "geht");
    assert_eq!(r.len(), 20);
    assert_eq!(r[0].form, "geht");
    assert_eq!(r[0].tags.as_deref(), Some("present"));
    assert_eq!(r[0].normalized_form.as_deref(), Some("geht"));
}
