//! Trusted boundary to the embedded SQLite store, through the rusqlite crate.
//!
//! Each wrapper runs one query and converts the returned rows to plain
//! library values.  What a query returns depends on what the opened database
//! file holds, so the wrappers promise nothing about the returned values
//! beyond what holds of every outcome; the verified logic above this layer
//! takes the returned rows as they are.  A storage error during an
//! individual query degrades to "no rows" or zero, never a panic.

use crate::store::{FormRow, HeadwordRow};
use vstd::prelude::*;

verus! {

#[verifier::external_type_specification]
#[verifier::external_body]
pub struct ExConnection(rusqlite::Connection);

/// Relies on rusqlite's Connection::open: opens the database file at `path`,
/// or reports the failure as a message.
#[verifier::external_body]
pub(crate) fn open_store(path: &str) -> (r: Result<rusqlite::Connection, String>) {
    match rusqlite::Connection::open(path) {
        Ok(c) => Ok(c),
        Err(e) => Err(format!("Failed to open database: {}", e)),
    }
}

/// Relies on rusqlite's prepare, query_map and Row::get: fetches the
/// headword rows whose stored surface text equals `word` or whose folded
/// form equals `norm`, in storage order.
#[verifier::external_body]
pub(crate) fn fetch_headword_candidates(
    conn: &rusqlite::Connection,
    word: &str,
    norm: &str,
) -> (r: Vec<HeadwordRow>) {
    let sql =
        "SELECT id, word, normalized_word, lang, pos, etymology_text FROM dictionary WHERE word = ?1 OR normalized_word = ?2";
    let mut stmt = match conn.prepare(sql) { Ok(s) => s, Err(_) => return Vec::new() };
    let rows = stmt.query_map((word, norm), |r| Ok(HeadwordRow {
        id: r.get(0)?, word: r.get(1)?, normalized_word: r.get(2)?,
        lang: r.get(3)?, pos: r.get(4)?, etymology: r.get(5)?,
    }));
    match rows { Ok(it) => it.filter_map(|x| x.ok()).collect(), Err(_) => Vec::new() }
}

/// Relies on rusqlite's prepare, query_map and Row::get: fetches the form
/// rows whose surface form equals `word` or whose folded form equals `norm`,
/// in storage order.
#[verifier::external_body]
pub(crate) fn fetch_form_candidates(
    conn: &rusqlite::Connection,
    word: &str,
    norm: &str,
) -> (r: Vec<FormRow>) {
    let sql =
        "SELECT dictionary_id, form, normalized_form, tags FROM forms WHERE form = ?1 OR normalized_form = ?2";
    let mut stmt = match conn.prepare(sql) { Ok(s) => s, Err(_) => return Vec::new() };
    let rows = stmt.query_map((word, norm), |r| Ok(FormRow {
        dictionary_id: r.get(0)?, form: r.get(1)?, normalized_form: r.get(2)?, tags: r.get(3)?,
    }));
    match rows { Ok(it) => it.filter_map(|x| x.ok()).collect(), Err(_) => Vec::new() }
}

/// Relies on rusqlite's prepare, query_map and Row::get: fetches the form
/// rows whose surface or folded form equals the raw or the folded query, at
/// most twenty of them, in storage order.
#[verifier::external_body]
pub(crate) fn fetch_form_matches(
    conn: &rusqlite::Connection,
    word: &str,
    norm: &str,
) -> (r: Vec<FormRow>) {
    let sql =
        "SELECT dictionary_id, form, normalized_form, tags FROM forms WHERE form = ?1 OR normalized_form = ?1 OR form = ?2 OR normalized_form = ?2 LIMIT 20";
    let mut stmt = match conn.prepare(sql) { Ok(s) => s, Err(_) => return Vec::new() };
    let rows = stmt.query_map((word, norm), |r| Ok(FormRow {
        dictionary_id: r.get(0)?, form: r.get(1)?, normalized_form: r.get(2)?, tags: r.get(3)?,
    }));
    match rows { Ok(it) => it.filter_map(|x| x.ok()).collect(), Err(_) => Vec::new() }
}

/// Relies on rusqlite's prepare, query_map and Row::get: fetches the
/// headword rows carrying the identifier `id`, in storage order.
#[verifier::external_body]
pub(crate) fn fetch_rows_by_id(conn: &rusqlite::Connection, id: i64) -> (r: Vec<HeadwordRow>) {
    let sql =
        "SELECT id, word, normalized_word, lang, pos, etymology_text FROM dictionary WHERE id = ?1";
    let mut stmt = match conn.prepare(sql) { Ok(s) => s, Err(_) => return Vec::new() };
    let rows = stmt.query_map((id,), |r| Ok(HeadwordRow {
        id: r.get(0)?, word: r.get(1)?, normalized_word: r.get(2)?,
        lang: r.get(3)?, pos: r.get(4)?, etymology: r.get(5)?,
    }));
    match rows { Ok(it) => it.filter_map(|x| x.ok()).collect(), Err(_) => Vec::new() }
}

/// Relies on rusqlite's prepare, query_map and Row::get: fetches the gloss
/// texts of the sense rows owned by the headword row `id`, in storage order.
#[verifier::external_body]
pub(crate) fn fetch_glosses(conn: &rusqlite::Connection, id: i64) -> (r: Vec<String>) {
    let mut stmt = match conn.prepare("SELECT gloss FROM senses WHERE dictionary_id = ?1") {
        Ok(s) => s,
        Err(_) => return Vec::new(),
    };
    let rows = stmt.query_map((id,), |r| r.get::<_, String>(0));
    match rows { Ok(it) => it.filter_map(|x| x.ok()).collect(), Err(_) => Vec::new() }
}

/// Relies on rusqlite's query_row: counts the distinct headword texts in the
/// store; a count is never negative, and a failed query counts as zero.
#[verifier::external_body]
pub(crate) fn count_distinct_words(conn: &rusqlite::Connection) -> (r: i64)
    ensures
        r >= 0,
{
    conn.query_row("SELECT COUNT(DISTINCT word) FROM dictionary", (), |row| row.get(0))
        .unwrap_or(0)
}

/// Relies on rusqlite's query_row: counts the sense rows in the store; a
/// count is never negative, and a failed query counts as zero.
#[verifier::external_body]
pub(crate) fn count_senses(conn: &rusqlite::Connection) -> (r: i64)
    ensures
        r >= 0,
{
    conn.query_row("SELECT COUNT(*) FROM senses", (), |row| row.get(0)).unwrap_or(0)
}

/// Relies on rusqlite's query_row: counts the inflected-form rows in the
/// store; a count is never negative, and a failed query counts as zero.
#[verifier::external_body]
pub(crate) fn count_forms(conn: &rusqlite::Connection) -> (r: i64)
    ensures
        r >= 0,
{
    conn.query_row("SELECT COUNT(*) FROM forms", (), |row| row.get(0)).unwrap_or(0)
}

/// Relies on rusqlite's prepare, query_map and Row::get: fetches up to
/// `limit` distinct (word, part-of-speech) pairs whose word matches the
/// prefix pattern, in the store's ascending word order.
#[verifier::external_body]
pub(crate) fn fetch_suggestion_candidates(
    conn: &rusqlite::Connection,
    prefix: &str,
    limit: usize,
) -> (r: Vec<(String, Option<String>)>) {
    let sql = "SELECT DISTINCT word, pos FROM dictionary WHERE word LIKE ?1 ORDER BY word LIMIT ?2";
    let mut stmt = match conn.prepare(sql) { Ok(s) => s, Err(_) => return Vec::new() };
    let pattern = format!("{}%", prefix);
    let rows = stmt.query_map((pattern, limit as i64), |r| {
        Ok((r.get::<_, String>(0)?, r.get::<_, Option<String>>(1)?))
    });
    match rows { Ok(it) => it.filter_map(|x| x.ok()).collect(), Err(_) => Vec::new() }
}

} // verus!
