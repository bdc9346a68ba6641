//! Resolution against a language's SQLite store.
//!
//! The staged protocol is driven by verified code: candidate rows come back
//! from the trusted query layer, and every decision — exact-before-normalized
//! precedence, headword-before-form precedence, error-tag exclusion, entry
//! assembly and deduplication — is made by the verified engine on those rows.

use crate::engine::{
    build_entries, entry_wf, find_form_exact, find_form_normalized, find_headword_exact,
    find_headword_normalized, form_exact_pred, form_norm_pred, hw_exact_pred, hw_norm_pred,
    join_glosses, lemma_dedup_unique, lemma_entries_for_wf, lemma_find_first,
};
use crate::normalize::normalize_word;
use crate::sqlite::{
    fetch_form_candidates, fetch_form_matches, fetch_glosses, fetch_headword_candidates,
    fetch_rows_by_id,
};
use crate::store::{
    clone_opt_string, entry_models, form_models, hw_models, infl_models, DictionaryEntry, FormRow,
    Inflection,
};
use crate::text::{is_blank, is_blank_str};
use vstd::prelude::*;

verus! {

/// Resolves a surface word against the open store `conn`, by the staged
/// fallback protocol.  A blank word resolves to nothing without touching
/// storage.  At most one entry comes back for the query, every entry is
/// well-formed for the queried word, and surface texts are unique.
pub fn search_dictionary(conn: &rusqlite::Connection, word: &str) -> (r: Vec<DictionaryEntry>)
    ensures
        is_blank(word@) ==> r@.len() == 0,
        forall|k: int| 0 <= k < r@.len() ==> entry_wf(#[trigger] entry_models(r@)[k], word@),
        forall|k1: int, k2: int|
            0 <= k1 < k2 < r@.len() ==> entry_models(r@)[k1].text != entry_models(r@)[k2].text,
{
    if is_blank_str(word) {
        return Vec::new();
    }
    let norm = normalize_word(word);
    let hw_cands = fetch_headword_candidates(conn, word, norm.as_str());
    let mut via_form: Option<FormRow> = None;
    let mut id_found: Option<i64> = None;
    if let Some(i) = find_headword_exact(&hw_cands, word) {
        proof {
            lemma_find_first(hw_models(hw_cands@), hw_exact_pred(word@));
        }
        id_found = Some(hw_cands[i].id);
    } else if let Some(i) = find_headword_normalized(&hw_cands, norm.as_str()) {
        proof {
            lemma_find_first(hw_models(hw_cands@), hw_norm_pred(norm@));
        }
        id_found = Some(hw_cands[i].id);
    } else {
        let form_cands = fetch_form_candidates(conn, word, norm.as_str());
        if let Some(j) = find_form_exact(&form_cands, word) {
            proof {
                lemma_find_first(form_models(form_cands@), form_exact_pred(word@));
            }
            via_form = Some(form_cands[j].duplicate());
            id_found = Some(form_cands[j].dictionary_id);
        } else if let Some(j) = find_form_normalized(&form_cands, norm.as_str()) {
            proof {
                lemma_find_first(form_models(form_cands@), form_norm_pred(norm@));
            }
            via_form = Some(form_cands[j].duplicate());
            id_found = Some(form_cands[j].dictionary_id);
        }
    }
    match id_found {
        None => Vec::new(),
        Some(id) => {
            let rows = fetch_rows_by_id(conn, id);
            let glosses = fetch_glosses(conn, id);
            let definition = join_glosses(&glosses);
            let r = build_entries(&rows, &definition, word, &via_form);
            proof {
                lemma_entries_for_wf(
                    hw_models(rows@),
                    crate::text::opt_view(definition),
                    word@,
                    crate::store::opt_form_view(via_form),
                );
                assert forall|k1: int, k2: int| 0 <= k1 < k2 < r@.len() implies entry_models(
                    r@,
                )[k1].text != entry_models(r@)[k2].text by {
                    lemma_dedup_unique(
                        crate::engine::entries_raw(
                            hw_models(rows@),
                            crate::text::opt_view(definition),
                            word@,
                            crate::store::opt_form_view(via_form),
                        ),
                        k1,
                        k2,
                    );
                }
            }
            r
        },
    }
}

/// Converts form rows to inflection records, keeping at most `limit` of
/// them, in order.
pub fn form_rows_to_inflections(rows: &Vec<FormRow>, limit: usize) -> (r: Vec<Inflection>)
    ensures
        r@.len() <= limit,
        r@.len() == if rows@.len() < limit {
            rows@.len() as int
        } else {
            limit as int
        },
        forall|k: int|
            0 <= k < r@.len() ==> #[trigger] infl_models(r@)[k] == (crate::store::InflectionModel {
                form: form_models(rows@)[k].form,
                tags: form_models(rows@)[k].tags,
                normalized_form: form_models(rows@)[k].normalized_form,
            }),
{
    let mut out: Vec<Inflection> = Vec::new();
    let n = rows.len();
    let mut i: usize = 0;
    while i < n && i < limit
        invariant
            n == rows.len(),
            i <= n,
            i <= limit,
            out@.len() == i,
            forall|k: int|
                0 <= k < i ==> #[trigger] infl_models(out@)[k] == (crate::store::InflectionModel {
                    form: form_models(rows@)[k].form,
                    tags: form_models(rows@)[k].tags,
                    normalized_form: form_models(rows@)[k].normalized_form,
                }),
        decreases n - i,
    {
        let row = &rows[i];
        let ghost old_out = out@;
        out.push(
            Inflection {
                form: row.form.clone(),
                tags: clone_opt_string(&row.tags),
                normalized_form: clone_opt_string(&row.normalized_form),
            },
        );
        proof {
            assert(form_models(rows@)[i as int] == rows@[i as int]@);
            assert forall|k: int| 0 <= k < i + 1 implies #[trigger] infl_models(out@)[k]
                == (crate::store::InflectionModel {
                form: form_models(rows@)[k].form,
                tags: form_models(rows@)[k].tags,
                normalized_form: form_models(rows@)[k].normalized_form,
            }) by {
                assert(infl_models(out@)[k] == out@[k]@);
                if k < i {
                    assert(out@[k] == old_out[k]);
                    assert(infl_models(old_out)[k] == old_out[k]@);
                }
            }
        }
        i = i + 1;
    }
    out
}

/// All stored inflected forms whose surface or folded form equals the raw or
/// the folded query, at most twenty of them.
pub fn search_inflections(
    conn: &rusqlite::Connection,
    word: &str,
    normalized_query: &str,
) -> (r: Vec<Inflection>)
    ensures
        r@.len() <= 20,
{
    let rows = fetch_form_matches(conn, word, normalized_query);
    form_rows_to_inflections(&rows, 20)
}

} // verus!
