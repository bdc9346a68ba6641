//! Corpus statistics and language discovery over the registry listing.
//!
//! Every operation degrades rather than fails: a count that cannot be
//! computed is zero, a language without a recognized store yields all-zero
//! statistics, and a directory whose store cannot be opened is left out of
//! the language listing.

use crate::normalize::{lowercase_str, lowered};
use crate::registry::{
    dir_models, lang_pair, resolve_store_path, spec_lang_pair, spec_store_dir_idx,
    spec_store_for_dir, spec_store_path, store_for_dir, store_path, DirEntryData, DirEntryModel,
};
use crate::sqlite::{count_distinct_words, count_forms, count_senses, open_store};
use crate::store::{DictionaryStats, LanguageInfo};
use crate::text::opt_view;
use vstd::prelude::*;

verus! {

/// Counts over an open store: distinct headword texts, sense rows and
/// inflected-form rows; a count that cannot be computed is zero.
pub fn store_stats(conn: &rusqlite::Connection) -> (r: DictionaryStats)
    ensures
        r.word_count >= 0,
        r.sense_count >= 0,
        r.form_count >= 0,
        r.synonym_count == 0,
{
    DictionaryStats {
        word_count: count_distinct_words(conn),
        sense_count: count_senses(conn),
        form_count: count_forms(conn),
        synonym_count: 0,
    }
}

/// Statistics for a language over the registry listing.  When no directory
/// of the listing belongs to the language and holds a recognized store file,
/// or the store cannot be opened, every count is zero — never an error.
pub fn get_language_stats(root: &str, dirs: &Vec<DirEntryData>, lang_code: &str) -> (r:
    DictionaryStats)
    ensures
        r.word_count >= 0,
        r.sense_count >= 0,
        r.form_count >= 0,
        r.synonym_count == 0,
        spec_store_dir_idx(dir_models(dirs@), lang_code@) is None ==> r.word_count == 0
            && r.sense_count == 0 && r.form_count == 0,
{
    match resolve_store_path(root, dirs, lang_code) {
        None => DictionaryStats { word_count: 0, sense_count: 0, form_count: 0, synonym_count: 0 },
        Some(path) => match open_store(path.as_str()) {
            Ok(conn) => store_stats(&conn),
            Err(_) => DictionaryStats {
                word_count: 0,
                sense_count: 0,
                form_count: 0,
                synonym_count: 0,
            },
        },
    }
}

/// True when the directory `d` yields the record `rec`: the language pair of
/// the directory's lower-cased name names it, a store file was recognized
/// for its code, and the record points at that store.
pub open spec fn record_from_dir(rec: LanguageInfo, root: Seq<char>, d: DirEntryModel) -> bool {
    &&& (rec.code@, rec.name@) == spec_lang_pair(lowered(d.name))
    &&& rec.has_local
    &&& match spec_store_for_dir(d, rec.code@) {
        Some(f) => opt_view(rec.path) == Some(spec_store_path(root, d.name, f)),
        None => false,
    }
    &&& rec.word_count >= 0
    &&& rec.sense_count >= 0
    &&& rec.form_count >= 0
}

/// True when some directory of the listing yields the record.
pub open spec fn record_from_listing(
    rec: LanguageInfo,
    root: Seq<char>,
    dirs: Seq<DirEntryModel>,
) -> bool {
    exists|j: int| 0 <= j < dirs.len() && record_from_dir(rec, root, #[trigger] dirs[j])
}

/// True when `w` witnesses the records: each record, in order, stems from
/// its own directory of the listing, and the directory indices are strictly
/// increasing — no directory yields two records.
pub open spec fn records_witnessed(
    recs: Seq<LanguageInfo>,
    root: Seq<char>,
    dirs: Seq<DirEntryModel>,
    w: Seq<int>,
) -> bool {
    &&& w.len() == recs.len()
    &&& forall|k1: int, k2: int| 0 <= k1 < k2 < w.len() ==> w[k1] < w[k2]
    &&& forall|k: int|
        0 <= k < w.len() ==> 0 <= #[trigger] w[k] < dirs.len() && record_from_dir(
            recs[k],
            root,
            dirs[w[k]],
        )
}

/// Scans the registry listing into language records.  Every returned record
/// stems from a directory that holds a recognized store file whose store
/// could be opened — a language with no installed store never appears — and
/// distinct records stem from distinct directories, in listing order.  The
/// scan is a fresh snapshot; nothing is cached across calls.
pub fn get_available_languages(root: &str, dirs: &Vec<DirEntryData>) -> (r: Vec<LanguageInfo>)
    ensures
        r@.len() <= dirs@.len(),
        forall|k: int|
            0 <= k < r@.len() ==> record_from_listing(#[trigger] r@[k], root@, dir_models(dirs@)),
        exists|w: Seq<int>| records_witnessed(r@, root@, dir_models(dirs@), w),
{
    let mut out: Vec<LanguageInfo> = Vec::new();
    let ghost mut wit: Seq<int> = Seq::empty();
    let n = dirs.len();
    let mut i: usize = 0;
    while i < n
        invariant
            n == dirs.len(),
            i <= n,
            out@.len() <= i,
            forall|k: int|
                0 <= k < out@.len() ==> record_from_listing(
                    #[trigger] out@[k],
                    root@,
                    dir_models(dirs@),
                ),
            wit.len() == out@.len(),
            forall|k1: int, k2: int| 0 <= k1 < k2 < wit.len() ==> wit[k1] < wit[k2],
            forall|k: int| 0 <= k < wit.len() ==> 0 <= #[trigger] wit[k] < i,
            forall|k: int|
                0 <= k < wit.len() ==> record_from_dir(out@[k], root@, dir_models(dirs@)[wit[k]]),
        decreases n - i,
    {
        let d = &dirs[i];
        let lower = lowercase_str(d.name.as_str());
        let (code, name) = lang_pair(lower.as_str());
        if let Some(file) = store_for_dir(d, code.as_str()) {
            let path = store_path(root, d.name.as_str(), file.as_str());
            if let Ok(conn) = open_store(path.as_str()) {
                let stats = store_stats(&conn);
                let rec = LanguageInfo {
                    code,
                    name,
                    has_local: true,
                    word_count: stats.word_count,
                    sense_count: stats.sense_count,
                    form_count: stats.form_count,
                    path: Some(path),
                };
                proof {
                    assert(dir_models(dirs@)[i as int] == dirs@[i as int]@);
                    assert(record_from_dir(rec, root@, dir_models(dirs@)[i as int]));
                }
                let ghost old_out = out@;
                let ghost old_wit = wit;
                out.push(rec);
                proof {
                    wit = wit.push(i as int);
                    assert forall|k: int| 0 <= k < out@.len() implies record_from_listing(
                        #[trigger] out@[k],
                        root@,
                        dir_models(dirs@),
                    ) by {
                        if k < old_out.len() {
                            assert(out@[k] == old_out[k]);
                        }
                    }
                    assert forall|k: int| 0 <= k < wit.len() implies record_from_dir(
                        out@[k],
                        root@,
                        dir_models(dirs@)[wit[k]],
                    ) by {
                        if k < old_out.len() {
                            assert(out@[k] == old_out[k]);
                            assert(wit[k] == old_wit[k]);
                        } else {
                            assert(out@[k] == rec);
                            assert(wit[k] == i as int);
                        }
                    }
                }
            }
        }
        i = i + 1;
    }
    proof {
        assert(records_witnessed(out@, root@, dir_models(dirs@), wit));
    }
    out
}

} // verus!
