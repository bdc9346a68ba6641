//! Command-level envelopes around the engine, and validation of
//! administrative input.
//!
//! Administrative input is rejected before any filesystem mutation is
//! attempted: a language code must be two or three characters, and only the
//! accepted store file extensions pass.

use crate::engine::entry_wf;
use crate::registry::{dir_models, get_connection, spec_store_dir_idx, DirEntryData};
use crate::store::{entry_models, DictionaryEntry, DictionaryStats, LanguageInfo};
use crate::suggest::{search_suggestions, strictly_sorted, Suggestion};
use crate::text::{concat2, is_blank, is_blank_str, is_prefix, str_eq, str_models};
use vstd::prelude::*;
use vstd::string::StringExecFns;

verus! {

/// Envelope of one search command.
pub struct SearchResult {
    pub success: bool,
    pub entries: Vec<DictionaryEntry>,
    pub source: String,
    pub query: String,
    pub language: String,
}

/// Envelope of one statistics command.
pub struct StatsResult {
    pub success: bool,
    pub stats: Option<DictionaryStats>,
    pub error: Option<String>,
}

/// Envelope of the language listing command.
pub struct LanguagesResult {
    pub success: bool,
    pub languages: Vec<LanguageInfo>,
    pub total: usize,
}

/// Envelope of the suggestion command.
pub struct SuggestResult {
    pub suggestions: Vec<Suggestion>,
    pub source: String,
}

/// Envelope of a batch lookup: each found word with its entries.
pub struct BatchQueryResult {
    pub success: bool,
    pub results: Vec<(String, Vec<DictionaryEntry>)>,
    pub found: usize,
    pub total: usize,
}

/// Envelope of a store upload.
pub struct UploadResult {
    pub success: bool,
    pub message: String,
    pub file_path: Option<String>,
    pub file_type: Option<String>,
}

/// Envelope of a registry rescan.
pub struct RescanResult {
    pub success: bool,
    pub old_count: usize,
    pub new_count: usize,
    pub languages: Vec<String>,
}

/// Envelope of a language removal.
pub struct RemoveResult {
    pub success: bool,
    pub language_code: String,
    pub message: String,
}

/// Envelope of a store file deletion.
pub struct DeleteResult {
    pub success: bool,
    pub language_code: String,
    pub file_path: Option<String>,
    pub message: String,
}

/// The search command.  A blank word and the Sanskrit-only language resolve
/// without touching storage; an unopenable store is absorbed into an
/// error-tagged envelope rather than a failure.
pub fn search_dictionary(
    root: &str,
    root_exists: bool,
    dirs: &Vec<DirEntryData>,
    word: String,
    language: String,
) -> (r: SearchResult)
    ensures
        r.query@ == word@,
        r.language@ == language@,
        is_blank(word@) ==> r.success && r.entries@.len() == 0 && r.source@ == "local"@,
        !is_blank(word@) && language@ == "sa"@ ==> r.success && r.entries@.len() == 0
            && r.source@ == "sanskrit-only"@,
        !is_blank(word@) && language@ != "sa"@ && (!root_exists || spec_store_dir_idx(
            dir_models(dirs@),
            language@,
        ) is None) ==> !r.success && r.entries@.len() == 0 && r.source@ == "error"@,
        r.success && r.source@ == "local"@ ==> forall|k: int|
            0 <= k < r.entries@.len() ==> entry_wf(#[trigger] entry_models(r.entries@)[k], word@),
        r.success && r.source@ == "local"@ ==> forall|k1: int, k2: int|
            0 <= k1 < k2 < r.entries@.len() ==> entry_models(r.entries@)[k1].text != entry_models(
                r.entries@,
            )[k2].text,
        !is_blank(word@) && language@ != "sa"@ ==> ((r.success && r.source@ == "local"@) || (
        !r.success && r.source@ == "error"@ && r.entries@.len() == 0)),
{
    if is_blank_str(word.as_str()) {
        return SearchResult {
            success: true,
            entries: Vec::new(),
            source: String::from_str("local"),
            query: word,
            language,
        };
    }
    if str_eq(language.as_str(), "sa") {
        return SearchResult {
            success: true,
            entries: Vec::new(),
            source: String::from_str("sanskrit-only"),
            query: word,
            language,
        };
    }
    match get_connection(root, root_exists, dirs, language.as_str()) {
        Ok(conn) => {
            let entries = crate::resolve::search_dictionary(&conn, word.as_str());
            SearchResult {
                success: true,
                entries,
                source: String::from_str("local"),
                query: word,
                language,
            }
        },
        Err(_) => SearchResult {
            success: false,
            entries: Vec::new(),
            source: String::from_str("error"),
            query: word,
            language,
        },
    }
}

/// The statistics command.  Statistics degrade to zero counts rather than
/// fail, so the envelope always reports success.
pub fn get_dictionary_stats(root: &str, dirs: &Vec<DirEntryData>, language: &str) -> (r:
    StatsResult)
    ensures
        r.success,
        r.error is None,
        r.stats matches Some(s) && s.word_count >= 0 && s.sense_count >= 0 && s.form_count >= 0
            && s.synonym_count == 0,
        spec_store_dir_idx(dir_models(dirs@), language@) is None ==> (r.stats matches Some(s)
            && s.word_count == 0 && s.sense_count == 0 && s.form_count == 0),
{
    let stats = crate::stats::get_language_stats(root, dirs, language);
    StatsResult { success: true, stats: Some(stats), error: None }
}

/// Wraps a language listing into its envelope; the total is the number of
/// listed languages.
pub fn languages_result(languages: Vec<LanguageInfo>) -> (r: LanguagesResult)
    ensures
        r.success,
        r.total == r.languages@.len(),
        r.languages == languages,
{
    let total = languages.len();
    LanguagesResult { success: true, languages, total }
}

/// The suggestion command: at most ten suggestions, every word starting
/// with the prefix, in strictly ascending order.  An unopenable store is
/// absorbed into an error-tagged envelope.
pub fn get_dictionary_suggestions(
    root: &str,
    root_exists: bool,
    dirs: &Vec<DirEntryData>,
    prefix: &str,
    language: &str,
) -> (r: SuggestResult)
    ensures
        r.suggestions@.len() <= 10,
        forall|k: int|
            0 <= k < r.suggestions@.len() ==> is_prefix(
                prefix@,
                #[trigger] r.suggestions@[k].word@,
            ),
        strictly_sorted(r.suggestions@),
        !root_exists || spec_store_dir_idx(dir_models(dirs@), language@) is None ==> r.source@
            == "error"@ && r.suggestions@.len() == 0,
        r.source@ == "local"@ || (r.source@ == "error"@ && r.suggestions@.len() == 0),
{
    match get_connection(root, root_exists, dirs, language) {
        Ok(conn) => SuggestResult {
            suggestions: search_suggestions(&conn, prefix, 10),
            source: String::from_str("local"),
        },
        Err(_) => SuggestResult { suggestions: Vec::new(), source: String::from_str("error") },
    }
}

/// The batch lookup command: each word is resolved independently; a word
/// with no entries is left out, and `found` counts the words that are in.
/// The Sanskrit-only language short-circuits to an empty result.
pub fn batch_query_dictionary(
    root: &str,
    root_exists: bool,
    dirs: &Vec<DirEntryData>,
    words: &Vec<String>,
    language: &str,
) -> (r: BatchQueryResult)
    ensures
        r.success,
        r.total == words@.len(),
        r.found == r.results@.len(),
        r.results@.len() <= words@.len(),
        language@ == "sa"@ ==> r.results@.len() == 0,
        forall|k: int|
            0 <= k < r.results@.len() ==> (exists|j: int|
                0 <= j < words@.len() && (#[trigger] r.results@[k]).0@ == words@[j]@)
                && r.results@[k].1@.len() > 0,
{
    let total = words.len();
    if str_eq(language, "sa") {
        return BatchQueryResult { success: true, results: Vec::new(), found: 0, total };
    }
    let mut results: Vec<(String, Vec<DictionaryEntry>)> = Vec::new();
    match get_connection(root, root_exists, dirs, language) {
        Err(_) => {},
        Ok(conn) => {
            let mut i: usize = 0;
            while i < total
                invariant
                    total == words@.len(),
                    i <= total,
                    results@.len() <= i,
                    forall|k: int|
                        0 <= k < results@.len() ==> (exists|j: int|
                            0 <= j < words@.len() && (#[trigger] results@[k]).0@ == words@[j]@)
                            && results@[k].1@.len() > 0,
                decreases total - i,
            {
                let entries = crate::resolve::search_dictionary(&conn, words[i].as_str());
                if entries.len() > 0 {
                    let ghost old_results = results@;
                    results.push((words[i].clone(), entries));
                    proof {
                        assert((results@[old_results.len() as int]).0@ == words@[i as int]@);
                        assert forall|k: int| 0 <= k < results@.len() implies (exists|j: int|
                            0 <= j < words@.len() && (#[trigger] results@[k]).0@ == words@[j]@)
                            && results@[k].1@.len() > 0 by {
                            if k < old_results.len() {
                                assert(results@[k] == old_results[k]);
                            }
                        }
                    }
                }
                i = i + 1;
            }
        },
    }
    let found = results.len();
    BatchQueryResult { success: true, results, found, total }
}

/// Checks an administrative language code: two or three characters.
pub fn validate_language_code(code: &str) -> (r: bool)
    ensures
        r == (2 <= code@.len() <= 3),
{
    let n: usize = code.unicode_len();
    2 <= n && n <= 3
}

/// The accepted store upload extensions, already lower-cased.
pub fn allowed_upload_extension(ext: &str) -> (r: bool)
    ensures
        r == (ext@ == "db"@ || ext@ == "sqlite"@ || ext@ == "jsonl"@ || ext@ == "json"@),
{
    str_eq(ext, "db") || str_eq(ext, "sqlite") || str_eq(ext, "jsonl") || str_eq(ext, "json")
}

/// True for an extension that is already in the native store format; any
/// other accepted extension needs conversion before installation.
pub fn is_native_store_extension(ext: &str) -> (r: bool)
    ensures
        r == (ext@ == "db"@ || ext@ == "sqlite"@),
{
    str_eq(ext, "db") || str_eq(ext, "sqlite")
}

/// The canonical store file name the registry expects for a language code.
pub fn store_file_name(code: &str) -> (r: String)
    ensures
        r@ == code@ + "_dict.db"@,
{
    concat2(code, "_dict.db")
}

/// Builds the envelope of a successful upload.
pub fn upload_result(language_name: &str, file_path: String, file_type: String) -> (r:
    UploadResult)
    ensures
        r.success,
        r.message@ == "Dictionary uploaded successfully for "@ + language_name@,
        r.file_path matches Some(p) && p == file_path,
        r.file_type matches Some(t) && t == file_type,
{
    UploadResult {
        success: true,
        message: concat2("Dictionary uploaded successfully for ", language_name),
        file_path: Some(file_path),
        file_type: Some(file_type),
    }
}

/// The codes of the listed languages, in order.
pub fn language_codes(languages: &Vec<LanguageInfo>) -> (r: Vec<String>)
    ensures
        r@.len() == languages@.len(),
        forall|k: int|
            0 <= k < r@.len() ==> #[trigger] str_models(r@)[k] == languages@[k].code@,
{
    let mut out: Vec<String> = Vec::new();
    let n = languages.len();
    let mut i: usize = 0;
    while i < n
        invariant
            n == languages@.len(),
            i <= n,
            out@.len() == i,
            forall|k: int|
                0 <= k < i ==> #[trigger] str_models(out@)[k] == languages@[k].code@,
        decreases n - i,
    {
        let ghost old_out = out@;
        out.push(languages[i].code.clone());
        proof {
            assert forall|k: int| 0 <= k < i + 1 implies #[trigger] str_models(out@)[k]
                == languages@[k].code@ by {
                assert(str_models(out@)[k] == out@[k]@);
                if k < i {
                    assert(out@[k] == old_out[k]);
                    assert(str_models(old_out)[k] == old_out[k]@);
                }
            }
        }
        i = i + 1;
    }
    out
}

/// Builds the envelope of a registry rescan from a fresh listing.
pub fn rescan_result(languages: &Vec<LanguageInfo>) -> (r: RescanResult)
    ensures
        r.success,
        r.old_count == 0,
        r.new_count == languages@.len(),
        r.languages@.len() == languages@.len(),
{
    let codes = language_codes(languages);
    RescanResult { success: true, old_count: 0, new_count: languages.len(), languages: codes }
}

/// Builds the envelope of a successful language removal.
pub fn remove_result(language_code: String) -> (r: RemoveResult)
    ensures
        r.success,
        r.language_code == language_code,
        r.message@ == "Dictionary removed successfully"@,
{
    RemoveResult {
        success: true,
        language_code,
        message: String::from_str("Dictionary removed successfully"),
    }
}

/// Builds the envelope of a successful store file deletion.
pub fn delete_result(language_code: String, file_path: String) -> (r: DeleteResult)
    ensures
        r.success,
        r.language_code == language_code,
        r.file_path matches Some(p) && p == file_path,
        r.message@ == "Dictionary file deleted successfully"@,
{
    DeleteResult {
        success: true,
        language_code,
        file_path: Some(file_path),
        message: String::from_str("Dictionary file deleted successfully"),
    }
}

} // verus!
