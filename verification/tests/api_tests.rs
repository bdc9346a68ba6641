use lumina_dict::api::{
    allowed_upload_extension, batch_query_dictionary, delete_result, get_dictionary_stats,
    get_dictionary_suggestions, is_native_store_extension, languages_result, remove_result,
    rescan_result, search_dictionary, store_file_name, upload_result, validate_language_code,
};
use lumina_dict::clock::chrono_lite_timestamp;
use lumina_dict::floating::FloatingWindowManager;
use lumina_dict::registry::DirEntryData;
use lumina_dict::suggest::select_suggestions;
use lumina_dict::stats::get_available_languages;
use lumina_dict::store::LanguageInfo;

fn dirs_without_stores() -> Vec<DirEntryData> {
    vec![DirEntryData { name: "german".to_string(), files: vec!["readme.md".to_string()] }]
}

#[test]
fn search_command_short_circuits_blank_words() {
    let r = search_dictionary("/data/dict", true, &Vec::new(), "   ".to_string(), "de".to_string());
    assert!(r.success);
    assert!(r.entries.is_empty());
    assert_eq!(r.source, "local");
    assert_eq!(r.query, "   ");
    assert_eq!(r.language, "de");
}

#[test]
fn search_command_skips_sanskrit_storage() {
    let r = search_dictionary("/data/dict", true, &Vec::new(), "agni".to_string(), "sa".to_string());
    assert!(r.success);
    assert!(r.entries.is_empty());
    assert_eq!(r.source, "sanskrit-only");
}

#[test]
fn search_command_reports_missing_store_as_error_envelope() {
    let r = search_dictionary(
        "/data/dict",
        true,
        &dirs_without_stores(),
        "haus".to_string(),
        "de".to_string(),
    );
    assert!(!r.success);
    assert!(r.entries.is_empty());
    assert_eq!(r.source, "error");
}

#[test]
fn stats_command_returns_zero_counts_for_unregistered_language() {
    let r = get_dictionary_stats("/data/dict", &Vec::new(), "xx");
    assert!(r.success);
    assert!(r.error.is_none());
    let s = r.stats.expect("stats expected");
    assert_eq!(s.word_count, 0);
    assert_eq!(s.sense_count, 0);
    assert_eq!(s.form_count, 0);
    assert_eq!(s.synonym_count, 0);
}

#[test]
fn languages_excluded_without_stores() {
    // A language directory with no recognized store file is not listed.
    let langs = get_available_languages("/data/dict", &dirs_without_stores());
    assert!(langs.is_empty());
    let r = languages_result(langs);
    assert!(r.success);
    assert_eq!(r.total, 0);
}

#[test]
fn suggestions_command_degrades_to_error_source() {
    let r = get_dictionary_suggestions("/data/dict", false, &Vec::new(), "ha", "de");
    assert!(r.suggestions.is_empty());
    assert_eq!(r.source, "error");
}

#[test]
fn batch_command_counts_totals() {
    let words = vec!["agni".to_string(), "deva".to_string()];
    let r = batch_query_dictionary("/data/dict", true, &Vec::new(), &words, "sa");
    assert!(r.success);
    assert_eq!(r.total, 2);
    assert_eq!(r.found, 0);
    assert!(r.results.is_empty());

    let r2 = batch_query_dictionary("/data/dict", false, &Vec::new(), &words, "de");
    assert!(r2.success);
    assert_eq!(r2.total, 2);
    assert_eq!(r2.found, 0);
}

#[test]
fn suggestion_selection_filters_sorts_dedups_and_caps() {
    let cands: Vec<(String, Option<String>)> = vec![
        ("haus".to_string(), Some("noun".to_string())),
        ("hand".to_string(), None),
        ("Haus".to_string(), Some("noun".to_string())), // wrong case: filtered out
        ("haus".to_string(), Some("name".to_string())), // duplicate word: first wins
        ("hase".to_string(), Some("noun".to_string())),
        ("baum".to_string(), Some("noun".to_string())), // prefix does not match
    ];
    let r = select_suggestions(&cands, "ha", 10);
    let words: Vec<&str> = r.iter().map(|s| s.word.as_str()).collect();
    assert_eq!(words, vec!["hand", "hase", "haus"]);
    assert!(r[0].pos.is_none());
    assert_eq!(r[2].pos.as_deref(), Some("noun"));
    let capped = select_suggestions(&cands, "ha", 2);
    assert_eq!(capped.len(), 2);
    assert_eq!(capped[0].word, "hand");
    assert_eq!(capped[1].word, "hase");
}

#[test]
fn suggestion_selection_of_empty_candidates_is_empty() {
    let cands: Vec<(String, Option<String>)> = Vec::new();
    assert!(select_suggestions(&cands, "ha", 10).is_empty());
}

#[test]
fn language_code_validation() {
    assert!(validate_language_code("de"));
    assert!(validate_language_code("san"));
    assert!(!validate_language_code("x"));
    assert!(!validate_language_code("lang"));
    assert!(!validate_language_code(""));
}

#[test]
fn upload_extension_validation() {
    assert!(allowed_upload_extension("db"));
    assert!(allowed_upload_extension("sqlite"));
    assert!(allowed_upload_extension("jsonl"));
    assert!(allowed_upload_extension("json"));
    assert!(!allowed_upload_extension("exe"));
    assert!(is_native_store_extension("db"));
    assert!(is_native_store_extension("sqlite"));
    assert!(!is_native_store_extension("jsonl"));
}

#[test]
fn store_file_name_is_code_prefixed() {
    assert_eq!(store_file_name("de"), "de_dict.db");
}

#[test]
fn admin_envelopes_carry_the_expected_messages() {
    let up = upload_result("german", "/p/de_dict.db".to_string(), "sqlite".to_string());
    assert!(up.success);
    assert_eq!(up.message, "Dictionary uploaded successfully for german");
    assert_eq!(up.file_path.as_deref(), Some("/p/de_dict.db"));
    assert_eq!(up.file_type.as_deref(), Some("sqlite"));

    let rm = remove_result("de".to_string());
    assert!(rm.success);
    assert_eq!(rm.message, "Dictionary removed successfully");
    assert_eq!(rm.language_code, "de");

    let del = delete_result("de".to_string(), "/p/de_dict.db".to_string());
    assert!(del.success);
    assert_eq!(del.message, "Dictionary file deleted successfully");
    assert_eq!(del.file_path.as_deref(), Some("/p/de_dict.db"));
}

#[test]
fn rescan_envelope_lists_codes() {
    let langs = vec![LanguageInfo {
        code: "de".to_string(),
        name: "german".to_string(),
        has_local: true,
        word_count: 10,
        sense_count: 20,
        form_count: 30,
        path: Some("/p/de_dict.db".to_string()),
    }];
    let r = rescan_result(&langs);
    assert!(r.success);
    assert_eq!(r.old_count, 0);
    assert_eq!(r.new_count, 1);
    assert_eq!(r.languages, vec!["de".to_string()]);
}

#[test]
fn clock_formats_seconds_of_day() {
    assert_eq!(chrono_lite_timestamp(0), "00:00:00");
    assert_eq!(chrono_lite_timestamp(3661), "01:01:01");
    assert_eq!(chrono_lite_timestamp(86399), "23:59:59");
    // A full day wraps around.
    assert_eq!(chrono_lite_timestamp(86400 + 61), "00:01:01");
}

#[test]
fn floating_window_flag_transitions() {
    let mut m = FloatingWindowManager::new();
    assert!(m.is_enabled());
    m.set_enabled(false);
    assert!(!m.is_enabled());
    m.set_enabled(true);
    assert!(m.is_enabled());
    let d = FloatingWindowManager::default();
    assert!(d.is_enabled());
}
