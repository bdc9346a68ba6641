use lumina_dict::registry::{
    choose_dict_root, code_of_name, dir_matches, get_connection, lang_pair, name_of_code,
    resolve_store_path, store_path, DirEntryData,
};

fn dir(name: &str, files: &[&str]) -> DirEntryData {
    DirEntryData {
        name: name.to_string(),
        files: files.iter().map(|f| f.to_string()).collect(),
    }
}

#[test]
fn table_maps_names_to_codes() {
    assert_eq!(code_of_name("german"), Some("de"));
    assert_eq!(code_of_name("sanskrit"), Some("sa"));
    assert_eq!(code_of_name("arabic"), Some("ar"));
    assert_eq!(code_of_name("klingon"), None);
}

#[test]
fn table_maps_codes_to_names() {
    assert_eq!(name_of_code("de"), Some("german"));
    assert_eq!(name_of_code("ja"), Some("japanese"));
    assert_eq!(name_of_code("xx"), None);
}

#[test]
fn lang_pair_for_known_and_unknown_directories() {
    assert_eq!(lang_pair("german"), ("de".to_string(), "german".to_string()));
    assert_eq!(lang_pair("de"), ("de".to_string(), "german".to_string()));
    // An unmatched directory name stands for itself.
    assert_eq!(lang_pair("klingon"), ("klingon".to_string(), "klingon".to_string()));
}

#[test]
fn directory_matching_accepts_code_and_name() {
    assert!(dir_matches("de", "de"));
    assert!(dir_matches("german", "de"));
    assert!(!dir_matches("french", "de"));
    assert!(!dir_matches("de", "fr"));
}

#[test]
fn resolve_store_path_prefers_code_prefixed_files() {
    let dirs = vec![dir("German", &["notes.txt", "dict.db", "de_dict.db"])];
    let p = resolve_store_path("/data/dict", &dirs, "de");
    assert_eq!(p.as_deref(), Some("/data/dict/German/de_dict.db"));
}

#[test]
fn resolve_store_path_accepts_generic_names() {
    let dirs = vec![dir("german", &["dictionary.db"])];
    let p = resolve_store_path("/data/dict", &dirs, "de");
    assert_eq!(p.as_deref(), Some("/data/dict/german/dictionary.db"));
}

#[test]
fn resolve_store_path_accepts_directory_prefixed_names() {
    // An unmatched directory stands for its own language code, and a file
    // named after the directory is recognized.
    let dirs = vec![dir("klingon", &["klingon_dict.db"])];
    let p = resolve_store_path("/data/dict", &dirs, "klingon");
    assert_eq!(p.as_deref(), Some("/data/dict/klingon/klingon_dict.db"));
}

#[test]
fn resolve_store_path_skips_storeless_directories() {
    let dirs = vec![dir("german", &["readme.md"]), dir("de", &["de_dict.db"])];
    let p = resolve_store_path("/data/dict", &dirs, "de");
    assert_eq!(p.as_deref(), Some("/data/dict/de/de_dict.db"));
}

#[test]
fn resolve_store_path_returns_none_without_a_store() {
    let dirs = vec![dir("german", &["readme.md"]), dir("french", &["fr_dict.db"])];
    assert!(resolve_store_path("/data/dict", &dirs, "de").is_none());
    assert!(resolve_store_path("/data/dict", &Vec::new(), "de").is_none());
}

#[test]
fn store_path_joins_components() {
    assert_eq!(store_path("/root", "sub", "f.db"), "/root/sub/f.db");
}

#[test]
fn connection_error_names_missing_root() {
    let r = get_connection("/data/dict", false, &Vec::new(), "de");
    assert_eq!(r.err().as_deref(), Some("Dictionary directory not found: /data/dict"));
}

#[test]
fn connection_error_names_unresolved_language() {
    let dirs = vec![dir("german", &["readme.md"])];
    let r = get_connection("/data/dict", true, &dirs, "de");
    assert_eq!(
        r.err().as_deref(),
        Some("Dictionary not found for language 'de'. Searched in /data/dict")
    );
}

#[test]
fn choose_dict_root_takes_first_existing() {
    let cands = vec!["a".to_string(), "b".to_string(), "c".to_string()];
    assert_eq!(choose_dict_root(&cands, &vec![false, true, true]), Some(1));
    assert_eq!(choose_dict_root(&cands, &vec![true, false, false]), Some(0));
    assert_eq!(choose_dict_root(&cands, &vec![false, false, false]), None);
}
