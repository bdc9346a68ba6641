//! Dictionary registry: maps directory names to language codes through a
//! static bidirectional table, locates the store file inside a language
//! directory through an ordered list of accepted file names, and resolves
//! the store path for a language code over a directory listing.
//!
//! The listing itself — the names of the immediate subdirectories of the
//! dictionary root and the file names inside each — is plain data handed in
//! by the caller; the registry's decisions on it are verified.

use crate::engine::{find_first, lemma_find_first};
use crate::normalize::{lowercase_str, lowered};
use crate::sqlite::open_store;
use crate::store::clone_opt_string;
use crate::text::{concat2, opt_view, str_eq, str_models};
use vstd::prelude::*;
use vstd::string::StringExecFns;

verus! {

/// One immediate subdirectory of the dictionary root: its name as found on
/// disk, and the names of the files inside it.
pub struct DirEntryData {
    pub name: String,
    pub files: Vec<String>,
}

/// Mathematical view of a directory entry.
pub struct DirEntryModel {
    pub name: Seq<char>,
    pub files: Seq<Seq<char>>,
}

impl View for DirEntryData {
    type V = DirEntryModel;

    open spec fn view(&self) -> DirEntryModel {
        DirEntryModel { name: self.name@, files: str_models(self.files@) }
    }
}

/// Views of a sequence of directory entries.
pub open spec fn dir_models(v: Seq<DirEntryData>) -> Seq<DirEntryModel> {
    v.map_values(|d: DirEntryData| d@)
}

/// The static language table, read from full name to short code.
pub open spec fn spec_code_of_name(n: Seq<char>) -> Option<Seq<char>> {
    if n == "german"@ {
        Some("de"@)
    } else if n == "sanskrit"@ {
        Some("sa"@)
    } else if n == "english"@ {
        Some("en"@)
    } else if n == "french"@ {
        Some("fr"@)
    } else if n == "spanish"@ {
        Some("es"@)
    } else if n == "italian"@ {
        Some("it"@)
    } else if n == "portuguese"@ {
        Some("pt"@)
    } else if n == "russian"@ {
        Some("ru"@)
    } else if n == "chinese"@ {
        Some("zh"@)
    } else if n == "japanese"@ {
        Some("ja"@)
    } else if n == "korean"@ {
        Some("ko"@)
    } else if n == "arabic"@ {
        Some("ar"@)
    } else {
        None
    }
}

/// The static language table, read from short code to full name.
pub open spec fn spec_name_of_code(c: Seq<char>) -> Option<Seq<char>> {
    if c == "de"@ {
        Some("german"@)
    } else if c == "sa"@ {
        Some("sanskrit"@)
    } else if c == "en"@ {
        Some("english"@)
    } else if c == "fr"@ {
        Some("french"@)
    } else if c == "es"@ {
        Some("spanish"@)
    } else if c == "it"@ {
        Some("italian"@)
    } else if c == "pt"@ {
        Some("portuguese"@)
    } else if c == "ru"@ {
        Some("russian"@)
    } else if c == "zh"@ {
        Some("chinese"@)
    } else if c == "ja"@ {
        Some("japanese"@)
    } else if c == "ko"@ {
        Some("korean"@)
    } else if c == "ar"@ {
        Some("arabic"@)
    } else {
        None
    }
}

/// Table lookup from full language name to short code.
pub fn code_of_name(name: &str) -> (r: Option<&'static str>)
    ensures
        match r {
            Some(c) => spec_code_of_name(name@) == Some(c@),
            None => spec_code_of_name(name@) is None,
        },
{
    if str_eq(name, "german") {
        Some("de")
    } else if str_eq(name, "sanskrit") {
        Some("sa")
    } else if str_eq(name, "english") {
        Some("en")
    } else if str_eq(name, "french") {
        Some("fr")
    } else if str_eq(name, "spanish") {
        Some("es")
    } else if str_eq(name, "italian") {
        Some("it")
    } else if str_eq(name, "portuguese") {
        Some("pt")
    } else if str_eq(name, "russian") {
        Some("ru")
    } else if str_eq(name, "chinese") {
        Some("zh")
    } else if str_eq(name, "japanese") {
        Some("ja")
    } else if str_eq(name, "korean") {
        Some("ko")
    } else if str_eq(name, "arabic") {
        Some("ar")
    } else {
        None
    }
}

/// Table lookup from short code to full language name.
pub fn name_of_code(code: &str) -> (r: Option<&'static str>)
    ensures
        match r {
            Some(n) => spec_name_of_code(code@) == Some(n@),
            None => spec_name_of_code(code@) is None,
        },
{
    if str_eq(code, "de") {
        Some("german")
    } else if str_eq(code, "sa") {
        Some("sanskrit")
    } else if str_eq(code, "en") {
        Some("english")
    } else if str_eq(code, "fr") {
        Some("french")
    } else if str_eq(code, "es") {
        Some("spanish")
    } else if str_eq(code, "it") {
        Some("italian")
    } else if str_eq(code, "pt") {
        Some("portuguese")
    } else if str_eq(code, "ru") {
        Some("russian")
    } else if str_eq(code, "zh") {
        Some("chinese")
    } else if str_eq(code, "ja") {
        Some("japanese")
    } else if str_eq(code, "ko") {
        Some("korean")
    } else if str_eq(code, "ar") {
        Some("arabic")
    } else {
        None
    }
}

/// The (code, display name) pair a lower-cased directory name stands for: a
/// table hit maps to its pair, and an unmatched name stands for itself —
/// graceful degradation, not a failure.
pub open spec fn spec_lang_pair(dir: Seq<char>) -> (Seq<char>, Seq<char>) {
    match spec_code_of_name(dir) {
        Some(c) => (c, dir),
        None => match spec_name_of_code(dir) {
            Some(n) => (dir, n),
            None => (dir, dir),
        },
    }
}

/// The (code, display name) pair for a lower-cased directory name.
pub fn lang_pair(dir: &str) -> (r: (String, String))
    ensures
        (r.0@, r.1@) == spec_lang_pair(dir@),
{
    match code_of_name(dir) {
        Some(c) => (String::from_str(c), String::from_str(dir)),
        None => match name_of_code(dir) {
            Some(n) => (String::from_str(dir), String::from_str(n)),
            None => (String::from_str(dir), String::from_str(dir)),
        },
    }
}

/// Whether a lower-cased directory name belongs to the language `code`: it
/// is the code itself, or the full name the table maps to that code.
pub open spec fn spec_dir_matches(dir: Seq<char>, code: Seq<char>) -> bool {
    dir == code || spec_code_of_name(dir) == Some(code)
}

/// Directory-name test for a language code.
pub fn dir_matches(dir: &str, code: &str) -> (r: bool)
    ensures
        r == spec_dir_matches(dir@, code@),
{
    if str_eq(dir, code) {
        true
    } else {
        match code_of_name(dir) {
            Some(c) => str_eq(c, code),
            None => false,
        }
    }
}

/// The accepted store file names for language `code` in a directory whose
/// lower-cased name is `dir`, in priority order: code-prefixed names first,
/// then the generic names, then a directory-prefixed name.
pub open spec fn spec_store_patterns(code: Seq<char>, dir: Seq<char>) -> Seq<Seq<char>> {
    seq![
        code + "_dict.db"@,
        code + "_dict.sqlite"@,
        "dictionary.db"@,
        "dict.db"@,
        "dict.sqlite"@,
        dir + "_dict.db"@,
    ]
}

/// The accepted store file names, in priority order.
pub fn store_patterns(code: &str, dir: &str) -> (r: Vec<String>)
    ensures
        str_models(r@) == spec_store_patterns(code@, dir@),
{
    let mut v: Vec<String> = Vec::new();
    v.push(concat2(code, "_dict.db"));
    v.push(concat2(code, "_dict.sqlite"));
    v.push(String::from_str("dictionary.db"));
    v.push(String::from_str("dict.db"));
    v.push(String::from_str("dict.sqlite"));
    v.push(concat2(dir, "_dict.db"));
    proof {
        assert(str_models(v@) =~= spec_store_patterns(code@, dir@));
    }
    v
}

/// True when the file list holds the name `f`.
pub open spec fn file_list_contains(files: Seq<Seq<char>>, f: Seq<char>) -> bool {
    exists|i: int| 0 <= i < files.len() && files[i] == f
}

/// Membership test in a file list.
pub fn file_list_contains_exec(files: &Vec<String>, f: &str) -> (r: bool)
    ensures
        r == file_list_contains(str_models(files@), f@),
{
    let n = files.len();
    let mut i: usize = 0;
    while i < n
        invariant
            n == files.len(),
            i <= n,
            forall|k: int| 0 <= k < i ==> str_models(files@)[k] != f@,
        decreases n - i,
    {
        if str_eq(files[i].as_str(), f) {
            proof {
                assert(str_models(files@)[i as int] == f@);
            }
            return true;
        }
        proof {
            assert(str_models(files@)[i as int] == files@[i as int]@);
        }
        i = i + 1;
    }
    proof {
        if file_list_contains(str_models(files@), f@) {
            let j = choose|j: int|
                0 <= j < str_models(files@).len() && str_models(files@)[j] == f@;
            assert(str_models(files@)[j] != f@);
        }
    }
    false
}

/// Matches a pattern that is present in the file list.
pub open spec fn pat_present_pred(files: Seq<Seq<char>>) -> spec_fn(Seq<char>) -> bool {
    |p: Seq<char>| file_list_contains(files, p)
}

/// The first accepted file name present in the list, in pattern priority
/// order; only one store per language directory is recognized.
pub open spec fn spec_find_store_file(
    files: Seq<Seq<char>>,
    pats: Seq<Seq<char>>,
) -> Option<Seq<char>> {
    match find_first(pats, pat_present_pred(files)) {
        Some(i) => Some(pats[i]),
        None => None,
    }
}

/// Finds the first accepted file name present in the list.
pub fn find_store_file(files: &Vec<String>, pats: &Vec<String>) -> (r: Option<String>)
    ensures
        opt_view(r) == spec_find_store_file(str_models(files@), str_models(pats@)),
{
    let ghost fm = str_models(files@);
    let ghost pm = str_models(pats@);
    let ghost p = pat_present_pred(fm);
    let n = pats.len();
    let mut i: usize = 0;
    while i < n
        invariant
            n == pats.len(),
            fm == str_models(files@),
            pm == str_models(pats@),
            p == pat_present_pred(fm),
            pm.len() == n,
            i <= n,
            forall|k: int| 0 <= k < i ==> !p(pm[k]),
        decreases n - i,
    {
        let hit = file_list_contains_exec(files, pats[i].as_str());
        proof {
            assert(pm[i as int] == pats@[i as int]@);
            assert(p(pm[i as int]) == hit);
        }
        if hit {
            proof {
                lemma_find_first(pm, p);
            }
            return Some(pats[i].clone());
        }
        i = i + 1;
    }
    proof {
        lemma_find_first(pm, p);
    }
    None
}

/// The store file recognized for language `code` inside one directory.
pub open spec fn spec_store_for_dir(d: DirEntryModel, code: Seq<char>) -> Option<Seq<char>> {
    spec_find_store_file(d.files, spec_store_patterns(code, lowered(d.name)))
}

/// Finds the store file recognized for language `code` inside one directory.
pub fn store_for_dir(d: &DirEntryData, code: &str) -> (r: Option<String>)
    ensures
        opt_view(r) == spec_store_for_dir(d@, code@),
{
    let lower = lowercase_str(d.name.as_str());
    let pats = store_patterns(code, lower.as_str());
    find_store_file(&d.files, &pats)
}

/// Matches a directory that belongs to the language and holds a store file.
pub open spec fn dir_has_store_pred(code: Seq<char>) -> spec_fn(DirEntryModel) -> bool {
    |d: DirEntryModel| spec_dir_matches(lowered(d.name), code) && spec_store_for_dir(
        d,
        code,
    ) is Some
}

/// Index of the first directory that belongs to the language and holds a
/// recognized store file.
pub open spec fn spec_store_dir_idx(dirs: Seq<DirEntryModel>, code: Seq<char>) -> Option<int> {
    find_first(dirs, dir_has_store_pred(code))
}

/// The path of a store file inside the dictionary root.
pub open spec fn spec_store_path(root: Seq<char>, dir: Seq<char>, file: Seq<char>) -> Seq<char> {
    root + "/"@ + dir + "/"@ + file
}

/// Joins the root, a directory name and a file name into a path.
pub fn store_path(root: &str, dir: &str, file: &str) -> (r: String)
    ensures
        r@ == spec_store_path(root@, dir@, file@),
{
    let mut s = String::from_str(root);
    s.append("/");
    s.append(dir);
    s.append("/");
    s.append(file);
    s
}

/// Resolves the store path for a language code over the directory listing:
/// the first directory that belongs to the language and holds a recognized
/// store file wins; a directory with no store file is passed over silently.
pub fn resolve_store_path(root: &str, dirs: &Vec<DirEntryData>, code: &str) -> (r: Option<String>)
    ensures
        match spec_store_dir_idx(dir_models(dirs@), code@) {
            None => r is None,
            Some(i) => r matches Some(p) && p@ == spec_store_path(
                root@,
                dir_models(dirs@)[i].name,
                spec_store_for_dir(dir_models(dirs@)[i], code@)->0,
            ),
        },
{
    let ghost dm = dir_models(dirs@);
    let ghost pr = dir_has_store_pred(code@);
    let n = dirs.len();
    let mut i: usize = 0;
    while i < n
        invariant
            n == dirs.len(),
            dm == dir_models(dirs@),
            pr == dir_has_store_pred(code@),
            dm.len() == n,
            i <= n,
            forall|k: int| 0 <= k < i ==> !pr(dm[k]),
        decreases n - i,
    {
        let d = &dirs[i];
        let lower = lowercase_str(d.name.as_str());
        let matched = dir_matches(lower.as_str(), code);
        if matched {
            if let Some(file) = store_for_dir(d, code) {
                proof {
                    assert(dm[i as int] == dirs@[i as int]@);
                    assert(pr(dm[i as int]));
                    lemma_find_first(dm, pr);
                }
                return Some(store_path(root, d.name.as_str(), file.as_str()));
            }
        }
        proof {
            assert(dm[i as int] == dirs@[i as int]@);
            assert(!pr(dm[i as int]));
        }
        i = i + 1;
    }
    proof {
        lemma_find_first(dm, pr);
    }
    None
}

/// Opens a read handle to the language's store: resolves the store path over
/// the listing, then opens the file.  An absent root and an unresolvable
/// language each surface as a typed message naming the searched root; only
/// these and a failing open are errors.
pub fn get_connection(
    root: &str,
    root_exists: bool,
    dirs: &Vec<DirEntryData>,
    lang_code: &str,
) -> (r: Result<rusqlite::Connection, String>)
    ensures
        !root_exists ==> (r matches Err(m) && m@ == "Dictionary directory not found: "@ + root@),
        root_exists && spec_store_dir_idx(dir_models(dirs@), lang_code@) is None ==> (r
            matches Err(m) && m@ == "Dictionary not found for language '"@ + lang_code@
            + "'. Searched in "@ + root@),
{
    if !root_exists {
        return Err(concat2("Dictionary directory not found: ", root));
    }
    match resolve_store_path(root, dirs, lang_code) {
        Some(path) => open_store(path.as_str()),
        None => {
            let mut m = String::from_str("Dictionary not found for language '");
            m.append(lang_code);
            m.append("'. Searched in ");
            m.append(root);
            Err(m)
        },
    }
}

/// The first existing candidate location for the dictionary root, in probe
/// order; `exists` records, for each candidate, whether it is present.
pub fn choose_dict_root(candidates: &Vec<String>, exists_flags: &Vec<bool>) -> (r: Option<usize>)
    requires
        candidates@.len() == exists_flags@.len(),
    ensures
        match r {
            Some(i) => i < candidates@.len() && exists_flags@[i as int] && (forall|k: int|
                0 <= k < i ==> !exists_flags@[k]),
            None => forall|k: int| 0 <= k < exists_flags@.len() ==> !exists_flags@[k],
        },
{
    let n = candidates.len();
    let mut i: usize = 0;
    while i < n
        invariant
            n == candidates.len(),
            n == exists_flags@.len(),
            i <= n,
            forall|k: int| 0 <= k < i ==> !exists_flags@[k],
        decreases n - i,
    {
        if exists_flags[i] {
            return Some(i);
        }
        i = i + 1;
    }
    None
}

} // verus!
