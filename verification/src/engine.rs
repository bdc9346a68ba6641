//! The multi-stage resolution protocol over an in-memory store.
//!
//! A query resolves strictly in this order: exact headword match, normalized
//! headword match, exact inflected-form match, normalized inflected-form
//! match.  A forms-table match is used only when no headword match exists,
//! and yields the headword that owns the matched inflection.  Form rows whose
//! tag string carries an error marker are never used.  The resolved entries
//! are deduplicated by surface text, first seen wins.

use crate::normalize::{normalize_word, normalized};
use crate::store::{
    clone_opt_string, entry_models, form_models, hw_models, opt_form_view, sense_models,
    DictionaryEntry, EntryModel, FormRow, FormRowModel, HeadwordRow, HeadwordRowModel, Inflection,
    InflectionModel, SenseRow, SenseRowModel, Store, StoreModel,
};
use crate::text::{
    is_blank, is_blank_str, lower_char_exec, lower_chars, opt_view, str_eq, str_models,
};
use vstd::prelude::*;
use vstd::string::StringExecFns;

verus! {

/// Index of the first element of `s` satisfying `p`, if any.
pub open spec fn find_first<A>(s: Seq<A>, p: spec_fn(A) -> bool) -> Option<int>
    decreases s.len(),
{
    if s.len() == 0 {
        None
    } else if p(s[0]) {
        Some(0)
    } else {
        match find_first(s.drop_first(), p) {
            None => None,
            Some(j) => Some(1 + j),
        }
    }
}

/// A found index is the least matching index; `None` means nothing matches.
pub proof fn lemma_find_first<A>(s: Seq<A>, p: spec_fn(A) -> bool)
    ensures
        match find_first(s, p) {
            None => forall|k: int| 0 <= k < s.len() ==> !p(s[k]),
            Some(j) => 0 <= j < s.len() && p(s[j]) && (forall|k: int| 0 <= k < j ==> !p(s[k])),
        },
    decreases s.len(),
{
    if s.len() != 0 && !p(s[0]) {
        lemma_find_first(s.drop_first(), p);
        match find_first(s.drop_first(), p) {
            None => {
                assert forall|k: int| 0 <= k < s.len() implies !p(s[k]) by {
                    if k > 0 {
                        assert(s.drop_first()[k - 1] == s[k]);
                        assert(!p(s.drop_first()[k - 1]));
                    }
                }
            },
            Some(j) => {
                assert(s.drop_first()[j] == s[j + 1]);
                assert forall|k: int| 0 <= k < j + 1 implies !p(s[k]) by {
                    if k > 0 {
                        assert(s.drop_first()[k - 1] == s[k]);
                        assert(!p(s.drop_first()[k - 1]));
                    }
                }
            },
        }
    }
}

/// The marker that flags a corrupt or unreliable inflected-form row.
pub open spec fn error_marker() -> Seq<char> {
    seq!['e', 'r', 'r', 'o', 'r']
}

/// True when the tag string contains the error marker, compared without
/// regard to ASCII letter case.
pub open spec fn contains_error_marker(t: Seq<char>) -> bool {
    exists|i: int| 0 <= i && i + 5 <= t.len() && lower_chars(#[trigger] t.subrange(i, i + 5)) == error_marker()
}

/// True when an optional tag string carries the error marker.
pub open spec fn has_error_tag(tags: Option<Seq<char>>) -> bool {
    match tags {
        Some(t) => contains_error_marker(t),
        None => false,
    }
}

/// Matches a headword row whose stored surface text equals the raw word.
pub open spec fn hw_exact_pred(w: Seq<char>) -> spec_fn(HeadwordRowModel) -> bool {
    |r: HeadwordRowModel| r.word == w
}

/// Matches a headword row whose stored folded form equals the folded query.
pub open spec fn hw_norm_pred(n: Seq<char>) -> spec_fn(HeadwordRowModel) -> bool {
    |r: HeadwordRowModel| r.normalized_word == Some(n)
}

/// Matches a usable form row whose surface form equals the raw word.
pub open spec fn form_exact_pred(w: Seq<char>) -> spec_fn(FormRowModel) -> bool {
    |f: FormRowModel| f.form == w && !has_error_tag(f.tags)
}

/// Matches a usable form row whose folded form equals the folded query.
pub open spec fn form_norm_pred(n: Seq<char>) -> spec_fn(FormRowModel) -> bool {
    |f: FormRowModel| f.normalized_form == Some(n) && !has_error_tag(f.tags)
}

/// Outcome of the staged lookup: the identifier of the resolved headword row,
/// and the matched form row when the path went through the forms table.
pub struct ResolutionModel {
    pub id: int,
    pub via_form: Option<FormRowModel>,
}

/// The staged lookup over a whole store, in the fixed fallback order.
pub open spec fn resolution(s: StoreModel, w: Seq<char>, n: Seq<char>) -> Option<ResolutionModel> {
    match find_first(s.headwords, hw_exact_pred(w)) {
        Some(i) => Some(ResolutionModel { id: s.headwords[i].id, via_form: None }),
        None => match find_first(s.headwords, hw_norm_pred(n)) {
            Some(i) => Some(ResolutionModel { id: s.headwords[i].id, via_form: None }),
            None => match find_first(s.forms, form_exact_pred(w)) {
                Some(j) => Some(
                    ResolutionModel { id: s.forms[j].dictionary_id, via_form: Some(s.forms[j]) },
                ),
                None => match find_first(s.forms, form_norm_pred(n)) {
                    Some(j) => Some(
                        ResolutionModel {
                            id: s.forms[j].dictionary_id,
                            via_form: Some(s.forms[j]),
                        },
                    ),
                    None => None,
                },
            },
        },
    }
}

/// The fixed separator between concatenated sense glosses.
pub open spec fn separator() -> Seq<char> {
    seq![' ', '|', ' ']
}

/// Glosses joined with the fixed separator, in storage order.
pub open spec fn joined(parts: Seq<Seq<char>>) -> Seq<char>
    decreases parts.len(),
{
    if parts.len() == 0 {
        Seq::<char>::empty()
    } else if parts.len() == 1 {
        parts[0]
    } else {
        joined(parts.drop_last()) + separator() + parts.last()
    }
}

/// The definition text built from a headword's glosses: absent when there
/// are none, otherwise the joined gloss text.
pub open spec fn definition_of(glosses: Seq<Seq<char>>) -> Option<Seq<char>> {
    if glosses.len() == 0 {
        None
    } else {
        Some(joined(glosses))
    }
}

/// The glosses owned by the headword row `id`, in storage order.
pub open spec fn glosses_of(senses: Seq<SenseRowModel>, id: int) -> Seq<Seq<char>>
    decreases senses.len(),
{
    if senses.len() == 0 {
        Seq::<Seq<char>>::empty()
    } else {
        let prev = glosses_of(senses.drop_last(), id);
        if senses.last().dictionary_id == id {
            prev.push(senses.last().gloss)
        } else {
            prev
        }
    }
}

/// The headword rows carrying the identifier `id`, in storage order.
pub open spec fn rows_with_id(hws: Seq<HeadwordRowModel>, id: int) -> Seq<HeadwordRowModel>
    decreases hws.len(),
{
    if hws.len() == 0 {
        Seq::<HeadwordRowModel>::empty()
    } else {
        let prev = rows_with_id(hws.drop_last(), id);
        if hws.last().id == id {
            prev.push(hws.last())
        } else {
            prev
        }
    }
}

/// Inflection metadata attached to an entry: present if and only if the path
/// went through the forms table and the headword differs from the query.
pub open spec fn inflections_for(
    row_word: Seq<char>,
    w: Seq<char>,
    via_form: Option<FormRowModel>,
) -> Option<Seq<InflectionModel>> {
    match via_form {
        Some(f) => if row_word != w {
            Some(seq![InflectionModel { form: w, tags: f.tags, normalized_form: None }])
        } else {
            None
        },
        None => None,
    }
}

/// The entry built from one headword row.
pub open spec fn entry_for(
    row: HeadwordRowModel,
    defn: Option<Seq<char>>,
    w: Seq<char>,
    via_form: Option<FormRowModel>,
) -> EntryModel {
    EntryModel {
        entry_id: Some(row.id),
        text: row.word,
        language: row.lang,
        root_form: row.normalized_word,
        grammar: row.pos,
        definition: defn,
        inflections: inflections_for(row.word, w, via_form),
        etymology: row.etymology,
    }
}

/// True when some entry of `es` carries the surface text `t`.
pub open spec fn contains_text(es: Seq<EntryModel>, t: Seq<char>) -> bool {
    exists|i: int| 0 <= i < es.len() && es[i].text == t
}

/// Deduplication by surface text, first seen wins.
pub open spec fn dedup_by_text(es: Seq<EntryModel>) -> Seq<EntryModel>
    decreases es.len(),
{
    if es.len() == 0 {
        Seq::<EntryModel>::empty()
    } else {
        let prev = dedup_by_text(es.drop_last());
        if contains_text(prev, es.last().text) {
            prev
        } else {
            prev.push(es.last())
        }
    }
}

/// The entries built from the resolved headword rows, in storage order,
/// before deduplication.
pub open spec fn entries_raw(
    rows: Seq<HeadwordRowModel>,
    defn: Option<Seq<char>>,
    w: Seq<char>,
    via_form: Option<FormRowModel>,
) -> Seq<EntryModel>
    decreases rows.len(),
{
    if rows.len() == 0 {
        Seq::<EntryModel>::empty()
    } else {
        entries_raw(rows.drop_last(), defn, w, via_form).push(
            entry_for(rows.last(), defn, w, via_form),
        )
    }
}

/// The entries built from the resolved headword rows, deduplicated.
pub open spec fn entries_for(
    rows: Seq<HeadwordRowModel>,
    defn: Option<Seq<char>>,
    w: Seq<char>,
    via_form: Option<FormRowModel>,
) -> Seq<EntryModel> {
    dedup_by_text(entries_raw(rows, defn, w, via_form))
}

/// The full resolution protocol over a store, for a query word `w` whose
/// folded form is `n`.
pub open spec fn resolve_in_model(s: StoreModel, w: Seq<char>, n: Seq<char>) -> Seq<EntryModel> {
    if is_blank(w) {
        Seq::<EntryModel>::empty()
    } else {
        match resolution(s, w, n) {
            None => Seq::<EntryModel>::empty(),
            Some(res) => entries_for(
                rows_with_id(s.headwords, res.id),
                definition_of(glosses_of(s.senses, res.id)),
                w,
                res.via_form,
            ),
        }
    }
}

/// The full resolution protocol, folding the query with the normalizer.
pub open spec fn resolve_model(s: StoreModel, w: Seq<char>) -> Seq<EntryModel> {
    resolve_in_model(s, w, normalized(w))
}

/// `entries_raw` is the pointwise image of `entry_for` over the rows.
pub proof fn lemma_entries_raw_shape(
    rows: Seq<HeadwordRowModel>,
    defn: Option<Seq<char>>,
    w: Seq<char>,
    via_form: Option<FormRowModel>,
)
    ensures
        entries_raw(rows, defn, w, via_form).len() == rows.len(),
        forall|k: int|
            0 <= k < rows.len() ==> entries_raw(rows, defn, w, via_form)[k] == entry_for(
                rows[k],
                defn,
                w,
                via_form,
            ),
    decreases rows.len(),
{
    if rows.len() != 0 {
        lemma_entries_raw_shape(rows.drop_last(), defn, w, via_form);
        assert forall|k: int| 0 <= k < rows.len() implies entries_raw(rows, defn, w, via_form)[k]
            == entry_for(rows[k], defn, w, via_form) by {
            if k < rows.len() - 1 {
                assert(rows.drop_last()[k] == rows[k]);
            }
        }
    }
}

/// Every deduplicated entry is one of the entries it was built from.
pub proof fn lemma_dedup_subset(es: Seq<EntryModel>)
    ensures
        forall|k: int|
            0 <= k < dedup_by_text(es).len() ==> exists|j: int|
                0 <= j < es.len() && #[trigger] dedup_by_text(es)[k] == es[j],
    decreases es.len(),
{
    if es.len() != 0 {
        lemma_dedup_subset(es.drop_last());
        let prev = dedup_by_text(es.drop_last());
        assert forall|k: int| 0 <= k < dedup_by_text(es).len() implies exists|j: int|
            0 <= j < es.len() && #[trigger] dedup_by_text(es)[k] == es[j] by {
            if k < prev.len() {
                let j = choose|j: int|
                    0 <= j < es.drop_last().len() && prev[k] == es.drop_last()[j];
                assert(es.drop_last()[j] == es[j]);
                assert(dedup_by_text(es)[k] == es[j]);
            } else {
                assert(dedup_by_text(es)[k] == es.last());
                assert(es.last() == es[es.len() - 1]);
            }
        }
    }
}

/// After deduplication, surface texts are pairwise distinct.
pub proof fn lemma_dedup_unique(es: Seq<EntryModel>, k1: int, k2: int)
    requires
        0 <= k1 < k2 < dedup_by_text(es).len(),
    ensures
        dedup_by_text(es)[k1].text != dedup_by_text(es)[k2].text,
    decreases es.len(),
{
    let prev = dedup_by_text(es.drop_last());
    if k2 < prev.len() {
        lemma_dedup_unique(es.drop_last(), k1, k2);
    } else {
        assert(!contains_text(prev, es.last().text));
        assert(dedup_by_text(es)[k1] == prev[k1]);
        assert(prev[k1].text != es.last().text);
    }
}

/// Shape of every entry the protocol assembles for the query `w`: it carries
/// a row identifier, and inflection metadata only as exactly one record
/// holding the query word, for a headword that differs from the query.
pub open spec fn entry_wf(e: EntryModel, w: Seq<char>) -> bool {
    &&& e.entry_id is Some
    &&& match e.inflections {
        Some(infls) => e.text != w && infls.len() == 1 && infls[0].form == w
            && infls[0].normalized_form is None,
        None => true,
    }
}

/// Every entry assembled by the protocol is well-formed for the query word.
pub proof fn lemma_entries_for_wf(
    rows: Seq<HeadwordRowModel>,
    defn: Option<Seq<char>>,
    w: Seq<char>,
    via_form: Option<FormRowModel>,
)
    ensures
        forall|k: int|
            0 <= k < entries_for(rows, defn, w, via_form).len() ==> entry_wf(
                #[trigger] entries_for(rows, defn, w, via_form)[k],
                w,
            ),
{
    let raw = entries_raw(rows, defn, w, via_form);
    lemma_entries_raw_shape(rows, defn, w, via_form);
    lemma_dedup_subset(raw);
    assert forall|k: int| 0 <= k < entries_for(rows, defn, w, via_form).len() implies entry_wf(
        #[trigger] entries_for(rows, defn, w, via_form)[k],
        w,
    ) by {
        let j = choose|j: int| 0 <= j < raw.len() && dedup_by_text(raw)[k] == raw[j];
        assert(raw[j] == entry_for(rows[j], defn, w, via_form));
    }
}

/// Resolution is deterministic: the entries returned for a query are a
/// function of the store contents and the query word alone, so repeated
/// lookups with no store mutation between them return identical results.
pub proof fn lemma_resolve_deterministic(
    s: StoreModel,
    w: Seq<char>,
    r1: Seq<EntryModel>,
    r2: Seq<EntryModel>,
)
    requires
        r1 == resolve_model(s, w),
        r2 == resolve_model(s, w),
    ensures
        r1 == r2,
{
}

/// Headword precedence: when some headword row's stored surface text equals
/// the raw query word, the query resolves to a headword match — never to a
/// forms-table row — and no returned entry carries inflection metadata.
pub proof fn lemma_headword_precedence(s: StoreModel, w: Seq<char>, n: Seq<char>, i: int)
    requires
        0 <= i < s.headwords.len(),
        s.headwords[i].word == w,
    ensures
        resolution(s, w, n) matches Some(rm) && rm.via_form is None && rm.id == s.headwords[
            find_first(s.headwords, hw_exact_pred(w))->0
        ].id && s.headwords[find_first(s.headwords, hw_exact_pred(w))->0].word == w,
        forall|k: int|
            0 <= k < resolve_in_model(s, w, n).len() ==> resolve_in_model(
                s,
                w,
                n,
            )[k].inflections is None,
{
    lemma_find_first(s.headwords, hw_exact_pred(w));
    assert(hw_exact_pred(w)(s.headwords[i]));
    let rm = resolution(s, w, n)->0;
    if !is_blank(w) {
        let raw = entries_raw(
            rows_with_id(s.headwords, rm.id),
            definition_of(glosses_of(s.senses, rm.id)),
            w,
            rm.via_form,
        );
        lemma_entries_raw_shape(
            rows_with_id(s.headwords, rm.id),
            definition_of(glosses_of(s.senses, rm.id)),
            w,
            rm.via_form,
        );
        lemma_dedup_subset(raw);
        assert forall|k: int| 0 <= k < resolve_in_model(s, w, n).len() implies resolve_in_model(
            s,
            w,
            n,
        )[k].inflections is None by {
            let j = choose|j: int| 0 <= j < raw.len() && dedup_by_text(raw)[k] == raw[j];
            assert(raw[j].inflections is None);
        }
    }
}

/// Inflection fallback: when no headword row matches the query, exactly or by
/// folded form, but some usable form row matches it exactly, the query
/// resolves to the headword owning the first such row, and every returned
/// entry whose headword text differs from the query carries exactly one
/// inflection record holding the query word and that row's tags.
pub proof fn lemma_inflection_fallback(s: StoreModel, w: Seq<char>, n: Seq<char>, j: int)
    requires
        forall|k: int| 0 <= k < s.headwords.len() ==> s.headwords[k].word != w,
        forall|k: int| 0 <= k < s.headwords.len() ==> s.headwords[k].normalized_word != Some(n),
        0 <= j < s.forms.len(),
        s.forms[j].form == w,
        !has_error_tag(s.forms[j].tags),
    ensures
        resolution(s, w, n) matches Some(rm) && rm.via_form matches Some(f) && f.form == w
            && !has_error_tag(f.tags) && rm.id == f.dictionary_id,
        forall|k: int|
            0 <= k < resolve_in_model(s, w, n).len() ==> {
                let e = #[trigger] resolve_in_model(s, w, n)[k];
                e.inflections == if e.text != w {
                    Some(
                        seq![
                            InflectionModel {
                                form: w,
                                tags: resolution(s, w, n)->0.via_form->0.tags,
                                normalized_form: None,
                            },
                        ],
                    )
                } else {
                    None::<Seq<InflectionModel>>
                }
            },
{
    lemma_find_first(s.headwords, hw_exact_pred(w));
    lemma_find_first(s.headwords, hw_norm_pred(n));
    lemma_find_first(s.forms, form_exact_pred(w));
    assert(form_exact_pred(w)(s.forms[j]));
    let rm = resolution(s, w, n)->0;
    if !is_blank(w) {
        let raw = entries_raw(
            rows_with_id(s.headwords, rm.id),
            definition_of(glosses_of(s.senses, rm.id)),
            w,
            rm.via_form,
        );
        lemma_entries_raw_shape(
            rows_with_id(s.headwords, rm.id),
            definition_of(glosses_of(s.senses, rm.id)),
            w,
            rm.via_form,
        );
        lemma_dedup_subset(raw);
        assert forall|k: int| 0 <= k < resolve_in_model(s, w, n).len() implies {
            let e = #[trigger] resolve_in_model(s, w, n)[k];
            e.inflections == if e.text != w {
                Some(
                    seq![
                        InflectionModel {
                            form: w,
                            tags: resolution(s, w, n)->0.via_form->0.tags,
                            normalized_form: None,
                        },
                    ],
                )
            } else {
                None::<Seq<InflectionModel>>
            }
        } by {
            let jj = choose|jj: int| 0 <= jj < raw.len() && dedup_by_text(raw)[k] == raw[jj];
            assert(raw[jj] == entry_for(
                rows_with_id(s.headwords, rm.id)[jj],
                definition_of(glosses_of(s.senses, rm.id)),
                w,
                rm.via_form,
            ));
        }
    }
}

/// Error-tag exclusion: a form row whose tag string carries the error marker
/// is never the resolution path.
pub proof fn lemma_error_tag_excluded(s: StoreModel, w: Seq<char>, n: Seq<char>)
    ensures
        match resolution(s, w, n) {
            Some(rm) => match rm.via_form {
                Some(f) => !has_error_tag(f.tags),
                None => true,
            },
            None => true,
        },
{
    lemma_find_first(s.forms, form_exact_pred(w));
    lemma_find_first(s.forms, form_norm_pred(n));
}

/// Deduplication: within one query's result, surface texts are unique.
pub proof fn lemma_result_texts_unique(s: StoreModel, w: Seq<char>, n: Seq<char>, k1: int, k2: int)
    requires
        0 <= k1 < k2 < resolve_in_model(s, w, n).len(),
    ensures
        resolve_in_model(s, w, n)[k1].text != resolve_in_model(s, w, n)[k2].text,
{
    let rm = resolution(s, w, n)->0;
    let raw = entries_raw(
        rows_with_id(s.headwords, rm.id),
        definition_of(glosses_of(s.senses, rm.id)),
        w,
        rm.via_form,
    );
    lemma_dedup_unique(raw, k1, k2);
}

/// An optional index, as a mathematical value.
pub open spec fn opt_index(o: Option<usize>) -> Option<int> {
    match o {
        Some(i) => Some(i as int),
        None => None,
    }
}

/// Substring search for the error marker, without regard to ASCII letter
/// case.
fn contains_error(t: &str) -> (r: bool)
    ensures
        r == contains_error_marker(t@),
{
    let n: usize = t.unicode_len();
    if n < 5 {
        return false;
    }
    let mut i: usize = 0;
    while i <= n - 5
        invariant
            n == t@.len(),
            5 <= n,
            i <= n,
            forall|j: int|
                0 <= j < i ==> lower_chars(#[trigger] t@.subrange(j, j + 5)) != error_marker(),
        decreases n - i,
    {
        let c0 = lower_char_exec(t.get_char(i));
        let c1 = lower_char_exec(t.get_char(i + 1));
        let c2 = lower_char_exec(t.get_char(i + 2));
        let c3 = lower_char_exec(t.get_char(i + 3));
        let c4 = lower_char_exec(t.get_char(i + 4));
        proof {
            let w = t@.subrange(i as int, i as int + 5);
            assert(w.len() == 5);
            assert(w[0] == t@[i as int]);
            assert(w[1] == t@[i as int + 1]);
            assert(w[2] == t@[i as int + 2]);
            assert(w[3] == t@[i as int + 3]);
            assert(w[4] == t@[i as int + 4]);
            assert(lower_chars(w).len() == 5);
            assert(lower_chars(w)[0] == c0);
            assert(lower_chars(w)[1] == c1);
            assert(lower_chars(w)[2] == c2);
            assert(lower_chars(w)[3] == c3);
            assert(lower_chars(w)[4] == c4);
            assert(error_marker()[0] == 'e');
            assert(error_marker()[1] == 'r');
            assert(error_marker()[2] == 'r');
            assert(error_marker()[3] == 'o');
            assert(error_marker()[4] == 'r');
        }
        if c0 == 'e' && c1 == 'r' && c2 == 'r' && c3 == 'o' && c4 == 'r' {
            proof {
                assert(lower_chars(t@.subrange(i as int, i as int + 5)) =~= error_marker());
            }
            return true;
        }
        proof {
            let w = t@.subrange(i as int, i as int + 5);
            if lower_chars(w) == error_marker() {
                assert(c0 == 'e' && c1 == 'r' && c2 == 'r' && c3 == 'o' && c4 == 'r');
            }
        }
        i = i + 1;
    }
    proof {
        if contains_error_marker(t@) {
            let j = choose|j: int|
                0 <= j && j + 5 <= t@.len() && lower_chars(#[trigger] t@.subrange(j, j + 5))
                    == error_marker();
            assert(lower_chars(t@.subrange(j, j + 5)) != error_marker());
        }
    }
    false
}

/// Error-marker test on an optional tag string.
pub fn tags_carry_error(tags: &Option<String>) -> (r: bool)
    ensures
        r == has_error_tag(opt_view(*tags)),
{
    match tags {
        Some(t) => contains_error(t.as_str()),
        None => false,
    }
}

/// First headword row whose stored surface text equals the raw word.
pub fn find_headword_exact(rows: &Vec<HeadwordRow>, word: &str) -> (r: Option<usize>)
    ensures
        opt_index(r) == find_first(hw_models(rows@), hw_exact_pred(word@)),
{
    let ghost m = hw_models(rows@);
    let ghost p = hw_exact_pred(word@);
    let n = rows.len();
    let mut i: usize = 0;
    while i < n
        invariant
            n == rows.len(),
            i <= n,
            m == hw_models(rows@),
            p == hw_exact_pred(word@),
            m.len() == n,
            forall|k: int| 0 <= k < i ==> !p(m[k]),
        decreases n - i,
    {
        let hit = str_eq(rows[i].word.as_str(), word);
        proof {
            assert(m[i as int] == rows@[i as int]@);
            assert(p(m[i as int]) == hit);
        }
        if hit {
            proof {
                lemma_find_first(m, p);
            }
            return Some(i);
        }
        i = i + 1;
    }
    proof {
        lemma_find_first(m, p);
    }
    None
}

/// First headword row whose stored folded form equals the folded query.
pub fn find_headword_normalized(rows: &Vec<HeadwordRow>, norm: &str) -> (r: Option<usize>)
    ensures
        opt_index(r) == find_first(hw_models(rows@), hw_norm_pred(norm@)),
{
    let ghost m = hw_models(rows@);
    let ghost p = hw_norm_pred(norm@);
    let n = rows.len();
    let mut i: usize = 0;
    while i < n
        invariant
            n == rows.len(),
            i <= n,
            m == hw_models(rows@),
            p == hw_norm_pred(norm@),
            m.len() == n,
            forall|k: int| 0 <= k < i ==> !p(m[k]),
        decreases n - i,
    {
        let hit = match &rows[i].normalized_word {
            Some(s) => str_eq(s.as_str(), norm),
            None => false,
        };
        proof {
            assert(m[i as int] == rows@[i as int]@);
            assert(p(m[i as int]) == hit);
        }
        if hit {
            proof {
                lemma_find_first(m, p);
            }
            return Some(i);
        }
        i = i + 1;
    }
    proof {
        lemma_find_first(m, p);
    }
    None
}

/// First usable form row whose surface form equals the raw word.
pub fn find_form_exact(rows: &Vec<FormRow>, word: &str) -> (r: Option<usize>)
    ensures
        opt_index(r) == find_first(form_models(rows@), form_exact_pred(word@)),
{
    let ghost m = form_models(rows@);
    let ghost p = form_exact_pred(word@);
    let n = rows.len();
    let mut i: usize = 0;
    while i < n
        invariant
            n == rows.len(),
            i <= n,
            m == form_models(rows@),
            p == form_exact_pred(word@),
            m.len() == n,
            forall|k: int| 0 <= k < i ==> !p(m[k]),
        decreases n - i,
    {
        let hit = str_eq(rows[i].form.as_str(), word) && !tags_carry_error(&rows[i].tags);
        proof {
            assert(m[i as int] == rows@[i as int]@);
            assert(p(m[i as int]) == hit);
        }
        if hit {
            proof {
                lemma_find_first(m, p);
            }
            return Some(i);
        }
        i = i + 1;
    }
    proof {
        lemma_find_first(m, p);
    }
    None
}

/// The headword rows carrying `id`, copied out in storage order.
pub fn collect_rows_with_id(rows: &Vec<HeadwordRow>, id: i64) -> (r: Vec<HeadwordRow>)
    ensures
        hw_models(r@) == rows_with_id(hw_models(rows@), id as int),
{
    let n = rows.len();
    let mut out: Vec<HeadwordRow> = Vec::new();
    let mut i: usize = 0;
    proof {
        assert(hw_models(rows@.subrange(0, 0)) =~= Seq::<HeadwordRowModel>::empty());
        assert(hw_models(out@) =~= Seq::<HeadwordRowModel>::empty());
    }
    while i < n
        invariant
            n == rows.len(),
            i <= n,
            hw_models(out@) == rows_with_id(hw_models(rows@.subrange(0, i as int)), id as int),
        decreases n - i,
    {
        let ghost prev = hw_models(rows@.subrange(0, i as int));
        let ghost cur = hw_models(rows@.subrange(0, i as int + 1));
        proof {
            assert(cur =~= prev.push(rows@[i as int]@));
            assert(cur.drop_last() =~= prev);
            assert(cur.last() == rows@[i as int]@);
        }
        if rows[i].id == id {
            let ghost old_out = out@;
            out.push(rows[i].duplicate());
            proof {
                assert(hw_models(out@) =~= hw_models(old_out).push(rows@[i as int]@));
            }
        }
        i = i + 1;
    }
    proof {
        assert(rows@.subrange(0, n as int) =~= rows@);
    }
    out
}

/// The glosses owned by the headword row `id`, copied out in storage order.
pub fn collect_glosses(senses: &Vec<SenseRow>, id: i64) -> (r: Vec<String>)
    ensures
        str_models(r@) == glosses_of(sense_models(senses@), id as int),
{
    let n = senses.len();
    let mut out: Vec<String> = Vec::new();
    let mut i: usize = 0;
    proof {
        assert(sense_models(senses@.subrange(0, 0)) =~= Seq::<SenseRowModel>::empty());
        assert(str_models(out@) =~= Seq::<Seq<char>>::empty());
    }
    while i < n
        invariant
            n == senses.len(),
            i <= n,
            str_models(out@) == glosses_of(sense_models(senses@.subrange(0, i as int)), id as int),
        decreases n - i,
    {
        let ghost prev = sense_models(senses@.subrange(0, i as int));
        let ghost cur = sense_models(senses@.subrange(0, i as int + 1));
        proof {
            assert(cur =~= prev.push(senses@[i as int]@));
            assert(cur.drop_last() =~= prev);
            assert(cur.last() == senses@[i as int]@);
        }
        if senses[i].dictionary_id == id {
            let ghost old_out = out@;
            out.push(senses[i].gloss.clone());
            proof {
                assert(str_models(out@) =~= str_models(old_out).push(senses@[i as int]@.gloss));
            }
        }
        i = i + 1;
    }
    proof {
        assert(senses@.subrange(0, n as int) =~= senses@);
    }
    out
}

/// Joins glosses with the fixed separator; absent when there are none.
pub fn join_glosses(glosses: &Vec<String>) -> (r: Option<String>)
    ensures
        opt_view(r) == definition_of(str_models(glosses@)),
{
    let ghost g = str_models(glosses@);
    let n = glosses.len();
    if n == 0 {
        return None;
    }
    let mut out: String = glosses[0].clone();
    let mut i: usize = 1;
    proof {
        reveal_strlit(" | ");
        assert(g.subrange(0, 1).len() == 1);
        assert(g.subrange(0, 1)[0] == g[0]);
        assert(out@ == joined(g.subrange(0, 1)));
    }
    while i < n
        invariant
            n == glosses.len(),
            g == str_models(glosses@),
            g.len() == n,
            1 <= i <= n,
            out@ == joined(g.subrange(0, i as int)),
        decreases n - i,
    {
        out.append(" | ");
        out.append(glosses[i].as_str());
        proof {
            reveal_strlit(" | ");
            let cur = g.subrange(0, i as int + 1);
            assert(cur.drop_last() =~= g.subrange(0, i as int));
            assert(cur.last() == g[i as int]);
            assert(" | "@ =~= separator());
            assert(out@ =~= joined(cur));
        }
        i = i + 1;
    }
    proof {
        assert(g.subrange(0, n as int) =~= g);
    }
    Some(out)
}

/// True when some already-collected entry carries the surface text `t`.
pub fn entries_contain_text(es: &Vec<DictionaryEntry>, t: &str) -> (r: bool)
    ensures
        r == contains_text(entry_models(es@), t@),
{
    let n = es.len();
    let mut i: usize = 0;
    while i < n
        invariant
            n == es.len(),
            i <= n,
            forall|k: int| 0 <= k < i ==> entry_models(es@)[k].text != t@,
        decreases n - i,
    {
        if str_eq(es[i].text.as_str(), t) {
            proof {
                assert(entry_models(es@)[i as int].text == t@);
            }
            return true;
        }
        proof {
            assert(entry_models(es@)[i as int] == es@[i as int]@);
        }
        i = i + 1;
    }
    proof {
        if contains_text(entry_models(es@), t@) {
            let j = choose|j: int|
                0 <= j < entry_models(es@).len() && entry_models(es@)[j].text == t@;
            assert(entry_models(es@)[j].text != t@);
        }
    }
    false
}

/// Builds one entry per resolved headword row and deduplicates by surface
/// text, first seen wins.
pub fn build_entries(
    rows: &Vec<HeadwordRow>,
    definition: &Option<String>,
    word: &str,
    via_form: &Option<FormRow>,
) -> (r: Vec<DictionaryEntry>)
    ensures
        entry_models(r@) == entries_for(
            hw_models(rows@),
            opt_view(*definition),
            word@,
            opt_form_view(*via_form),
        ),
{
    let ghost defn = opt_view(*definition);
    let ghost vf = opt_form_view(*via_form);
    let n = rows.len();
    let mut out: Vec<DictionaryEntry> = Vec::new();
    let mut i: usize = 0;
    proof {
        assert(hw_models(rows@.subrange(0, 0)) =~= Seq::<HeadwordRowModel>::empty());
        assert(entry_models(out@) =~= Seq::<EntryModel>::empty());
    }
    while i < n
        invariant
            n == rows.len(),
            i <= n,
            defn == opt_view(*definition),
            vf == opt_form_view(*via_form),
            entry_models(out@) == entries_for(
                hw_models(rows@.subrange(0, i as int)),
                defn,
                word@,
                vf,
            ),
        decreases n - i,
    {
        let row = &rows[i];
        let inflections: Option<Vec<Inflection>> = match via_form {
            Some(f) => {
                if !str_eq(row.word.as_str(), word) {
                    let mut v: Vec<Inflection> = Vec::new();
                    v.push(
                        Inflection {
                            form: String::from_str(word),
                            tags: clone_opt_string(&f.tags),
                            normalized_form: None,
                        },
                    );
                    Some(v)
                } else {
                    None
                }
            },
            None => None,
        };
        let e = DictionaryEntry {
            entry_id: Some(row.id),
            text: row.word.clone(),
            language: row.lang.clone(),
            root_form: clone_opt_string(&row.normalized_word),
            grammar: clone_opt_string(&row.pos),
            definition: clone_opt_string(definition),
            inflections,
            etymology: clone_opt_string(&row.etymology),
        };
        proof {
            match vf {
                Some(fm) => {
                    if rows@[i as int]@.word != word@ {
                        assert(e@.inflections matches Some(v) && v =~= seq![
                            InflectionModel { form: word@, tags: fm.tags, normalized_form: None },
                        ]);
                    }
                },
                None => {},
            }
            assert(e@ == entry_for(rows@[i as int]@, defn, word@, vf));
        }
        let ghost prev_raw = entries_raw(hw_models(rows@.subrange(0, i as int)), defn, word@, vf);
        let ghost cur_raw = entries_raw(
            hw_models(rows@.subrange(0, i as int + 1)),
            defn,
            word@,
            vf,
        );
        proof {
            let mprev = hw_models(rows@.subrange(0, i as int));
            let mcur = hw_models(rows@.subrange(0, i as int + 1));
            assert(mcur =~= mprev.push(rows@[i as int]@));
            assert(mcur.drop_last() =~= mprev);
            assert(mcur.last() == rows@[i as int]@);
            assert(cur_raw == prev_raw.push(e@));
            assert(cur_raw.drop_last() =~= prev_raw);
            assert(cur_raw.last() == e@);
        }
        let dup = entries_contain_text(&out, e.text.as_str());
        if !dup {
            let ghost old_out = out@;
            out.push(e);
            proof {
                assert(entry_models(out@) =~= entry_models(old_out).push(cur_raw.last()));
            }
        }
        i = i + 1;
    }
    proof {
        assert(rows@.subrange(0, n as int) =~= rows@);
    }
    out
}

/// The staged lookup over the store's tables: the identifier of the resolved
/// headword row, and a copy of the matched form row when the path went
/// through the forms table.
fn select_resolution(store: &Store, word: &str, norm: &str) -> (r: (Option<i64>, Option<FormRow>))
    ensures
        match resolution(store@, word@, norm@) {
            None => r.0 is None && r.1 is None,
            Some(rm) => r.0 matches Some(id) && id as int == rm.id && opt_form_view(r.1)
                == rm.via_form,
        },
{
    if let Some(i) = find_headword_exact(&store.headwords, word) {
        proof {
            lemma_find_first(hw_models(store.headwords@), hw_exact_pred(word@));
        }
        return (Some(store.headwords[i].id), None);
    }
    if let Some(i) = find_headword_normalized(&store.headwords, norm) {
        proof {
            lemma_find_first(hw_models(store.headwords@), hw_norm_pred(norm@));
        }
        return (Some(store.headwords[i].id), None);
    }
    if let Some(j) = find_form_exact(&store.forms, word) {
        proof {
            lemma_find_first(form_models(store.forms@), form_exact_pred(word@));
        }
        return (Some(store.forms[j].dictionary_id), Some(store.forms[j].duplicate()));
    }
    if let Some(j) = find_form_normalized(&store.forms, norm) {
        proof {
            lemma_find_first(form_models(store.forms@), form_norm_pred(norm@));
        }
        return (Some(store.forms[j].dictionary_id), Some(store.forms[j].duplicate()));
    }
    (None, None)
}

/// Resolves a surface word against an in-memory store, by the staged
/// protocol: exact headword, normalized headword, exact form, normalized
/// form; a forms-table match yields the owning headword, enriched with one
/// inflection record when the headword differs from the query; the result is
/// deduplicated by surface text.  The result is a function of the store and
/// the word alone.
pub fn resolve_in_store(store: &Store, word: &str) -> (r: Vec<DictionaryEntry>)
    ensures
        entry_models(r@) == resolve_model(store@, word@),
{
    if is_blank_str(word) {
        let r: Vec<DictionaryEntry> = Vec::new();
        proof {
            assert(entry_models(r@) =~= Seq::<EntryModel>::empty());
        }
        return r;
    }
    let norm = normalize_word(word);
    let (id_found, via_form) = select_resolution(store, word, norm.as_str());
    match id_found {
        None => {
            let r: Vec<DictionaryEntry> = Vec::new();
            proof {
                assert(entry_models(r@) =~= Seq::<EntryModel>::empty());
            }
            r
        },
        Some(id) => {
            let rows = collect_rows_with_id(&store.headwords, id);
            let glosses = collect_glosses(&store.senses, id);
            let definition = join_glosses(&glosses);
            let r = build_entries(&rows, &definition, word, &via_form);
            proof {
                assert(resolution(store@, word@, norm@) matches Some(rm) && rm.id == id as int
                    && rm.via_form == opt_form_view(via_form));
            }
            r
        },
    }
}

/// First usable form row whose folded form equals the folded query.
pub fn find_form_normalized(rows: &Vec<FormRow>, norm: &str) -> (r: Option<usize>)
    ensures
        opt_index(r) == find_first(form_models(rows@), form_norm_pred(norm@)),
{
    let ghost m = form_models(rows@);
    let ghost p = form_norm_pred(norm@);
    let n = rows.len();
    let mut i: usize = 0;
    while i < n
        invariant
            n == rows.len(),
            i <= n,
            m == form_models(rows@),
            p == form_norm_pred(norm@),
            m.len() == n,
            forall|k: int| 0 <= k < i ==> !p(m[k]),
        decreases n - i,
    {
        let hit = (match &rows[i].normalized_form {
            Some(s) => str_eq(s.as_str(), norm),
            None => false,
        }) && !tags_carry_error(&rows[i].tags);
        proof {
            assert(m[i as int] == rows@[i as int]@);
            assert(p(m[i as int]) == hit);
        }
        if hit {
            proof {
                lemma_find_first(m, p);
            }
            return Some(i);
        }
        i = i + 1;
    }
    proof {
        lemma_find_first(m, p);
    }
    None
}

} // verus!
