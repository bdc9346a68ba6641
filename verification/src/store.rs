//! Data model of a dictionary store and of the entries the resolver returns.
//!
//! A store holds three tables: headword rows, sense rows (glosses owned by a
//! headword), and inflected-form rows that point back at the headword owning
//! the form.  Each executable type has a mathematical view used by the
//! resolution contracts.

use crate::text::opt_view;
use vstd::prelude::*;

verus! {

/// One row of the headword table.
pub struct HeadwordRow {
    /// Row identifier; sense and form rows refer to it.
    pub id: i64,
    /// The headword in native orthography.
    pub word: String,
    /// The folded form of the headword, when the store carries one.
    pub normalized_word: Option<String>,
    /// Language name stored with the row.
    pub lang: String,
    /// Part of speech, when present.
    pub pos: Option<String>,
    /// Etymology text, when present.
    pub etymology: Option<String>,
}

/// Mathematical view of a headword row.
pub struct HeadwordRowModel {
    pub id: int,
    pub word: Seq<char>,
    pub normalized_word: Option<Seq<char>>,
    pub lang: Seq<char>,
    pub pos: Option<Seq<char>>,
    pub etymology: Option<Seq<char>>,
}

impl View for HeadwordRow {
    type V = HeadwordRowModel;

    open spec fn view(&self) -> HeadwordRowModel {
        HeadwordRowModel {
            id: self.id as int,
            word: self.word@,
            normalized_word: opt_view(self.normalized_word),
            lang: self.lang@,
            pos: opt_view(self.pos),
            etymology: opt_view(self.etymology),
        }
    }
}

/// Copies an optional string, preserving its contents.
pub fn clone_opt_string(o: &Option<String>) -> (r: Option<String>)
    ensures
        opt_view(r) == opt_view(*o),
{
    match o {
        Some(s) => Some(s.clone()),
        None => None,
    }
}

impl HeadwordRow {
    /// A field-for-field copy of the row.
    pub fn duplicate(&self) -> (r: HeadwordRow)
        ensures
            r@ == self@,
    {
        HeadwordRow {
            id: self.id,
            word: self.word.clone(),
            normalized_word: clone_opt_string(&self.normalized_word),
            lang: self.lang.clone(),
            pos: clone_opt_string(&self.pos),
            etymology: clone_opt_string(&self.etymology),
        }
    }
}

/// One row of the sense table: a gloss owned by a headword row.
pub struct SenseRow {
    pub dictionary_id: i64,
    pub gloss: String,
}

/// Mathematical view of a sense row.
pub struct SenseRowModel {
    pub dictionary_id: int,
    pub gloss: Seq<char>,
}

impl View for SenseRow {
    type V = SenseRowModel;

    open spec fn view(&self) -> SenseRowModel {
        SenseRowModel { dictionary_id: self.dictionary_id as int, gloss: self.gloss@ }
    }
}

/// One row of the inflected-forms table.
pub struct FormRow {
    /// The headword row owning this inflected form.
    pub dictionary_id: i64,
    /// The inflected surface string.
    pub form: String,
    /// The folded form, when the store carries one.
    pub normalized_form: Option<String>,
    /// Grammatical tag string; may mark malformed data with an error marker.
    pub tags: Option<String>,
}

/// Mathematical view of a form row.
pub struct FormRowModel {
    pub dictionary_id: int,
    pub form: Seq<char>,
    pub normalized_form: Option<Seq<char>>,
    pub tags: Option<Seq<char>>,
}

impl View for FormRow {
    type V = FormRowModel;

    open spec fn view(&self) -> FormRowModel {
        FormRowModel {
            dictionary_id: self.dictionary_id as int,
            form: self.form@,
            normalized_form: opt_view(self.normalized_form),
            tags: opt_view(self.tags),
        }
    }
}

impl FormRow {
    /// A field-for-field copy of the row.
    pub fn duplicate(&self) -> (r: FormRow)
        ensures
            r@ == self@,
    {
        FormRow {
            dictionary_id: self.dictionary_id,
            form: self.form.clone(),
            normalized_form: clone_opt_string(&self.normalized_form),
            tags: clone_opt_string(&self.tags),
        }
    }
}

/// The view of an optional form row.
pub open spec fn opt_form_view(o: Option<FormRow>) -> Option<FormRowModel> {
    match o {
        Some(f) => Some(f@),
        None => None,
    }
}

/// An in-memory dictionary store: the three tables in storage order.
pub struct Store {
    pub headwords: Vec<HeadwordRow>,
    pub senses: Vec<SenseRow>,
    pub forms: Vec<FormRow>,
}

/// Mathematical view of a store.
pub struct StoreModel {
    pub headwords: Seq<HeadwordRowModel>,
    pub senses: Seq<SenseRowModel>,
    pub forms: Seq<FormRowModel>,
}

/// Views of a sequence of headword rows.
pub open spec fn hw_models(rows: Seq<HeadwordRow>) -> Seq<HeadwordRowModel> {
    rows.map_values(|r: HeadwordRow| r@)
}

/// Views of a sequence of sense rows.
pub open spec fn sense_models(rows: Seq<SenseRow>) -> Seq<SenseRowModel> {
    rows.map_values(|r: SenseRow| r@)
}

/// Views of a sequence of form rows.
pub open spec fn form_models(rows: Seq<FormRow>) -> Seq<FormRowModel> {
    rows.map_values(|r: FormRow| r@)
}

impl View for Store {
    type V = StoreModel;

    open spec fn view(&self) -> StoreModel {
        StoreModel {
            headwords: hw_models(self.headwords@),
            senses: sense_models(self.senses@),
            forms: form_models(self.forms@),
        }
    }
}

/// Inflection metadata attached to an entry that was reached through the
/// inflected-forms table.
pub struct Inflection {
    /// The inflected surface string (the word as queried).
    pub form: String,
    /// The tag string of the matching form row, when it had one.
    pub tags: Option<String>,
    /// The folded form; never filled by the resolver.
    pub normalized_form: Option<String>,
}

/// Mathematical view of an inflection record.
pub struct InflectionModel {
    pub form: Seq<char>,
    pub tags: Option<Seq<char>>,
    pub normalized_form: Option<Seq<char>>,
}

impl View for Inflection {
    type V = InflectionModel;

    open spec fn view(&self) -> InflectionModel {
        InflectionModel {
            form: self.form@,
            tags: opt_view(self.tags),
            normalized_form: opt_view(self.normalized_form),
        }
    }
}

/// One resolved dictionary entry: exactly one headword row, enriched at read
/// time with inflection context when the query word was not the headword.
pub struct DictionaryEntry {
    /// Identifier of the headword row the entry was built from.
    pub entry_id: Option<i64>,
    /// The headword in native orthography.
    pub text: String,
    /// Language name stored with the row.
    pub language: String,
    /// The stored folded form of the headword.
    pub root_form: Option<String>,
    /// Part of speech / grammar notes.
    pub grammar: Option<String>,
    /// All sense glosses of the headword, joined with a fixed separator.
    pub definition: Option<String>,
    /// Present if and only if the entry was reached through an inflected form
    /// whose headword differs from the queried word.
    pub inflections: Option<Vec<Inflection>>,
    /// Etymology text, when present.
    pub etymology: Option<String>,
}

/// Mathematical view of a dictionary entry.
pub struct EntryModel {
    pub entry_id: Option<int>,
    pub text: Seq<char>,
    pub language: Seq<char>,
    pub root_form: Option<Seq<char>>,
    pub grammar: Option<Seq<char>>,
    pub definition: Option<Seq<char>>,
    pub inflections: Option<Seq<InflectionModel>>,
    pub etymology: Option<Seq<char>>,
}

impl View for DictionaryEntry {
    type V = EntryModel;

    open spec fn view(&self) -> EntryModel {
        EntryModel {
            entry_id: match self.entry_id {
                Some(id) => Some(id as int),
                None => None,
            },
            text: self.text@,
            language: self.language@,
            root_form: opt_view(self.root_form),
            grammar: opt_view(self.grammar),
            definition: opt_view(self.definition),
            inflections: match self.inflections {
                Some(v) => Some(infl_models(v@)),
                None => None,
            },
            etymology: opt_view(self.etymology),
        }
    }
}

/// Views of a sequence of inflection records.
pub open spec fn infl_models(v: Seq<Inflection>) -> Seq<InflectionModel> {
    v.map_values(|i: Inflection| i@)
}

/// Views of a sequence of dictionary entries.
pub open spec fn entry_models(v: Seq<DictionaryEntry>) -> Seq<EntryModel> {
    v.map_values(|e: DictionaryEntry| e@)
}

/// Corpus-level counts for one language's store.
pub struct DictionaryStats {
    pub word_count: i64,
    pub sense_count: i64,
    pub form_count: i64,
    pub synonym_count: i64,
}

/// One language found by a registry scan, with its store location and counts.
pub struct LanguageInfo {
    pub code: String,
    pub name: String,
    pub has_local: bool,
    pub word_count: i64,
    pub sense_count: i64,
    pub form_count: i64,
    pub path: Option<String>,
}

} // verus!
