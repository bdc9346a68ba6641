//! Reading auxiliary detail payloads: the linked-form relation buried under
//! a sense's part-of-speech relations, and the etymology field.
//!
//! A detail payload is a JSON-like tree of plain values.  A number keeps its
//! textual rendering, so nothing numeric is reinterpreted.  Extraction walks
//! senses, their parts of speech and their relations in order and takes the
//! first hit, exactly as the lookup order of the stored payload dictates.

use crate::engine::{find_first, lemma_find_first};
use crate::text::{opt_view, str_eq};
use vstd::prelude::*;
use vstd::string::StringExecFns;

verus! {

/// A JSON-like detail payload as plain values.
pub enum JsonValue {
    Null,
    Bool(bool),
    Num(String),
    Str(String),
    Arr(Vec<JsonValue>),
    Obj(Vec<(String, JsonValue)>),
}

/// Matches an object field by key.
pub open spec fn key_pred(key: Seq<char>) -> spec_fn((String, JsonValue)) -> bool {
    |p: (String, JsonValue)| p.0@ == key
}

/// The first value stored under `key`, in field order.
pub open spec fn spec_obj_get(
    fields: Seq<(String, JsonValue)>,
    key: Seq<char>,
) -> Option<JsonValue> {
    match find_first(fields, key_pred(key)) {
        Some(i) => Some(fields[i].1),
        None => None,
    }
}

/// Looks a key up in an object's fields, in order.
pub fn obj_get<'a>(fields: &'a Vec<(String, JsonValue)>, key: &str) -> (r: Option<
    &'a JsonValue,
>)
    ensures
        match r {
            Some(v) => spec_obj_get(fields@, key@) == Some(*v),
            None => spec_obj_get(fields@, key@) is None,
        },
{
    let ghost p = key_pred(key@);
    let n = fields.len();
    let mut i: usize = 0;
    while i < n
        invariant
            n == fields@.len(),
            p == key_pred(key@),
            i <= n,
            forall|k: int| 0 <= k < i ==> !p(fields@[k]),
        decreases n - i,
    {
        let hit = str_eq(fields[i].0.as_str(), key);
        proof {
            assert(p(fields@[i as int]) == hit);
        }
        if hit {
            proof {
                lemma_find_first(fields@, p);
            }
            return Some(&fields[i].1);
        }
        i = i + 1;
    }
    proof {
        lemma_find_first(fields@, p);
    }
    None
}

/// The display text of a scalar value; a container has none.
pub open spec fn spec_scalar_text(v: JsonValue) -> Option<Seq<char>> {
    match v {
        JsonValue::Null => Some("null"@),
        JsonValue::Bool(b) => if b {
            Some("true"@)
        } else {
            Some("false"@)
        },
        JsonValue::Num(s) => Some(s@),
        JsonValue::Str(s) => Some(s@),
        _ => None,
    }
}

/// The display text of a scalar value.
pub fn scalar_text(v: &JsonValue) -> (r: Option<String>)
    ensures
        opt_view(r) == spec_scalar_text(*v),
{
    match v {
        JsonValue::Null => Some(String::from_str("null")),
        JsonValue::Bool(b) => if *b {
            Some(String::from_str("true"))
        } else {
            Some(String::from_str("false"))
        },
        JsonValue::Num(s) => Some(s.clone()),
        JsonValue::Str(s) => Some(s.clone()),
        _ => None,
    }
}

/// The linked-form word of one relation: present when the relation is an
/// object whose relation type is the linked-form marker and whose first
/// target is an object with a scalar word field.
pub open spec fn spec_rel_word(rel: JsonValue) -> Option<Seq<char>> {
    match rel {
        JsonValue::Obj(f) => match spec_obj_get(f@, "relType"@) {
            Some(JsonValue::Str(t)) => if t@ == "linkedForm"@ {
                match spec_obj_get(f@, "targets"@) {
                    Some(JsonValue::Arr(ts)) => if ts@.len() > 0 {
                        match ts@[0] {
                            JsonValue::Obj(tf) => match spec_obj_get(tf@, "word"@) {
                                Some(wv) => spec_scalar_text(wv),
                                None => None,
                            },
                            _ => None,
                        }
                    } else {
                        None
                    },
                    _ => None,
                }
            } else {
                None
            },
            _ => None,
        },
        _ => None,
    }
}

/// The linked-form word of one relation.
pub fn rel_word(rel: &JsonValue) -> (r: Option<String>)
    ensures
        opt_view(r) == spec_rel_word(*rel),
{
    match rel {
        JsonValue::Obj(f) => match obj_get(f, "relType") {
            Some(JsonValue::Str(t)) => {
                if str_eq(t.as_str(), "linkedForm") {
                    match obj_get(f, "targets") {
                        Some(JsonValue::Arr(ts)) => {
                            if ts.len() > 0 {
                                match &ts[0] {
                                    JsonValue::Obj(tf) => match obj_get(tf, "word") {
                                        Some(wv) => scalar_text(wv),
                                        None => None,
                                    },
                                    _ => None,
                                }
                            } else {
                                None
                            }
                        },
                        _ => None,
                    }
                } else {
                    None
                }
            },
            _ => None,
        },
        _ => None,
    }
}

/// Matches a relation that yields a linked-form word.
pub open spec fn rel_yields_pred() -> spec_fn(JsonValue) -> bool {
    |r: JsonValue| spec_rel_word(r) is Some
}

/// The first linked-form word among the relations, in order.
pub open spec fn spec_first_rel_word(rels: Seq<JsonValue>) -> Option<Seq<char>> {
    match find_first(rels, rel_yields_pred()) {
        Some(i) => spec_rel_word(rels[i]),
        None => None,
    }
}

/// The first linked-form word among the relations.
pub fn first_rel_word(rels: &Vec<JsonValue>) -> (r: Option<String>)
    ensures
        opt_view(r) == spec_first_rel_word(rels@),
{
    let ghost p = rel_yields_pred();
    let n = rels.len();
    let mut i: usize = 0;
    while i < n
        invariant
            n == rels@.len(),
            p == rel_yields_pred(),
            i <= n,
            forall|k: int| 0 <= k < i ==> !p(rels@[k]),
        decreases n - i,
    {
        let w = rel_word(&rels[i]);
        proof {
            assert(p(rels@[i as int]) == (w is Some));
        }
        if w.is_some() {
            proof {
                lemma_find_first(rels@, p);
            }
            return w;
        }
        i = i + 1;
    }
    proof {
        lemma_find_first(rels@, p);
    }
    None
}

/// The first linked-form word of one part of speech: present when the part
/// is an object whose relations array yields one.
pub open spec fn spec_part_word(part: JsonValue) -> Option<Seq<char>> {
    match part {
        JsonValue::Obj(f) => match spec_obj_get(f@, "relations"@) {
            Some(JsonValue::Arr(rels)) => spec_first_rel_word(rels@),
            _ => None,
        },
        _ => None,
    }
}

/// The first linked-form word of one part of speech.
pub fn part_word(part: &JsonValue) -> (r: Option<String>)
    ensures
        opt_view(r) == spec_part_word(*part),
{
    match part {
        JsonValue::Obj(f) => match obj_get(f, "relations") {
            Some(JsonValue::Arr(rels)) => first_rel_word(rels),
            _ => None,
        },
        _ => None,
    }
}

/// Matches a part of speech that yields a linked-form word.
pub open spec fn part_yields_pred() -> spec_fn(JsonValue) -> bool {
    |p: JsonValue| spec_part_word(p) is Some
}

/// The first linked-form word among the parts of speech, in order.
pub open spec fn spec_first_part_word(parts: Seq<JsonValue>) -> Option<Seq<char>> {
    match find_first(parts, part_yields_pred()) {
        Some(i) => spec_part_word(parts[i]),
        None => None,
    }
}

/// The first linked-form word among the parts of speech.
pub fn first_part_word(parts: &Vec<JsonValue>) -> (r: Option<String>)
    ensures
        opt_view(r) == spec_first_part_word(parts@),
{
    let ghost p = part_yields_pred();
    let n = parts.len();
    let mut i: usize = 0;
    while i < n
        invariant
            n == parts@.len(),
            p == part_yields_pred(),
            i <= n,
            forall|k: int| 0 <= k < i ==> !p(parts@[k]),
        decreases n - i,
    {
        let w = part_word(&parts[i]);
        proof {
            assert(p(parts@[i as int]) == (w is Some));
        }
        if w.is_some() {
            proof {
                lemma_find_first(parts@, p);
            }
            return w;
        }
        i = i + 1;
    }
    proof {
        lemma_find_first(parts@, p);
    }
    None
}

/// The first linked-form word of one sense: present when the sense is an
/// object whose parts of speech yield one.
pub open spec fn spec_sense_word(sense: JsonValue) -> Option<Seq<char>> {
    match sense {
        JsonValue::Obj(f) => match spec_obj_get(f@, "partsOfSpeech"@) {
            Some(JsonValue::Arr(parts)) => spec_first_part_word(parts@),
            _ => None,
        },
        _ => None,
    }
}

/// The first linked-form word of one sense.
pub fn sense_word(sense: &JsonValue) -> (r: Option<String>)
    ensures
        opt_view(r) == spec_sense_word(*sense),
{
    match sense {
        JsonValue::Obj(f) => match obj_get(f, "partsOfSpeech") {
            Some(JsonValue::Arr(parts)) => first_part_word(parts),
            _ => None,
        },
        _ => None,
    }
}

/// Matches a sense that yields a linked-form word.
pub open spec fn sense_yields_pred() -> spec_fn(JsonValue) -> bool {
    |s: JsonValue| spec_sense_word(s) is Some
}

/// The first linked-form word among the senses, in order.
pub open spec fn spec_first_sense_word(senses: Seq<JsonValue>) -> Option<Seq<char>> {
    match find_first(senses, sense_yields_pred()) {
        Some(i) => spec_sense_word(senses[i]),
        None => None,
    }
}

/// The first linked-form word among the senses.
pub fn first_sense_word(senses: &Vec<JsonValue>) -> (r: Option<String>)
    ensures
        opt_view(r) == spec_first_sense_word(senses@),
{
    let ghost p = sense_yields_pred();
    let n = senses.len();
    let mut i: usize = 0;
    while i < n
        invariant
            n == senses@.len(),
            p == sense_yields_pred(),
            i <= n,
            forall|k: int| 0 <= k < i ==> !p(senses@[k]),
        decreases n - i,
    {
        let w = sense_word(&senses[i]);
        proof {
            assert(p(senses@[i as int]) == (w is Some));
        }
        if w.is_some() {
            proof {
                lemma_find_first(senses@, p);
            }
            return w;
        }
        i = i + 1;
    }
    proof {
        lemma_find_first(senses@, p);
    }
    None
}

/// The linked-form word of a detail payload: the first one yielded by the
/// senses, walked in order.
pub open spec fn spec_link_part(details: Option<JsonValue>) -> Option<Seq<char>> {
    match details {
        Some(JsonValue::Obj(f)) => match spec_obj_get(f@, "senses"@) {
            Some(JsonValue::Arr(senses)) => spec_first_sense_word(senses@),
            _ => None,
        },
        _ => None,
    }
}

/// Extracts the linked-form word of a detail payload, walking its senses,
/// their parts of speech and their relations in order and taking the first
/// relation of the linked-form type with a worded target.
pub fn extract_link_part(details: &Option<JsonValue>) -> (r: Option<String>)
    ensures
        opt_view(r) == spec_link_part(*details),
{
    match details {
        Some(JsonValue::Obj(f)) => match obj_get(f, "senses") {
            Some(JsonValue::Arr(senses)) => first_sense_word(senses),
            _ => None,
        },
        _ => None,
    }
}

/// The etymology text of a detail payload: the scalar text of the etymology
/// field when the payload carries one, otherwise of the first entry of the
/// etymologies array.
pub open spec fn spec_etymology(details: Option<JsonValue>) -> Option<Seq<char>> {
    match details {
        Some(JsonValue::Obj(f)) => match spec_obj_get(f@, "etymology"@) {
            Some(v) => spec_scalar_text(v),
            None => match spec_obj_get(f@, "etymologies"@) {
                Some(JsonValue::Arr(a)) => if a@.len() > 0 {
                    spec_scalar_text(a@[0])
                } else {
                    None
                },
                _ => None,
            },
        },
        _ => None,
    }
}

/// Extracts the etymology text of a detail payload.
pub fn extract_etymology(details: &Option<JsonValue>) -> (r: Option<String>)
    ensures
        opt_view(r) == spec_etymology(*details),
{
    match details {
        Some(JsonValue::Obj(f)) => match obj_get(f, "etymology") {
            Some(v) => scalar_text(v),
            None => match obj_get(f, "etymologies") {
                Some(JsonValue::Arr(a)) => {
                    if a.len() > 0 {
                        scalar_text(&a[0])
                    } else {
                        None
                    }
                },
                _ => None,
            },
        },
        _ => None,
    }
}

} // verus!
