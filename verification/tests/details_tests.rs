use lumina_dict::details::{extract_etymology, extract_link_part, scalar_text, JsonValue};

fn s(v: &str) -> JsonValue {
    JsonValue::Str(v.to_string())
}

fn obj(fields: Vec<(&str, JsonValue)>) -> JsonValue {
    JsonValue::Obj(fields.into_iter().map(|(k, v)| (k.to_string(), v)).collect())
}

#[test]
fn scalar_text_of_plain_values() {
    assert_eq!(scalar_text(&JsonValue::Null).as_deref(), Some("null"));
    assert_eq!(scalar_text(&JsonValue::Bool(true)).as_deref(), Some("true"));
    assert_eq!(scalar_text(&JsonValue::Bool(false)).as_deref(), Some("false"));
    assert_eq!(scalar_text(&JsonValue::Num("3.25".to_string())).as_deref(), Some("3.25"));
    assert_eq!(scalar_text(&s("alt")).as_deref(), Some("alt"));
    assert!(scalar_text(&JsonValue::Arr(vec![])).is_none());
}

#[test]
fn etymology_field_wins_over_list() {
    let d = obj(vec![
        ("etymology", s("from Old High German")),
        ("etymologies", JsonValue::Arr(vec![s("unused")])),
    ]);
    assert_eq!(extract_etymology(&Some(d)).as_deref(), Some("from Old High German"));
}

#[test]
fn etymologies_list_is_the_fallback() {
    let d = obj(vec![("etymologies", JsonValue::Arr(vec![s("first"), s("second")]))]);
    assert_eq!(extract_etymology(&Some(d)).as_deref(), Some("first"));
}

#[test]
fn empty_etymologies_yield_nothing() {
    let d = obj(vec![("etymologies", JsonValue::Arr(vec![]))]);
    assert!(extract_etymology(&Some(d)).is_none());
    assert!(extract_etymology(&None).is_none());
    assert!(extract_etymology(&Some(s("bare string"))).is_none());
}

#[test]
fn link_part_walks_to_the_first_linked_form() {
    let rel_other = obj(vec![("relType", s("synonym")), (
        "targets",
        JsonValue::Arr(vec![obj(vec![("word", s("wrong"))])]),
    )]);
    let rel_hit = obj(vec![("relType", s("linkedForm")), (
        "targets",
        JsonValue::Arr(vec![obj(vec![("word", s("gehen"))])]),
    )]);
    let part = obj(vec![("relations", JsonValue::Arr(vec![rel_other, rel_hit]))]);
    let sense = obj(vec![("partsOfSpeech", JsonValue::Arr(vec![part]))]);
    let d = obj(vec![("senses", JsonValue::Arr(vec![sense]))]);
    assert_eq!(extract_link_part(&Some(d)).as_deref(), Some("gehen"));
}

#[test]
fn link_part_skips_targetless_relations() {
    let rel_no_targets = obj(vec![("relType", s("linkedForm"))]);
    let rel_hit = obj(vec![("relType", s("linkedForm")), (
        "targets",
        JsonValue::Arr(vec![obj(vec![("word", s("laufen"))])]),
    )]);
    let part = obj(vec![("relations", JsonValue::Arr(vec![rel_no_targets, rel_hit]))]);
    let sense = obj(vec![("partsOfSpeech", JsonValue::Arr(vec![part]))]);
    let d = obj(vec![("senses", JsonValue::Arr(vec![sense]))]);
    assert_eq!(extract_link_part(&Some(d)).as_deref(), Some("laufen"));
}

#[test]
fn link_part_absent_without_linked_forms() {
    let part = obj(vec![("relations", JsonValue::Arr(vec![]))]);
    let sense = obj(vec![("partsOfSpeech", JsonValue::Arr(vec![part]))]);
    let d = obj(vec![("senses", JsonValue::Arr(vec![sense]))]);
    assert!(extract_link_part(&Some(d)).is_none());
    assert!(extract_link_part(&None).is_none());
}
