use hivemqtt::length::{Field, FieldAttr, FieldList, FieldValue};
use hivemqtt::varint::variable_length;

fn counted(v: FieldValue) -> Field {
    Field { value: Some(v), attr: FieldAttr::Counted }
}

fn optional(v: Option<FieldValue>) -> Field {
    Field { value: v, attr: FieldAttr::Counted }
}

fn ignored(v: Option<FieldValue>) -> Field {
    Field { value: v, attr: FieldAttr::Ignore }
}

fn pairs(p: &[(&str, &str)]) -> FieldValue {
    FieldValue::Pairs(p.iter().map(|(k, v)| (k.to_string(), v.to_string())).collect())
}

fn strs(s: &[&str]) -> FieldValue {
    FieldValue::Strs(s.iter().map(|x| x.to_string()).collect())
}

/// title, port, properties, topics, active, size, ops, s
fn test_one(
    title: &str,
    port: u16,
    properties: &[(&str, &str)],
    topics: &[&str],
    active: bool,
    size: Vec<usize>,
    ops: Option<usize>,
    s: usize,
) -> FieldList {
    FieldList {
        fields: vec![
            counted(FieldValue::Str(title.to_string())),
            counted(FieldValue::U16(port)),
            counted(pairs(properties)),
            counted(strs(topics)),
            counted(FieldValue::Bool(active)),
            counted(FieldValue::Sizes(size)),
            optional(ops.map(FieldValue::Size)),
            counted(FieldValue::Size(s)),
        ],
    }
}

#[test]
fn should_return_the_length_if_all_fields_are_populated() {
    let subject = test_one("A", 440, &[("abc", "cde")], &["topic_A"], true, vec![10], Some(10), 10);
    assert_eq!(subject.len(), 36);
}

#[test]
fn should_ignore_an_empty_vector() {
    let subject = test_one("A", 440, &[], &[], true, vec![], None, 0);
    assert_eq!(subject.len(), 11);
}

#[test]
fn should_return_the_accurate_len() {
    let title_only = FieldList {
        fields: vec![
            counted(FieldValue::Str("testingHuman".to_string())),
            optional(None),
            optional(None),
            optional(None),
            optional(None),
        ],
    };
    assert_eq!(title_only.len(), 15);

    let with_auth = FieldList {
        fields: vec![
            counted(FieldValue::Str("testingHuman".to_string())),
            optional(None),
            optional(Some(pairs(&[("username", "xxxx88yj")]))),
            optional(None),
            optional(Some(FieldValue::Bool(false))),
        ],
    };
    assert_eq!(with_auth.len(), 38)
}

#[test]
fn should_ignore_fields_with_the_ignore_attribute() {
    let subject = FieldList {
        fields: vec![
            counted(FieldValue::Str("A".to_string())),
            counted(FieldValue::U16(440)),
            ignored(Some(pairs(&[("abc", "cde")]))),
            counted(strs(&["topic_A"])),
            ignored(Some(FieldValue::Bool(true))),
            ignored(None),
        ],
    };
    assert_eq!(subject.len(), 17)
}

#[test]
fn variable_len_follows_the_encoding_boundaries() {
    assert_eq!(variable_length(0), 1);
    assert_eq!(variable_length(127), 1);
    assert_eq!(variable_length(128), 2);
    assert_eq!(variable_length(16_383), 2);
    assert_eq!(variable_length(16_384), 3);
    assert_eq!(variable_length(2_097_151), 3);
    assert_eq!(variable_length(2_097_152), 4);
    assert_eq!(variable_length(usize::MAX), 4);
}

#[test]
fn no_id_fields_take_no_identifier_byte() {
    let subject = FieldList {
        fields: vec![
            Field { value: Some(FieldValue::Str("abc".to_string())), attr: FieldAttr::NoId },
            Field { value: Some(FieldValue::U32(7)), attr: FieldAttr::NoId },
            Field { value: Some(FieldValue::U8(7)), attr: FieldAttr::Counted },
            Field { value: Some(FieldValue::Binary(vec![1, 2, 3])), attr: FieldAttr::Counted },
        ],
    };
    assert_eq!(subject.len(), 5 + 4 + 2 + 6);
}

#[test]
fn a_list_of_no_fields_takes_nothing() {
    assert_eq!(FieldList { fields: vec![] }.len(), 0);
}
