use cloud_mapping::descriptor::{
    collect_annotations, describe_field, extract_descriptors, Annotations, FieldDescriptor,
    FieldSpec, GenerationError, RawAnnotation, RecordShape, TypeRef,
};

fn name(value: &str) -> RawAnnotation {
    RawAnnotation { key: "column_name".to_string(), value: Some(value.to_string()) }
}

fn flag() -> RawAnnotation {
    RawAnnotation { key: "commit_timestamp".to_string(), value: None }
}

fn field(identifier: &str, declared_type: TypeRef, annotations: Vec<RawAnnotation>) -> FieldSpec {
    FieldSpec { identifier: identifier.to_string(), declared_type, annotations }
}

#[test]
fn no_annotations_give_defaults() {
    assert_eq!(
        collect_annotations(&vec![]),
        Ok(Annotations { column_name: None, commit_timestamp: false })
    );
}

#[test]
fn both_annotations_are_recognised() {
    assert_eq!(
        collect_annotations(&vec![name("UserID"), flag()]),
        Ok(Annotations { column_name: Some("UserID".to_string()), commit_timestamp: true })
    );
    assert_eq!(
        collect_annotations(&vec![flag()]),
        Ok(Annotations { column_name: None, commit_timestamp: true })
    );
}

#[test]
fn last_column_name_stands() {
    assert_eq!(
        collect_annotations(&vec![name("A"), flag(), name("B")]),
        Ok(Annotations { column_name: Some("B".to_string()), commit_timestamp: true })
    );
}

#[test]
fn unknown_key_is_rejected() {
    let unknown = RawAnnotation { key: "primary_key".to_string(), value: None };
    assert_eq!(
        collect_annotations(&vec![name("A"), unknown, flag()]),
        Err(GenerationError::UnrecognizedAnnotation("primary_key".to_string()))
    );
}

#[test]
fn first_unknown_key_is_reported() {
    let one = RawAnnotation { key: "one".to_string(), value: Some("1".to_string()) };
    let two = RawAnnotation { key: "two".to_string(), value: None };
    assert_eq!(
        collect_annotations(&vec![one, two]),
        Err(GenerationError::UnrecognizedAnnotation("one".to_string()))
    );
}

#[test]
fn known_key_in_wrong_form_is_rejected() {
    let name_without_value = RawAnnotation { key: "column_name".to_string(), value: None };
    assert_eq!(
        collect_annotations(&vec![name_without_value]),
        Err(GenerationError::UnrecognizedAnnotation("column_name".to_string()))
    );
    let flag_with_value =
        RawAnnotation { key: "commit_timestamp".to_string(), value: Some("true".to_string()) };
    assert_eq!(
        collect_annotations(&vec![flag_with_value]),
        Err(GenerationError::UnrecognizedAnnotation("commit_timestamp".to_string()))
    );
}

#[test]
fn describe_field_resolves_name_and_flag() {
    assert_eq!(
        describe_field(&field("userId", TypeRef::Text, vec![])),
        Ok(FieldDescriptor {
            identifier: "userId".to_string(),
            column_name: "User Id".to_string(),
            declared_type: TypeRef::Text,
            is_commit_timestamp: false,
        })
    );
    assert_eq!(
        describe_field(&field("updatedAt", TypeRef::Timestamp, vec![flag(), name("UpdatedAt")])),
        Ok(FieldDescriptor {
            identifier: "updatedAt".to_string(),
            column_name: "UpdatedAt".to_string(),
            declared_type: TypeRef::Timestamp,
            is_commit_timestamp: true,
        })
    );
}

#[test]
fn describe_field_keeps_raw_identifier() {
    let described = describe_field(&field("r#type", TypeRef::Int64, vec![])).unwrap();
    assert_eq!(described.identifier, "r#type");
    assert_eq!(described.column_name, "Type");
}

#[test]
fn extraction_follows_declaration_order() {
    let shape = RecordShape::Named(vec![
        field("zeta", TypeRef::Bool, vec![]),
        field("alpha", TypeRef::Int64, vec![name("First")]),
        field("midWay", TypeRef::Bytes, vec![flag()]),
    ]);
    let descriptors = extract_descriptors(&shape).unwrap();
    let identifiers: Vec<&str> = descriptors.iter().map(|d| d.identifier.as_str()).collect();
    let columns: Vec<&str> = descriptors.iter().map(|d| d.column_name.as_str()).collect();
    let types: Vec<TypeRef> = descriptors.iter().map(|d| d.declared_type).collect();
    let flags: Vec<bool> = descriptors.iter().map(|d| d.is_commit_timestamp).collect();
    assert_eq!(identifiers, vec!["zeta", "alpha", "midWay"]);
    assert_eq!(columns, vec!["Zeta", "First", "Mid Way"]);
    assert_eq!(types, vec![TypeRef::Bool, TypeRef::Int64, TypeRef::Bytes]);
    assert_eq!(flags, vec![false, false, true]);
}

#[test]
fn extraction_of_empty_record_is_empty() {
    assert_eq!(extract_descriptors(&RecordShape::Named(vec![])), Ok(vec![]));
}

#[test]
fn extraction_rejects_other_shapes() {
    assert_eq!(extract_descriptors(&RecordShape::Positional), Err(GenerationError::UnsupportedShape));
    assert_eq!(extract_descriptors(&RecordShape::Unit), Err(GenerationError::UnsupportedShape));
}

#[test]
fn extraction_stops_at_first_bad_field() {
    let bad = RawAnnotation { key: "index".to_string(), value: None };
    let worse = RawAnnotation { key: "other".to_string(), value: None };
    let shape = RecordShape::Named(vec![
        field("a", TypeRef::Bool, vec![]),
        field("b", TypeRef::Bool, vec![bad]),
        field("c", TypeRef::Bool, vec![worse]),
    ]);
    assert_eq!(
        extract_descriptors(&shape),
        Err(GenerationError::UnrecognizedAnnotation("index".to_string()))
    );
}

#[test]
fn extraction_is_repeatable() {
    let shape = RecordShape::Named(vec![
        field("userId", TypeRef::Text, vec![]),
        field("r#type", TypeRef::Int64, vec![name("Kind")]),
    ]);
    assert_eq!(extract_descriptors(&shape), extract_descriptors(&shape));
}
