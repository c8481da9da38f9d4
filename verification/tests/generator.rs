use cloud_mapping::descriptor::{
    FieldDescriptor, FieldSpec, GenerationError, RawAnnotation, RecordShape, TypeRef,
};
use cloud_mapping::generator::{emit_methods, generate_table_methods, TableMethods};
use cloud_mapping::mapping::{has_distinct_columns, CellSource, LogicalType};

fn spec(identifier: &str, declared_type: TypeRef, annotations: Vec<RawAnnotation>) -> FieldSpec {
    FieldSpec { identifier: identifier.to_string(), declared_type, annotations }
}

fn renamed(value: &str) -> RawAnnotation {
    RawAnnotation { key: "column_name".to_string(), value: Some(value.to_string()) }
}

fn stamped() -> RawAnnotation {
    RawAnnotation { key: "commit_timestamp".to_string(), value: None }
}

#[test]
fn generation_emits_three_plans_in_field_order() {
    let shape = RecordShape::Named(vec![
        spec("userId", TypeRef::Text, vec![]),
        spec("r#type", TypeRef::Int64, vec![renamed("Kind")]),
        spec("updated_at", TypeRef::Timestamp, vec![stamped()]),
    ]);
    assert_eq!(
        generate_table_methods(&shape),
        Ok(TableMethods {
            to_kinds: vec![
                ("User Id".to_string(), CellSource::FieldValue),
                ("Kind".to_string(), CellSource::FieldValue),
                ("Updated At".to_string(), CellSource::ServerTime),
            ],
            get_types: vec![
                ("User Id".to_string(), LogicalType::Declared(TypeRef::Text)),
                ("Kind".to_string(), LogicalType::Declared(TypeRef::Int64)),
                ("Updated At".to_string(), LogicalType::CommitTimestamp),
            ],
            try_from: vec![
                ("userId".to_string(), "User Id".to_string()),
                ("r#type".to_string(), "Kind".to_string()),
                ("updated_at".to_string(), "Updated At".to_string()),
            ],
        })
    );
}

#[test]
fn generation_of_empty_record_is_empty() {
    assert_eq!(
        generate_table_methods(&RecordShape::Named(vec![])),
        Ok(TableMethods { to_kinds: vec![], get_types: vec![], try_from: vec![] })
    );
}

#[test]
fn generation_emits_nothing_on_error() {
    assert_eq!(generate_table_methods(&RecordShape::Unit), Err(GenerationError::UnsupportedShape));
    assert_eq!(
        generate_table_methods(&RecordShape::Positional),
        Err(GenerationError::UnsupportedShape)
    );
    let odd = RawAnnotation { key: "size".to_string(), value: Some("3".to_string()) };
    let shape = RecordShape::Named(vec![
        spec("a", TypeRef::Bool, vec![]),
        spec("b", TypeRef::Bool, vec![stamped(), odd]),
    ]);
    assert_eq!(
        generate_table_methods(&shape),
        Err(GenerationError::UnrecognizedAnnotation("size".to_string()))
    );
}

#[test]
fn generation_is_repeatable() {
    let shape = RecordShape::Named(vec![
        spec("firstName", TypeRef::Text, vec![]),
        spec("stamp", TypeRef::Timestamp, vec![stamped(), renamed("Stamp")]),
    ]);
    assert_eq!(generate_table_methods(&shape), generate_table_methods(&shape));
}

#[test]
fn emit_methods_keeps_duplicate_columns() {
    let descriptors = vec![
        FieldDescriptor {
            identifier: "a".to_string(),
            column_name: "Same".to_string(),
            declared_type: TypeRef::Bool,
            is_commit_timestamp: false,
        },
        FieldDescriptor {
            identifier: "b".to_string(),
            column_name: "Same".to_string(),
            declared_type: TypeRef::Bytes,
            is_commit_timestamp: true,
        },
    ];
    let methods = emit_methods(&descriptors);
    assert_eq!(
        methods.try_from,
        vec![("a".to_string(), "Same".to_string()), ("b".to_string(), "Same".to_string())]
    );
    assert_eq!(
        methods.to_kinds,
        vec![
            ("Same".to_string(), CellSource::FieldValue),
            ("Same".to_string(), CellSource::ServerTime)
        ]
    );
    assert!(!has_distinct_columns(&descriptors));
    assert!(has_distinct_columns(&descriptors[..1].to_vec()));
    assert!(has_distinct_columns(&vec![]));
}

#[test]
fn distinct_columns_are_told_apart_by_case() {
    let descriptors = vec![
        FieldDescriptor {
            identifier: "a".to_string(),
            column_name: "Name".to_string(),
            declared_type: TypeRef::Bool,
            is_commit_timestamp: false,
        },
        FieldDescriptor {
            identifier: "b".to_string(),
            column_name: "name".to_string(),
            declared_type: TypeRef::Bool,
            is_commit_timestamp: false,
        },
        FieldDescriptor {
            identifier: "c".to_string(),
            column_name: "Other".to_string(),
            declared_type: TypeRef::Bool,
            is_commit_timestamp: false,
        },
    ];
    assert!(has_distinct_columns(&descriptors));
    let mut repeated = descriptors.clone();
    repeated[2].column_name = "Name".to_string();
    assert!(!has_distinct_columns(&repeated));
}
