use cloud_mapping::naming::{conventional_name, resolve_column_name, strip_raw_prefix};

#[test]
fn camel_case_identifier_gets_title_case() {
    assert_eq!(resolve_column_name("userId", &None), "User Id");
}

#[test]
fn short_identifier_is_capitalised() {
    assert_eq!(resolve_column_name("id", &None), "Id");
}

#[test]
fn snake_case_identifier_gets_title_case() {
    assert_eq!(resolve_column_name("user_id", &None), "User Id");
    assert_eq!(resolve_column_name("created_at_time", &None), "Created At Time");
}

#[test]
fn explicit_name_is_used_verbatim() {
    let explicit = Some("user_ID".to_string());
    assert_eq!(resolve_column_name("userId", &explicit), "user_ID");
    assert_eq!(resolve_column_name("anything_else", &explicit), "user_ID");
}

#[test]
fn explicit_name_is_not_validated() {
    assert_eq!(resolve_column_name("id", &Some(String::new())), "");
    assert_eq!(resolve_column_name("id", &Some("with space/é".to_string())), "with space/é");
}

#[test]
fn raw_identifier_loses_its_escape() {
    assert_eq!(resolve_column_name("r#type", &None), "Type");
    assert_eq!(conventional_name("r#type"), conventional_name("type"));
}

#[test]
fn resolution_is_repeatable() {
    for identifier in ["userId", "id", "r#type", "some_long_name", ""] {
        for explicit in [None, Some("X".to_string())] {
            let first = resolve_column_name(identifier, &explicit);
            let second = resolve_column_name(identifier, &explicit);
            assert_eq!(first, second);
        }
    }
}

#[test]
fn strip_raw_prefix_removes_one_escape_only() {
    assert_eq!(strip_raw_prefix("r#type"), "type");
    assert_eq!(strip_raw_prefix("type"), "type");
    assert_eq!(strip_raw_prefix("r#"), "");
    assert_eq!(strip_raw_prefix("r"), "r");
    assert_eq!(strip_raw_prefix(""), "");
    assert_eq!(strip_raw_prefix("r#r#x"), "r#x");
    assert_eq!(strip_raw_prefix("ar#x"), "ar#x");
    assert_eq!(strip_raw_prefix("r#é"), "é");
}

#[test]
fn conventional_name_differs_from_identifier() {
    assert_ne!(conventional_name("userId"), "userId");
    assert_eq!(conventional_name("userId"), "User Id");
}
