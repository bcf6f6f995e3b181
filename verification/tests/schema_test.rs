use easy_prefs::schema::{Field, Schema, SchemaError};
use easy_prefs::value::{FieldType, FieldValue};

fn fields() -> Vec<Field> {
    vec![
        Field::new("dark_mode", FieldValue::Bool(false), "dark_mode"),
        Field::new("font_size", FieldValue::Int(14), "font_size"),
        Field::new("notifications_enabled", FieldValue::Bool(true), "notifications"),
        Field::new("username", FieldValue::Text("guest".to_string()), "username"),
    ]
}

#[test]
fn test_schema_keeps_names_keys_and_defaults() {
    let schema = Schema::new("AppPrefs", "app-settings", fields()).unwrap();
    assert_eq!(schema.name(), "AppPrefs");
    assert_eq!(schema.file_name(), "app-settings.toml");
    assert_eq!(schema.len(), 4);
    let field = schema.field(2);
    assert_eq!(field.name(), "notifications_enabled");
    assert_eq!(field.key(), "notifications");
    assert_eq!(field.default_value(), &FieldValue::Bool(true));
    assert_eq!(field.kind(), FieldType::Bool);
    assert_eq!(schema.field(1).kind(), FieldType::Int);
    assert_eq!(schema.field(3).kind(), FieldType::Text);
}

#[test]
fn test_schema_position_finds_fields_by_name() {
    let schema = Schema::new("AppPrefs", "app-settings", fields()).unwrap();
    assert_eq!(schema.position("dark_mode"), Some(0));
    assert_eq!(schema.position("username"), Some(3));
    // the storage key is not the name
    assert_eq!(schema.position("notifications"), None);
    assert_eq!(schema.position(""), None);
}

#[test]
fn test_schema_defaults_in_field_order() {
    let schema = Schema::new("AppPrefs", "app-settings", fields()).unwrap();
    assert_eq!(
        schema.defaults(),
        vec![
            FieldValue::Bool(false),
            FieldValue::Int(14),
            FieldValue::Bool(true),
            FieldValue::Text("guest".to_string()),
        ]
    );
}

#[test]
fn test_schema_without_fields() {
    let schema = Schema::new("Empty", "empty", Vec::new()).unwrap();
    assert_eq!(schema.len(), 0);
    assert_eq!(schema.defaults(), Vec::new());
    assert_eq!(schema.file_name(), "empty.toml");
}

#[test]
fn test_duplicate_storage_key_is_refused() {
    let mut fields = fields();
    fields.push(Field::new("size", FieldValue::Int(1), "font_size"));
    fields.push(Field::new("mode", FieldValue::Int(1), "dark_mode"));
    match Schema::new("AppPrefs", "app-settings", fields) {
        Err(SchemaError::DuplicateKey { key, field }) => {
            // the first field whose key was seen before
            assert_eq!(key, "font_size");
            assert_eq!(field, "size");
        }
        other => panic!("expected a duplicate key, got {:?}", other),
    }
}

#[test]
fn test_duplicate_name_is_refused() {
    let mut fields = fields();
    fields.push(Field::new("username", FieldValue::Int(1), "user"));
    match Schema::new("AppPrefs", "app-settings", fields) {
        Err(SchemaError::DuplicateName { name }) => assert_eq!(name, "username"),
        other => panic!("expected a duplicate name, got {:?}", other),
    }
}

#[test]
fn test_duplicate_key_is_reported_before_duplicate_name() {
    let fields = vec![
        Field::new("a", FieldValue::Int(1), "x"),
        Field::new("a", FieldValue::Int(1), "y"),
        Field::new("b", FieldValue::Int(1), "y"),
    ];
    assert!(matches!(
        Schema::new("S", "s", fields),
        Err(SchemaError::DuplicateKey { .. })
    ));
}

#[test]
fn test_values_compare_by_content() {
    assert_eq!(FieldValue::Int(3), FieldValue::Int(3));
    assert_ne!(FieldValue::Int(3), FieldValue::Int(4));
    assert_ne!(FieldValue::Int(1), FieldValue::Bool(true));
    assert_eq!(FieldValue::Text("a".to_string()), FieldValue::Text("a".to_string()));
    assert_ne!(FieldValue::Text("a".to_string()), FieldValue::Text("b".to_string()));
    assert_eq!(FieldValue::Text("a".to_string()).clone(), FieldValue::Text("a".to_string()));
    assert_eq!(FieldValue::Bool(true).kind(), FieldType::Bool);
    assert_eq!(FieldValue::Int(0).kind(), FieldType::Int);
    assert_eq!(FieldValue::Text(String::new()).kind(), FieldType::Text);
}
