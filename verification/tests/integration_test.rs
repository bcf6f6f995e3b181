use easy_prefs::record::Record;
use easy_prefs::schema::{Field, Schema};
use easy_prefs::storage::{MemoryStorage, Storage};
use easy_prefs::value::FieldValue;

fn text(value: &str) -> FieldValue {
    FieldValue::Text(value.to_string())
}

fn app_settings() -> Schema {
    Schema::new(
        "AppSettings",
        "app-settings",
        vec![
            Field::new("username", text("guest"), "username"),
            Field::new("email", text(""), "email"),
            Field::new("age", FieldValue::Int(0), "age"),
            Field::new("dark_mode", FieldValue::Bool(false), "dark_mode"),
            Field::new("font_size", FieldValue::Int(14), "font_size"),
            Field::new("window_width", FieldValue::Int(800), "window_width"),
            Field::new("window_height", FieldValue::Int(600), "window_height"),
            Field::new("notifications_enabled", FieldValue::Bool(true), "notifications"),
            Field::new("auto_save", FieldValue::Bool(true), "auto_save"),
            Field::new("telemetry", FieldValue::Bool(false), "telemetry"),
        ],
    )
    .unwrap()
}

fn load_testing() -> Record<MemoryStorage> {
    Record::load_testing(app_settings(), MemoryStorage::new("testing")).unwrap()
}

fn at(record: &Record<MemoryStorage>, name: &str) -> usize {
    record.schema_ref().position(name).unwrap()
}

#[test]
fn test_complete_workflow() {
    let mut settings = load_testing();
    let username = at(&settings, "username");
    let email = at(&settings, "email");
    let age = at(&settings, "age");
    let dark_mode = at(&settings, "dark_mode");
    let font_size = at(&settings, "font_size");
    let window_width = at(&settings, "window_width");
    let window_height = at(&settings, "window_height");
    let telemetry = at(&settings, "telemetry");

    // Verify defaults
    assert_eq!(settings.get(username), &text("guest"));
    assert_eq!(settings.get(dark_mode), &FieldValue::Bool(false));
    assert_eq!(settings.get(font_size), &FieldValue::Int(14));

    // Update individual fields
    settings.save_field(username, text("alice")).unwrap();
    settings.save_field(dark_mode, FieldValue::Bool(true)).unwrap();

    // Batch update with edit guard
    {
        let mut edit = settings.edit();
        edit.set(email, text("alice@example.com"));
        edit.set(age, FieldValue::Int(25));
        edit.set(window_width, FieldValue::Int(1920));
        edit.set(window_height, FieldValue::Int(1080));
        edit.set(telemetry, FieldValue::Bool(true));
        edit.finish(0);
    }

    // Verify all changes
    assert_eq!(settings.get(username), &text("alice"));
    assert_eq!(settings.get(email), &text("alice@example.com"));
    assert_eq!(settings.get(age), &FieldValue::Int(25));
    assert_eq!(settings.get(dark_mode), &FieldValue::Bool(true));
    assert_eq!(settings.get(window_width), &FieldValue::Int(1920));
    assert_eq!(settings.get(window_height), &FieldValue::Int(1080));
    assert_eq!(settings.get(telemetry), &FieldValue::Bool(true));

    // Test serialization
    let serialized = settings.to_string().unwrap();
    assert!(serialized.contains("username = \"alice\""));
    assert!(serialized.contains("dark_mode = true"));
    assert!(serialized.contains("window_width = 1920"));
}

#[test]
fn test_preferences_file_path() {
    let settings = load_testing();
    let path = settings.get_preferences_file_path();

    // Path should contain the preferences filename
    assert!(path.contains("app-settings"));
    assert!(path.contains(".toml"));
}

#[test]
fn test_no_unnecessary_saves() {
    let mut settings = load_testing();
    let font_size = at(&settings, "font_size");

    // Set a value
    settings.save_field(font_size, FieldValue::Int(16)).unwrap();
    let writes = settings.storage().write_count();

    // Setting the same value again should not trigger a save
    settings.save_field(font_size, FieldValue::Int(16)).unwrap();
    assert_eq!(settings.storage().write_count(), writes);

    // Edit guard should also not save if no changes
    {
        let mut edit = settings.edit();
        let current = edit.get(font_size).clone();
        edit.set(font_size, current); // Same value
        let report = edit.finish(0);
        assert_eq!(report.flushed.unwrap(), false);
    }
    assert_eq!(settings.storage().write_count(), writes);
}

#[test]
fn test_type_safety() {
    let settings = load_testing();

    // These should all be the correct types
    let _username: &FieldValue = settings.get(at(&settings, "username"));
    let _dark_mode: &FieldValue = settings.get(at(&settings, "dark_mode"));
    let _font_size: &FieldValue = settings.get(at(&settings, "font_size"));
    assert!(matches!(_username, FieldValue::Text(_)));
    assert!(matches!(_dark_mode, FieldValue::Bool(_)));
    assert!(matches!(_font_size, FieldValue::Int(_)));
}

#[test]
fn test_saved_content_is_what_storage_holds() {
    let mut settings = load_testing();
    let age = at(&settings, "age");
    settings.save_field(age, FieldValue::Int(31)).unwrap();
    let stored = settings.storage().read("app-settings.toml").unwrap().unwrap();
    assert_eq!(stored, settings.to_string().unwrap());
    assert!(stored.contains("age = 31"));
    // the field stored under another key than its name is written under the key
    assert!(stored.contains("notifications = true"));
    assert!(!stored.contains("notifications_enabled"));
}
