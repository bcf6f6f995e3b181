use easy_prefs::record::Record;
use easy_prefs::schema::{Field, Schema};
use easy_prefs::storage::{MemoryStorage, Storage};
use easy_prefs::value::FieldValue;

const VALUE1: usize = 0;
const VALUE2: usize = 1;
const VALUE3: usize = 2;

fn edit_guard_test_prefs() -> Record<MemoryStorage> {
    let schema = Schema::new(
        "EditGuardTestPrefs",
        "edit-guard-test",
        vec![
            Field::new("value1", FieldValue::Int(0), "value1"),
            Field::new("value2", FieldValue::Text(String::new()), "value2"),
            Field::new("value3", FieldValue::Bool(false), "value3"),
        ],
    )
    .unwrap();
    Record::load_testing(schema, MemoryStorage::new("edit-guard")).unwrap()
}

fn stored(prefs: &Record<MemoryStorage>) -> String {
    prefs.storage().read("edit-guard-test.toml").unwrap().unwrap()
}

#[test]
fn test_edit_guard_saves_on_drop() {
    let mut prefs = edit_guard_test_prefs();

    // Use edit guard to make changes
    {
        let mut edit = prefs.edit();
        edit.set(VALUE1, FieldValue::Int(100));
        edit.set(VALUE2, FieldValue::Text("modified".to_string()));
        edit.set(VALUE3, FieldValue::Bool(true));
        let report = edit.finish(0);
        assert_eq!(report.flushed.unwrap(), true);
    }

    // Verify values were saved
    let file_path = prefs.get_preferences_file_path();
    assert!(file_path.contains("edit-guard-test.toml"));
    let contents = stored(&prefs);
    assert!(contents.contains("value1 = 100"));
    assert!(contents.contains("value2 = \"modified\""));
    assert!(contents.contains("value3 = true"));
}

#[test]
fn test_edit_guard_no_save_without_changes() {
    let mut prefs = edit_guard_test_prefs();

    // Set initial values
    prefs.save_field(VALUE1, FieldValue::Int(50)).unwrap();

    let initial_writes = prefs.storage().write_count();
    let initial_contents = stored(&prefs);

    // Use edit guard but don't change anything
    {
        let edit = prefs.edit();
        // Just read values
        let _ = edit.get(VALUE1);
        let _ = edit.get(VALUE2);
        let report = edit.finish(0);
        assert_eq!(report.flushed.unwrap(), false);
    }

    assert_eq!(
        initial_writes,
        prefs.storage().write_count(),
        "File should not be modified without changes"
    );
    assert_eq!(initial_contents, stored(&prefs));
}

#[test]
fn test_edit_guard_only_saves_on_actual_changes() {
    let mut prefs = edit_guard_test_prefs();

    // Set initial value
    prefs.save_field(VALUE1, FieldValue::Int(42)).unwrap();
    let writes = prefs.storage().write_count();

    // Use edit guard to set same value
    {
        let mut edit = prefs.edit();
        edit.set(VALUE1, FieldValue::Int(42)); // Same value
        assert!(!edit.is_modified());
        edit.finish(0);
    }
    assert_eq!(prefs.storage().write_count(), writes);

    // Now make an actual change
    {
        let mut edit = prefs.edit();
        edit.set(VALUE1, FieldValue::Int(43)); // Different value
        assert!(edit.is_modified());
        edit.finish(0);
    }
    assert_eq!(prefs.storage().write_count(), writes + 1);

    // Verify the change
    assert_eq!(prefs.get(VALUE1), &FieldValue::Int(43));
}

#[test]
fn test_edit_guard_warning_on_long_hold() {
    let mut prefs = edit_guard_test_prefs();

    {
        let mut edit = prefs.edit();
        edit.set(VALUE1, FieldValue::Int(100));

        // The guard was held for more than 1 second
        let report = edit.finish(1);
        assert!(report.long_hold);
        assert_eq!(report.flushed.unwrap(), true);
    }

    // Verify the value was still saved
    assert_eq!(prefs.get(VALUE1), &FieldValue::Int(100));
    assert!(stored(&prefs).contains("value1 = 100"));
}

#[test]
fn test_edit_guard_hold_limit_can_be_set() {
    let mut prefs = edit_guard_test_prefs();
    let mut edit = prefs.edit();
    assert_eq!(edit.hold_limit_secs, 1);
    edit.hold_limit_secs = 30;
    assert!(!edit.finish(29).long_hold);
    let mut edit = prefs.edit();
    edit.hold_limit_secs = 30;
    assert!(edit.finish(30).long_hold);
}

#[test]
fn test_edit_guard_short_hold_is_not_reported() {
    let mut prefs = edit_guard_test_prefs();
    let report = prefs.edit().finish(0);
    assert!(!report.long_hold);
}

#[test]
fn test_edit_guard_three_fields_one_write() {
    let mut prefs = edit_guard_test_prefs();
    let writes = prefs.storage().write_count();
    {
        let mut edit = prefs.edit();
        edit.set(VALUE1, FieldValue::Int(7));
        edit.set(VALUE2, FieldValue::Text("seven".to_string()));
        edit.set(VALUE3, FieldValue::Bool(true));
        // changes are visible inside the transaction, before anything is written
        assert_eq!(edit.get(VALUE1), &FieldValue::Int(7));
        edit.finish(0);
    }
    assert_eq!(prefs.storage().write_count(), writes + 1);
    let contents = stored(&prefs);
    assert!(contents.contains("value1 = 7"));
    assert!(contents.contains("value2 = \"seven\""));
    assert!(contents.contains("value3 = true"));
}

#[test]
fn test_edit_guard_unfinished_changes_stay_in_memory() {
    let mut prefs = edit_guard_test_prefs();
    let writes = prefs.storage().write_count();
    {
        let mut edit = prefs.edit();
        edit.set(VALUE1, FieldValue::Int(9));
    }
    assert_eq!(prefs.get(VALUE1), &FieldValue::Int(9));
    assert_eq!(prefs.storage().write_count(), writes);
}
