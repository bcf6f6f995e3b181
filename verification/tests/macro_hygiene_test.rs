use easy_prefs::record::Record;
use easy_prefs::schema::{Field, Schema};
use easy_prefs::storage::{create_storage, MemoryStorage, Target};
use easy_prefs::value::FieldValue;

fn macro_hygiene_schema() -> Schema {
    Schema::new(
        "MacroHygieneTest",
        "macro-hygiene-test",
        vec![Field::new("test_field", FieldValue::Bool(false), "test_field")],
    )
    .unwrap()
}

#[test]
fn test_macro_hygiene() {
    let mut prefs =
        Record::load_testing(macro_hygiene_schema(), MemoryStorage::new("hygiene")).unwrap();

    {
        let mut edit = prefs.edit();
        edit.set(0, FieldValue::Bool(true));
        edit.finish(0);
    }

    assert_eq!(prefs.get(0), &FieldValue::Bool(true));
}

#[test]
fn test_macro_hygiene_wasm() {
    let mut prefs =
        Record::load_testing(macro_hygiene_schema(), MemoryStorage::new("hygiene-web")).unwrap();

    {
        let mut edit = prefs.edit();
        edit.set(0, FieldValue::Bool(true));
        edit.finish(0);
    }

    assert_eq!(prefs.get(0), &FieldValue::Bool(true));

    // in a browser the record is addressed inside the application's namespace
    let backend = create_storage(Target::Browser, "hygiene-web");
    let path = backend.get_path(prefs.schema_ref().file_name());
    assert!(path.starts_with("localStorage::"));
    assert!(path.ends_with("macro-hygiene-test.toml"));
}
