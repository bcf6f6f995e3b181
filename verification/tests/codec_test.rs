use easy_prefs::codec::{decode, encode, table_from_values, values_from_table};
use easy_prefs::schema::{Field, Schema};
use easy_prefs::value::FieldValue;

fn text(value: &str) -> FieldValue {
    FieldValue::Text(value.to_string())
}

fn schema() -> Schema {
    Schema::new(
        "Codec",
        "codec",
        vec![
            Field::new("enabled", FieldValue::Bool(true), "enabled"),
            Field::new("count", FieldValue::Int(42), "count"),
            Field::new("title", text("default"), "display-title"),
        ],
    )
    .unwrap()
}

#[test]
fn test_encode_writes_every_field_under_its_key() {
    let values = vec![FieldValue::Bool(false), FieldValue::Int(-7), text("hi")];
    let encoded = encode(&schema(), &values).unwrap();
    assert_eq!(encoded, "count = -7\ndisplay-title = \"hi\"\nenabled = false\n");
}

#[test]
fn test_encode_of_no_fields_is_empty() {
    let empty = Schema::new("Empty", "empty", Vec::new()).unwrap();
    assert_eq!(encode(&empty, &Vec::new()).unwrap(), "");
}

#[test]
fn test_decode_reads_stored_values() {
    let content = "enabled = false\ncount = 7\ndisplay-title = \"stored\"\n";
    assert_eq!(
        decode(content, &schema()).unwrap(),
        vec![FieldValue::Bool(false), FieldValue::Int(7), text("stored")]
    );
}

#[test]
fn test_decode_of_an_empty_document_gives_the_defaults() {
    assert_eq!(decode("", &schema()).unwrap(), schema().defaults());
    assert_eq!(
        decode("# nothing but a comment\n", &schema()).unwrap(),
        schema().defaults()
    );
}

#[test]
fn test_decode_fills_missing_fields_and_ignores_unknown_keys() {
    let content = "count = 1\nunknown = \"x\"\n[section]\ninner = 2\n";
    assert_eq!(
        decode(content, &schema()).unwrap(),
        vec![FieldValue::Bool(true), FieldValue::Int(1), text("default")]
    );
}

#[test]
fn test_decode_goes_by_the_key_not_the_name() {
    // `title` is the field's name; it is stored under `display-title`
    let content = "title = \"by name\"\n";
    assert_eq!(decode(content, &schema()).unwrap()[2], text("default"));
}

#[test]
fn test_decode_takes_the_default_where_the_type_differs() {
    let content = "enabled = 1\ncount = \"many\"\ndisplay-title = true\n";
    assert_eq!(decode(content, &schema()).unwrap(), schema().defaults());
    let content = "enabled = false\ncount = 1.5\ndisplay-title = [\"a\"]\n";
    assert_eq!(
        decode(content, &schema()).unwrap(),
        vec![FieldValue::Bool(false), FieldValue::Int(42), text("default")]
    );
}

#[test]
fn test_decode_fails_on_text_that_is_not_toml() {
    assert!(decode("invalid toml content [[[", &schema()).is_err());
    assert!(decode("count = ", &schema()).is_err());
    assert!(decode("count = 1\ncount = 2\n", &schema()).is_err());
}

#[test]
fn test_round_trip_through_text() {
    let cases = vec![
        vec![FieldValue::Bool(true), FieldValue::Int(0), text("")],
        vec![FieldValue::Bool(false), FieldValue::Int(i64::MAX), text("plain")],
        vec![FieldValue::Bool(false), FieldValue::Int(i64::MIN), text("two\nlines\t\"quoted\" \\")],
        vec![FieldValue::Bool(true), FieldValue::Int(-1), text("ünïcödé ✓ = [table]")],
    ];
    for values in cases {
        let encoded = encode(&schema(), &values).unwrap();
        assert_eq!(decode(&encoded, &schema()).unwrap(), values);
    }
}

#[test]
fn test_values_from_table_reads_an_outside_table() {
    let mut table = toml::Table::new();
    table.insert("count".to_string(), toml::Value::Integer(9));
    table.insert("enabled".to_string(), toml::Value::String("yes".to_string()));
    table.insert("other".to_string(), toml::Value::Boolean(true));
    assert_eq!(
        values_from_table(&table, &schema()),
        vec![FieldValue::Bool(true), FieldValue::Int(9), text("default")]
    );
    assert_eq!(values_from_table(&toml::Table::new(), &schema()), schema().defaults());
}

#[test]
fn test_table_from_values_builds_an_outside_table() {
    let values = vec![FieldValue::Bool(false), FieldValue::Int(3), text("t")];
    let table = table_from_values(&schema(), &values);
    assert_eq!(table.len(), 3);
    assert_eq!(table.get("enabled"), Some(&toml::Value::Boolean(false)));
    assert_eq!(table.get("count"), Some(&toml::Value::Integer(3)));
    assert_eq!(table.get("display-title"), Some(&toml::Value::String("t".to_string())));
    assert_eq!(values_from_table(&table, &schema()), values);
}

#[test]
fn test_document_written_by_one_schema_read_by_another() {
    let writer = schema();
    let reader = Schema::new(
        "CodecNext",
        "codec",
        vec![
            // renamed, key kept
            Field::new("active", FieldValue::Bool(true), "enabled"),
            // key kept, type changed
            Field::new("count", text("none"), "count"),
            // added
            Field::new("subtitle", text("new"), "subtitle"),
        ],
    )
    .unwrap();
    let encoded = encode(&writer, &vec![FieldValue::Bool(false), FieldValue::Int(5), text("t")])
        .unwrap();
    assert_eq!(
        decode(&encoded, &reader).unwrap(),
        vec![FieldValue::Bool(false), text("none"), text("new")]
    );
}
