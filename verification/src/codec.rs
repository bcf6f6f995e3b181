//! The record codec: a preference set as one TOML document.
//!
//! Reading is driven by the schema and tolerant: a field takes the scalar
//! stored under its key when there is one of the field's type, and its default
//! otherwise; keys that no field names are ignored. Writing emits every field
//! under its key. The TOML text itself is parsed and produced by the `toml`
//! crate; the functions here decide what goes into a document and what comes
//! out of one.

use crate::schema::{distinct, keys_of, position_of_key, FieldView, Schema, SchemaView};
use crate::value::{scalars, FieldValue, Scalar};
use vstd::prelude::*;

verus! {

/// `toml::map::Map`, the type behind `toml::Table`: opaque here, reached
/// only through the functions below.
#[verifier::external_type_specification]
#[verifier::external_body]
#[verifier::reject_recursive_types(K)]
#[verifier::reject_recursive_types(V)]
pub struct ExTomlMap<K, V>(toml::map::Map<K, V>);

/// `toml::Value`, an item of a table: opaque here.
#[verifier::external_type_specification]
#[verifier::external_body]
pub struct ExTomlValue(toml::Value);

/// `toml::de::Error`, what the parser reports: opaque here, carried to the
/// caller as it came.
#[verifier::external_type_specification]
#[verifier::external_body]
pub struct ExTomlDecodeError(toml::de::Error);

/// `toml::ser::Error`, what the writer reports: opaque here, carried to the
/// caller as it came.
#[verifier::external_type_specification]
#[verifier::external_body]
pub struct ExTomlEncodeError(toml::ser::Error);

/// What a TOML table holds at its top level: for each key, the scalar stored
/// under it, or `None` where the item is not one of the three scalar types
/// (a float, a date, an array, a table).
pub uninterp spec fn table_items(table: toml::map::Map<String, toml::Value>) -> Map<
    Seq<char>,
    Option<Scalar>,
>;

/// What `toml::from_str` makes of a text: the items of the table it parses to,
/// or `None` where the text is not a TOML document.
pub uninterp spec fn parsed_document(text: Seq<char>) -> Option<Map<Seq<char>, Option<Scalar>>>;

/// What `toml::to_string` makes of a table that holds the given scalars and
/// nothing else: the text, or `None` where it reports an error.
pub uninterp spec fn rendered_document(items: Map<Seq<char>, Option<Scalar>>) -> Option<Seq<char>>;

/// A document without items.
pub open spec fn no_items() -> Map<Seq<char>, Option<Scalar>> {
    Map::empty()
}

/// Every item is a scalar.
pub open spec fn all_scalar(items: Map<Seq<char>, Option<Scalar>>) -> bool {
    forall|key: Seq<char>| items.contains_key(key) ==> (#[trigger] items[key]) is Some
}

/// `toml::map::Map::new`: a table with no items.
#[verifier::external_body]
fn table_new() -> (table: toml::Table)
    ensures
        table_items(table) == no_items(),
{
    toml::map::Map::new()
}

/// `toml::map::Map::insert`: stores `value` under `key`, in place of whatever
/// was stored there, and leaves the other items as they were.
#[verifier::external_body]
fn table_insert(table: &mut toml::Table, key: &str, value: &FieldValue)
    ensures
        table_items(*final(table)) == table_items(*old(table)).insert(key@, Some(value@)),
{
    let item = match value {
        FieldValue::Bool(flag) => toml::Value::Boolean(*flag),
        FieldValue::Int(number) => toml::Value::Integer(*number),
        FieldValue::Text(text) => toml::Value::String(text.clone()),
    };
    table.insert(key.to_string(), item);
}

/// `toml::map::Map::get`: the item stored under `key`. The outer `Option`
/// says whether the table has the key; the inner one holds the item where it
/// is a boolean, an integer or a string.
#[verifier::external_body]
fn table_get(table: &toml::Table, key: &str) -> (found: Option<Option<FieldValue>>)
    ensures
        found is Some <==> table_items(*table).contains_key(key@),
        found matches Some(item) ==> table_items(*table)[key@] == match item {
            Some(value) => Some(value@),
            None => None,
        },
{
    Some(
        match table.get(key)? {
            toml::Value::Boolean(flag) => Some(FieldValue::Bool(*flag)),
            toml::Value::Integer(number) => Some(FieldValue::Int(*number)),
            toml::Value::String(text) => Some(FieldValue::Text(text.clone())),
            toml::Value::Float(_) => None,
            toml::Value::Datetime(_) => None,
            toml::Value::Array(_) => None,
            toml::Value::Table(_) => None,
        },
    )
}

/// `toml::from_str`, at the type `toml::Table`: parses `text` as a TOML
/// document. The outcome depends on the text alone.
#[verifier::external_body]
fn parse_document(text: &str) -> (parsed: Result<toml::Table, toml::de::Error>)
    ensures
        match parsed {
            Ok(table) => parsed_document(text@) == Some(table_items(table)),
            Err(_) => parsed_document(text@) is None,
        },
{
    toml::from_str::<toml::Table>(text)
}

/// `toml::to_string`, on a `toml::Table`: writes the table as a TOML
/// document. For a table of scalars the outcome depends on the items alone;
/// of other tables nothing is claimed.
#[verifier::external_body]
fn render_document(table: &toml::Table) -> (rendered: Result<String, toml::ser::Error>)
    ensures
        all_scalar(table_items(*table)) ==> match rendered {
            Ok(text) => rendered_document(table_items(*table)) == Some(text@),
            Err(_) => rendered_document(table_items(*table)) is None,
        },
{
    toml::to_string(table)
}

/// What a field reads from a document: the scalar under its key where there
/// is one of the field's type, its default otherwise.
pub open spec fn decoded_field(field: FieldView, items: Map<Seq<char>, Option<Scalar>>) -> Scalar {
    if items.contains_key(field.key) {
        match items[field.key] {
            Some(stored) => if stored.kind() == field.kind() {
                stored
            } else {
                field.default
            },
            None => field.default,
        }
    } else {
        field.default
    }
}

/// What a list of fields reads from a document, field by field.
pub open spec fn decoded_values(fields: Seq<FieldView>, items: Map<Seq<char>, Option<Scalar>>) -> Seq<
    Scalar,
> {
    Seq::new(fields.len(), |i: int| decoded_field(fields[i], items))
}

/// The document written for `values`: each value under its field's key, a
/// later field replacing an earlier one that uses the same key.
pub open spec fn encoded_items(fields: Seq<FieldView>, values: Seq<Scalar>) -> Map<
    Seq<char>,
    Option<Scalar>,
>
    decreases fields.len(),
{
    if fields.len() == 0 || values.len() == 0 {
        Map::empty()
    } else {
        encoded_items(fields.drop_last(), values.drop_last()).insert(
            fields.last().key,
            Some(values.last()),
        )
    }
}

/// The document that a schema writes for `values`, as text: `None` where the
/// TOML writer reports an error.
pub open spec fn encoded_text(schema: SchemaView, values: Seq<Scalar>) -> Option<Seq<char>> {
    rendered_document(encoded_items(schema.fields, values))
}

/// What a schema reads from a text: `None` where the text is not a TOML document.
pub open spec fn decoded_text(schema: SchemaView, text: Seq<char>) -> Option<Seq<Scalar>> {
    match parsed_document(text) {
        Some(items) => Some(decoded_values(schema.fields, items)),
        None => None,
    }
}

/// A written document holds exactly the keys of the fields written, each a scalar.
pub proof fn lemma_encoded_items_domain(fields: Seq<FieldView>, values: Seq<Scalar>)
    requires
        fields.len() == values.len(),
    ensures
        all_scalar(encoded_items(fields, values)),
        forall|key: Seq<char>| #[trigger]
            encoded_items(fields, values).contains_key(key) <==> exists|i: int|
                0 <= i < fields.len() && fields[i].key == key,
    decreases fields.len(),
{
    if fields.len() > 0 {
        let front = fields.drop_last();
        lemma_encoded_items_domain(front, values.drop_last());
        assert forall|key: Seq<char>| #[trigger]
            encoded_items(fields, values).contains_key(key) implies exists|i: int|
            0 <= i < fields.len() && fields[i].key == key by {
            if key == fields.last().key {
                assert(fields[fields.len() - 1].key == key);
            } else {
                let i = choose|i: int| 0 <= i < front.len() && front[i].key == key;
                assert(fields[i].key == key);
            }
        }
        assert forall|key: Seq<char>|
            (exists|i: int| 0 <= i < fields.len() && fields[i].key == key) implies #[trigger]
            encoded_items(fields, values).contains_key(key) by {
            let i = choose|i: int| 0 <= i < fields.len() && fields[i].key == key;
            if i < fields.len() - 1 {
                assert(front[i].key == key);
            }
        }
    }
}

/// With distinct keys, a written document holds each value under its field's key.
pub proof fn lemma_encoded_items_at(fields: Seq<FieldView>, values: Seq<Scalar>, i: int)
    requires
        fields.len() == values.len(),
        distinct(keys_of(fields)),
        0 <= i < fields.len(),
    ensures
        encoded_items(fields, values).contains_key(fields[i].key),
        encoded_items(fields, values)[fields[i].key] == Some(values[i]),
    decreases fields.len(),
{
    let last = fields.len() - 1;
    if i < last {
        let front = fields.drop_last();
        assert(keys_of(front) =~= keys_of(fields).drop_last());
        lemma_encoded_items_at(front, values.drop_last(), i);
        assert(keys_of(fields)[i] != keys_of(fields)[last]);
    }
}

/// Round trip: the items that a schema writes for `values` are read back by
/// the same schema as `values`.
pub proof fn lemma_decode_inverts_encode(schema: SchemaView, values: Seq<Scalar>)
    requires
        schema.well_formed(),
        schema.admits(values),
    ensures
        decoded_values(schema.fields, encoded_items(schema.fields, values)) == values,
{
    let items = encoded_items(schema.fields, values);
    assert forall|i: int| 0 <= i < values.len() implies decoded_field(schema.fields[i], items)
        == values[i] by {
        lemma_encoded_items_at(schema.fields, values, i);
    }
    assert(decoded_values(schema.fields, items) =~= values);
}

/// Schema evolution: the items written by one schema and read by another
/// give each field of the reader the value that the writer stored under the
/// same key, where the writer has such a field and it is of the reader's type,
/// and the reader's default everywhere else. A field renamed with its key kept
/// keeps its value, a field the reader dropped is ignored, and a field the
/// reader added shows its default.
pub proof fn lemma_schema_evolution(
    writer: SchemaView,
    values: Seq<Scalar>,
    reader: SchemaView,
    j: int,
)
    requires
        writer.well_formed(),
        writer.admits(values),
        0 <= j < reader.fields.len(),
    ensures
        decoded_values(reader.fields, encoded_items(writer.fields, values))[j] == match position_of_key(
            writer.fields,
            reader.fields[j].key,
        ) {
            Some(i) => if values[i].kind() == reader.fields[j].kind() {
                values[i]
            } else {
                reader.fields[j].default
            },
            None => reader.fields[j].default,
        },
{
    lemma_encoded_items_domain(writer.fields, values);
    match position_of_key(writer.fields, reader.fields[j].key) {
        Some(i) => lemma_encoded_items_at(writer.fields, values, i),
        None => {},
    }
}

/// Reads the fields of `schema` out of a parsed table.
pub fn values_from_table(table: &toml::Table, schema: &Schema) -> (values: Vec<FieldValue>)
    ensures
        scalars(values@) == decoded_values(schema@.fields, table_items(*table)),
        schema@.admits(scalars(values@)),
{
    let ghost items = table_items(*table);
    let mut values: Vec<FieldValue> = Vec::new();
    let mut i: usize = 0;
    while i < schema.len()
        invariant
            i <= schema@.fields.len(),
            values.len() == i,
            items == table_items(*table),
            forall|k: int| 0 <= k < i ==> values@[k]@ == decoded_field(schema@.fields[k], items),
        decreases schema@.fields.len() - i,
    {
        let field = schema.field(i);
        let value = match table_get(table, field.key().as_str()) {
            Some(Some(stored)) => if stored.kind() == field.kind() {
                stored
            } else {
                field.default_value().clone()
            },
            _ => field.default_value().clone(),
        };
        values.push(value);
        i += 1;
    }
    values
}

/// Collects `values` into a table, each under the key of its field.
pub fn table_from_values(schema: &Schema, values: &Vec<FieldValue>) -> (table: toml::Table)
    requires
        values.len() == schema@.fields.len(),
    ensures
        table_items(table) == encoded_items(schema@.fields, scalars(values@)),
{
    let mut table = table_new();
    let mut i: usize = 0;
    while i < schema.len()
        invariant
            i <= schema@.fields.len(),
            values.len() == schema@.fields.len(),
            table_items(table) == encoded_items(
                schema@.fields.take(i as int),
                scalars(values@).take(i as int),
            ),
        decreases schema@.fields.len() - i,
    {
        table_insert(&mut table, schema.field(i).key().as_str(), &values[i]);
        proof {
            let fields = schema@.fields.take(i + 1);
            let written = scalars(values@).take(i + 1);
            assert(fields.drop_last() =~= schema@.fields.take(i as int));
            assert(written.drop_last() =~= scalars(values@).take(i as int));
        }
        i += 1;
    }
    proof {
        assert(schema@.fields.take(i as int) =~= schema@.fields);
        assert(scalars(values@).take(i as int) =~= scalars(values@));
    }
    table
}

/// Decodes stored content against `schema`.
///
/// Fails exactly where `content` is not a TOML document at all. Otherwise
/// every field gets a value: the stored one where the document holds a scalar
/// of the field's type under the field's key, the field's default where it
/// does not.
pub fn decode(content: &str, schema: &Schema) -> (decoded: Result<Vec<FieldValue>, toml::de::Error>)
    ensures
        match decoded {
            Ok(values) => {
                &&& decoded_text(schema@, content@) == Some(scalars(values@))
                &&& schema@.admits(scalars(values@))
            },
            Err(_) => decoded_text(schema@, content@) is None,
        },
{
    match parse_document(content) {
        Ok(table) => Ok(values_from_table(&table, schema)),
        Err(error) => Err(error),
    }
}

/// Encodes `values`, one per field of `schema`, as a TOML document that holds
/// every value under the storage key of its field.
pub fn encode(schema: &Schema, values: &Vec<FieldValue>) -> (encoded: Result<String, toml::ser::Error>)
    requires
        values.len() == schema@.fields.len(),
    ensures
        match encoded {
            Ok(text) => encoded_text(schema@, scalars(values@)) == Some(text@),
            Err(_) => encoded_text(schema@, scalars(values@)) is None,
        },
{
    let table = table_from_values(schema, values);
    proof {
        lemma_encoded_items_domain(schema@.fields, scalars(values@));
    }
    render_document(&table)
}

} // verus!
