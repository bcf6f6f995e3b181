//! The description of a preference set: its identity, its record name and
//! its ordered, typed, defaulted fields.

use crate::value::{scalars, FieldType, FieldValue, Scalar};
use vstd::prelude::*;
use vstd::string::StringExecFns;

verus! {

/// The mathematical content of a [`Field`].
pub struct FieldView {
    pub name: Seq<char>,
    pub key: Seq<char>,
    pub default: Scalar,
}

impl FieldView {
    /// The semantic type of the field: that of its default.
    pub open spec fn kind(self) -> FieldType {
        self.default.kind()
    }
}

/// One field of a preference set: its in-memory name, the value it takes when
/// nothing is stored, and the stable key under which it is persisted.
#[derive(Debug)]
pub struct Field {
    name: String,
    key: String,
    default: FieldValue,
}

impl View for Field {
    type V = FieldView;

    closed spec fn view(&self) -> FieldView {
        FieldView { name: self.name@, key: self.key@, default: self.default@ }
    }
}

impl Field {
    /// Declares a field called `name`, with the given default, stored under `key`.
    pub fn new(name: &str, default: FieldValue, key: &str) -> (field: Field)
        ensures
            field@ == (FieldView { name: name@, key: key@, default: default@ }),
    {
        Field { name: String::from_str(name), key: String::from_str(key), default }
    }

    pub fn name(&self) -> (name: &String)
        ensures
            name@ == self@.name,
    {
        &self.name
    }

    pub fn key(&self) -> (key: &String)
        ensures
            key@ == self@.key,
    {
        &self.key
    }

    pub fn default_value(&self) -> (value: &FieldValue)
        ensures
            value@ == self@.default,
    {
        &self.default
    }

    pub fn kind(&self) -> (kind: FieldType)
        ensures
            kind == self@.kind(),
    {
        self.default.kind()
    }
}

impl Clone for Field {
    fn clone(&self) -> (copy: Field)
        ensures
            copy@ == self@,
    {
        Field { name: self.name.clone(), key: self.key.clone(), default: self.default.clone() }
    }
}

/// The views of a list of fields, in order.
pub open spec fn field_views(fields: Seq<Field>) -> Seq<FieldView> {
    fields.map_values(|f: Field| f@)
}

/// The storage keys of a list of fields, in order.
pub open spec fn keys_of(fields: Seq<FieldView>) -> Seq<Seq<char>> {
    fields.map_values(|f: FieldView| f.key)
}

/// The names of a list of fields, in order.
pub open spec fn names_of(fields: Seq<FieldView>) -> Seq<Seq<char>> {
    fields.map_values(|f: FieldView| f.name)
}

/// The defaults of a list of fields, in order.
pub open spec fn defaults_of(fields: Seq<FieldView>) -> Seq<Scalar> {
    fields.map_values(|f: FieldView| f.default)
}

/// No text occurs twice in `texts`.
pub open spec fn distinct(texts: Seq<Seq<char>>) -> bool {
    forall|i: int, j: int| 0 <= i < j < texts.len() ==> texts[i] != texts[j]
}

/// The text at position `j` already occurs before position `j`.
pub open spec fn repeats_earlier(texts: Seq<Seq<char>>, j: int) -> bool {
    exists|i: int| 0 <= i < j && texts[i] == texts[j]
}

/// Position `j` is the first one whose text repeats an earlier one.
pub open spec fn first_repeat(texts: Seq<Seq<char>>, j: int) -> bool {
    &&& 0 <= j < texts.len()
    &&& repeats_earlier(texts, j)
    &&& forall|k: int| 0 <= k < j ==> !repeats_earlier(texts, k)
}

/// The position of the field called `name`, if the list declares one.
pub open spec fn position_of(fields: Seq<FieldView>, name: Seq<char>) -> Option<int> {
    if exists|i: int| 0 <= i < fields.len() && fields[i].name == name {
        Some(choose|i: int| 0 <= i < fields.len() && fields[i].name == name)
    } else {
        None
    }
}

/// The position of the field stored under `key`, if the list declares one.
pub open spec fn position_of_key(fields: Seq<FieldView>, key: Seq<char>) -> Option<int> {
    if exists|i: int| 0 <= i < fields.len() && fields[i].key == key {
        Some(choose|i: int| 0 <= i < fields.len() && fields[i].key == key)
    } else {
        None
    }
}

/// The mathematical content of a [`Schema`].
pub struct SchemaView {
    pub name: Seq<char>,
    pub file_name: Seq<char>,
    pub fields: Seq<FieldView>,
}

impl SchemaView {
    /// Storage keys and field names are each unique within the schema.
    pub open spec fn well_formed(self) -> bool {
        &&& distinct(keys_of(self.fields))
        &&& distinct(names_of(self.fields))
    }

    /// `values` holds one value per field, each of the field's declared type.
    pub open spec fn admits(self, values: Seq<Scalar>) -> bool {
        &&& values.len() == self.fields.len()
        &&& forall|i: int| 0 <= i < values.len() ==> values[i].kind() == self.fields[i].kind()
    }

    /// The value of every field when nothing is stored.
    pub open spec fn defaults(self) -> Seq<Scalar> {
        defaults_of(self.fields)
    }
}

/// Why a list of fields cannot form a schema.
#[derive(Debug)]
pub enum SchemaError {
    /// The field `field` is stored under `key`, which an earlier field already uses.
    DuplicateKey { key: String, field: String },
    /// The name `name` is declared more than once.
    DuplicateName { name: String },
}

/// The extension that turns a schema's base name into its record name.
pub const FILE_EXTENSION: &'static str = ".toml";

/// The ordered, typed, defaulted field description of one preference set.
///
/// Storage keys and field names are unique: a list with a duplicate cannot be
/// made into a schema.
#[derive(Debug)]
pub struct Schema {
    name: String,
    file_name: String,
    fields: Vec<Field>,
}

impl View for Schema {
    type V = SchemaView;

    closed spec fn view(&self) -> SchemaView {
        SchemaView {
            name: self.name@,
            file_name: self.file_name@,
            fields: field_views(self.fields@),
        }
    }
}

/// Searches `texts[..upto]` for `texts[upto]`.
fn occurs_before(fields: &Vec<Field>, upto: usize, by_key: bool) -> (found: bool)
    requires
        upto < fields.len(),
    ensures
        found == repeats_earlier(
            if by_key {
                keys_of(field_views(fields@))
            } else {
                names_of(field_views(fields@))
            },
            upto as int,
        ),
{
    let ghost texts = if by_key {
        keys_of(field_views(fields@))
    } else {
        names_of(field_views(fields@))
    };
    let mut i: usize = 0;
    while i < upto
        invariant
            i <= upto < fields.len(),
            texts == if by_key {
                keys_of(field_views(fields@))
            } else {
                names_of(field_views(fields@))
            },
            forall|k: int| 0 <= k < i ==> texts[k] != texts[upto as int],
        decreases upto - i,
    {
        let same = if by_key {
            fields[i].key == fields[upto].key
        } else {
            fields[i].name == fields[upto].name
        };
        if same {
            assert(texts[i as int] == texts[upto as int]);
            return true;
        }
        i += 1;
    }
    false
}

/// Finds the first position whose key (or name) repeats an earlier one.
fn find_repeat(fields: &Vec<Field>, by_key: bool) -> (at: Option<usize>)
    ensures
        match at {
            Some(j) => first_repeat(
                if by_key {
                    keys_of(field_views(fields@))
                } else {
                    names_of(field_views(fields@))
                },
                j as int,
            ),
            None => distinct(
                if by_key {
                    keys_of(field_views(fields@))
                } else {
                    names_of(field_views(fields@))
                },
            ),
        },
{
    let ghost texts = if by_key {
        keys_of(field_views(fields@))
    } else {
        names_of(field_views(fields@))
    };
    let mut j: usize = 0;
    while j < fields.len()
        invariant
            j <= fields.len(),
            texts == if by_key {
                keys_of(field_views(fields@))
            } else {
                names_of(field_views(fields@))
            },
            forall|k: int| 0 <= k < j ==> !repeats_earlier(texts, k),
        decreases fields.len() - j,
    {
        if occurs_before(fields, j, by_key) {
            return Some(j);
        }
        j += 1;
    }
    assert forall|a: int, b: int| 0 <= a < b < texts.len() implies texts[a] != texts[b] by {
        assert(!repeats_earlier(texts, b));
    }
    None
}

impl Schema {
    /// The invariant that every schema carries.
    #[verifier::type_invariant]
    pub open spec fn inv(self) -> bool {
        self@.well_formed()
    }

    /// Registers a preference set called `name`, persisted as one record named
    /// `base_name` followed by [`FILE_EXTENSION`].
    ///
    /// Fails on the first field whose storage key repeats that of an earlier
    /// field; with all keys distinct, on the first field whose name repeats.
    pub fn new(name: &str, base_name: &str, fields: Vec<Field>) -> (made: Result<Schema, SchemaError>)
        ensures
            made is Ok <==> distinct(keys_of(field_views(fields@))) && distinct(
                names_of(field_views(fields@)),
            ),
            made matches Ok(schema) ==> {
                &&& schema@.name == name@
                &&& schema@.file_name == base_name@ + FILE_EXTENSION@
                &&& schema@.fields == field_views(fields@)
                &&& schema@.well_formed()
            },
            made matches Err(SchemaError::DuplicateKey { key, field }) ==> exists|j: int|
                {
                    &&& #[trigger] first_repeat(keys_of(field_views(fields@)), j)
                    &&& key@ == fields@[j]@.key
                    &&& field@ == fields@[j]@.name
                },
            made matches Err(SchemaError::DuplicateName { name: repeated }) ==> {
                &&& distinct(keys_of(field_views(fields@)))
                &&& exists|j: int|
                    {
                        &&& #[trigger] first_repeat(names_of(field_views(fields@)), j)
                        &&& repeated@ == fields@[j]@.name
                    }
            },
    {
        match find_repeat(&fields, true) {
            Some(j) => {
                return Err(
                    SchemaError::DuplicateKey {
                        key: fields[j].key.clone(),
                        field: fields[j].name.clone(),
                    },
                );
            },
            None => {},
        }
        match find_repeat(&fields, false) {
            Some(j) => {
                return Err(SchemaError::DuplicateName { name: fields[j].name.clone() });
            },
            None => {},
        }
        let file_name = String::from_str(base_name).concat(FILE_EXTENSION);
        Ok(Schema { name: String::from_str(name), file_name, fields })
    }

    /// The schema's identity: what the instance lock is keyed by.
    pub fn name(&self) -> (name: &String)
        ensures
            name@ == self@.name,
    {
        &self.name
    }

    /// The name of the record that holds this preference set in storage.
    pub fn file_name(&self) -> (file_name: &String)
        ensures
            file_name@ == self@.file_name,
    {
        &self.file_name
    }

    /// The number of fields.
    pub fn len(&self) -> (n: usize)
        ensures
            n == self@.fields.len(),
    {
        self.fields.len()
    }

    /// The field at `index`.
    pub fn field(&self, index: usize) -> (field: &Field)
        requires
            index < self@.fields.len(),
        ensures
            field@ == self@.fields[index as int],
    {
        &self.fields[index]
    }

    /// The position of the field called `name`: `None` if the schema declares
    /// no such field.
    pub fn position(&self, name: &str) -> (at: Option<usize>)
        ensures
            self@.well_formed(),
            match at {
                Some(i) => {
                    &&& position_of(self@.fields, name@) == Some(i as int)
                    &&& i < self@.fields.len()
                    &&& self@.fields[i as int].name == name@
                },
                None => position_of(self@.fields, name@) is None,
            },
    {
        proof {
            use_type_invariant(self);
        }
        let wanted = String::from_str(name);
        let mut i: usize = 0;
        while i < self.fields.len()
            invariant
                i <= self.fields.len(),
                self@.well_formed(),
                wanted@ == name@,
                forall|k: int| 0 <= k < i ==> self@.fields[k].name != name@,
            decreases self.fields.len() - i,
        {
            if self.fields[i].name == wanted {
                proof {
                    assert(self@.fields[i as int].name == name@);
                    let j = position_of(self@.fields, name@)->Some_0;
                    assert(names_of(self@.fields)[j] == names_of(self@.fields)[i as int]);
                }
                return Some(i);
            }
            i += 1;
        }
        None
    }

    /// The value of every field when nothing is stored, in field order.
    pub fn defaults(&self) -> (values: Vec<FieldValue>)
        ensures
            self@.well_formed(),
            scalars(values@) == self@.defaults(),
            self@.admits(scalars(values@)),
    {
        proof {
            use_type_invariant(self);
        }
        let mut values: Vec<FieldValue> = Vec::new();
        let mut i: usize = 0;
        while i < self.fields.len()
            invariant
                i <= self.fields.len(),
                values.len() == i,
                forall|k: int| 0 <= k < i ==> values@[k]@ == self@.fields[k].default,
            decreases self.fields.len() - i,
        {
            values.push(self.fields[i].default.clone());
            i += 1;
        }
        values
    }
}

} // verus!
