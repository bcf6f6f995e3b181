//! The preference record: the live, in-memory instance of one preference set.

use crate::codec::{decode, decoded_text, encode, encoded_text};
use crate::error::LoadError;
use crate::lock::{acquire_outcome, release_outcome, InstanceGuard, InstanceRegistry};
use crate::schema::{Schema, SchemaView};
use crate::storage::Storage;
use crate::value::{scalars, FieldValue, Scalar};
use vstd::prelude::*;
use vstd::string::StringExecFns;

verus! {

/// What the error of a save says before the cause, where the record could
/// not be put into text.
pub const SERIALIZATION_PREFIX: &'static str = "serialization failed: ";

/// `Display` of `toml::ser::Error`: the writer's account of what is wrong.
#[verifier::external_body]
fn encode_error_text(error: &toml::ser::Error) -> (text: String) {
    error.to_string()
}

/// `std::io::Error::new`, of kind `Other`: an error that carries `message`.
#[verifier::external_body]
fn other_io_error(message: &str) -> (error: std::io::Error) {
    std::io::Error::new(std::io::ErrorKind::Other, message)
}

/// The values that a record starts with, given what storage holds for it:
/// the schema's defaults where nothing is stored, what the stored text
/// decodes to where something is, `None` where that text is no TOML document.
pub open spec fn initial_values_of(schema: SchemaView, stored: Option<Seq<char>>) -> Option<
    Seq<Scalar>,
> {
    match stored {
        Some(text) => decoded_text(schema, text),
        None => Some(schema.defaults()),
    }
}

/// What a successful read found, as text.
pub open spec fn stored_text(stored: Option<String>) -> Option<Seq<char>> {
    match stored {
        Some(text) => Some(text@),
        None => None,
    }
}

/// The values that a record of `schema` starts with, given what a read of
/// its stored content found.
pub fn initial_values(schema: &Schema, stored: &Option<String>) -> (values: Result<
    Vec<FieldValue>,
    toml::de::Error,
>)
    ensures
        match values {
            Ok(values) => {
                &&& initial_values_of(schema@, stored_text(*stored)) == Some(scalars(values@))
                &&& schema@.admits(scalars(values@))
            },
            Err(_) => stored matches Some(text) && decoded_text(schema@, text@) is None,
        },
{
    match stored {
        Some(text) => decode(text.as_str(), schema),
        None => Ok(schema.defaults()),
    }
}

/// The live instance of one preference set: a value for every field of its
/// schema, the backend it is persisted to, and the instance lock if it was
/// loaded under one.
pub struct Record<S: Storage> {
    schema: Schema,
    values: Vec<FieldValue>,
    storage: S,
    guard: Option<InstanceGuard>,
    handed: Ghost<Seq<Seq<char>>>,
}

impl<S: Storage> Record<S> {
    /// The schema that the record follows.
    pub closed spec fn schema(&self) -> SchemaView {
        self.schema@
    }

    /// The current value of every field, in field order.
    pub closed spec fn values(&self) -> Seq<Scalar> {
        scalars(self.values@)
    }

    /// The backend that the record is persisted to.
    pub closed spec fn backend(&self) -> S {
        self.storage
    }

    /// Every text that the record has handed to its backend for writing,
    /// oldest first, whether or not the write succeeded. Each was handed over
    /// in one write, to the record that the schema names.
    pub closed spec fn handed(&self) -> Seq<Seq<char>> {
        self.handed@
    }

    /// The schema whose instance lock the record holds, if it holds one.
    pub closed spec fn lock(&self) -> Option<Seq<char>> {
        match self.guard {
            Some(guard) => Some(guard.schema()),
            None => None,
        }
    }

    /// Every field holds a value of its declared type, and a lock that the
    /// record holds is the lock of its own schema.
    pub open spec fn wf(&self) -> bool {
        &&& self.schema().well_formed()
        &&& self.schema().admits(self.values())
        &&& self.lock() matches Some(name) ==> name == self.schema().name
    }

    /// What one save makes of the record once its fields hold `values`: the
    /// schema and the lock stay as they are. Where the values have a text,
    /// that text is handed to the backend, in one write to the schema's
    /// record, and the save succeeds or fails as the write does. Where they
    /// have none, the save fails and the backend is not called.
    pub open spec fn saved_with(
        &self,
        values: Seq<Scalar>,
        after: &Record<S>,
        succeeded: bool,
    ) -> bool {
        &&& after.schema() == self.schema()
        &&& after.values() == values
        &&& after.lock() == self.lock()
        &&& match encoded_text(self.schema(), values) {
            Some(text) => {
                &&& after.handed() == self.handed().push(text)
                &&& self.backend().write_spec(
                    self.schema().file_name,
                    text,
                    succeeded,
                    &after.backend(),
                )
            },
            None => {
                &&& !succeeded
                &&& after.handed() == self.handed()
                &&& after.backend() == self.backend()
            },
        }
    }

    /// Loads the preference set described by `schema` from `storage`.
    ///
    /// The load takes the instance lock of the schema in `registry`, reads
    /// the schema's record and decodes it with [`initial_values`]; where
    /// nothing is stored every field takes its default. It fails with
    /// `InstanceAlreadyLoaded` where a record of the schema is alive, with
    /// `StorageError` where the read fails, and with `DeserializationError`
    /// where the stored text is not a TOML document. A failed load leaves the
    /// registry as it was; a record that was loaded keeps the lock until it
    /// is closed.
    pub fn load(schema: Schema, storage: S, registry: &mut InstanceRegistry) -> (loaded: Result<
        Record<S>,
        LoadError,
    >)
        ensures
            loaded matches Err(LoadError::InstanceAlreadyLoaded) <==> old(registry).held().contains(
                schema@.name,
            ),
            loaded is Err ==> final(registry).held() == old(registry).held(),
            match loaded {
                Ok(record) => {
                    &&& acquire_outcome(old(registry).held(), schema@.name) == Some(
                        final(registry).held(),
                    )
                    &&& exists|stored: Option<Seq<char>>|
                        {
                            &&& #[trigger] storage.read_spec(schema@.file_name, Some(stored))
                            &&& initial_values_of(schema@, stored) == Some(record.values())
                        }
                    &&& record.schema() == schema@
                    &&& record.backend() == storage
                    &&& record.lock() == Some(schema@.name)
                    &&& record.handed() == Seq::<Seq<char>>::empty()
                    &&& record.wf()
                },
                Err(LoadError::InstanceAlreadyLoaded) => true,
                Err(LoadError::StorageError(_)) => storage.read_spec(schema@.file_name, None),
                Err(LoadError::DeserializationError(location, _)) => {
                    &&& exists|text: Seq<char>|
                        {
                            &&& #[trigger] storage.read_spec(schema@.file_name, Some(Some(text)))
                            &&& decoded_text(schema@, text) is None
                        }
                    &&& storage.path_spec(schema@.file_name, location@)
                },
            },
    {
        let guard = match registry.try_acquire(schema.name().as_str()) {
            Ok(guard) => guard,
            Err(_) => {
                return Err(LoadError::InstanceAlreadyLoaded);
            },
        };
        let found = storage.read(schema.file_name().as_str());
        let stored = match found {
            Ok(stored) => stored,
            Err(error) => {
                registry.release(guard);
                return Err(LoadError::StorageError(error));
            },
        };
        let values = match initial_values(&schema, &stored) {
            Ok(values) => values,
            Err(error) => {
                registry.release(guard);
                let location = storage.get_path(schema.file_name().as_str());
                assert(storage.read_spec(schema@.file_name, Some(Some(stored->Some_0@))));
                return Err(LoadError::DeserializationError(location, error));
            },
        };
        proof {
            use_type_invariant(&schema);
            assert(storage.read_spec(schema@.file_name, Some(stored_text(stored))));
        }
        Ok(Record { schema, values, storage, guard: Some(guard), handed: Ghost(Seq::empty()) })
    }

    /// A record that holds the defaults of `schema`, made without reading
    /// `storage` and without the instance lock: any number of such records
    /// may be alive, and whoever makes them answers for what they write.
    pub fn load_default(schema: Schema, storage: S) -> (record: Record<S>)
        ensures
            record.values() == schema@.defaults(),
            record.schema() == schema@,
            record.backend() == storage,
            record.lock() is None,
            record.handed() == Seq::<Seq<char>>::empty(),
            record.wf(),
    {
        let values = schema.defaults();
        Record { schema, values, storage, guard: None, handed: Ghost(Seq::empty()) }
    }

    /// A record for tests: it holds the defaults of `schema`, takes no
    /// instance lock, and has saved those defaults to `storage` once. It
    /// fails where that save does.
    pub fn load_testing(schema: Schema, storage: S) -> (loaded: Result<Record<S>, std::io::Error>)
        ensures
            match encoded_text(schema@, schema@.defaults()) {
                Some(text) => match loaded {
                    Ok(record) => {
                        &&& record.values() == schema@.defaults()
                        &&& record.schema() == schema@
                        &&& record.lock() is None
                        &&& record.handed() == seq![text]
                        &&& storage.write_spec(schema@.file_name, text, true, &record.backend())
                        &&& record.wf()
                    },
                    Err(_) => exists|after: S| #[trigger]
                        storage.write_spec(schema@.file_name, text, false, &after),
                },
                None => loaded is Err,
            },
    {
        let mut record = Record::load_default(schema, storage);
        match record.save() {
            Ok(()) => {
                assert(record.handed() =~= seq![encoded_text(schema@, schema@.defaults())->Some_0]);
                Ok(record)
            },
            Err(error) => {
                assert(encoded_text(schema@, schema@.defaults()) matches Some(text)
                    ==> storage.write_spec(schema@.file_name, text, false, &record.backend()));
                Err(error)
            },
        }
    }

    /// The record as the TOML text that a save would write.
    pub fn to_string(&self) -> (text: Result<String, toml::ser::Error>)
        requires
            self.wf(),
        ensures
            match text {
                Ok(text) => encoded_text(self.schema(), self.values()) == Some(text@),
                Err(_) => encoded_text(self.schema(), self.values()) is None,
            },
    {
        encode(&self.schema, &self.values)
    }

    /// Saves the whole record: encodes every field and hands the text to the
    /// backend, as one write to the schema's record. Every change to storage
    /// goes through here.
    pub fn save(&mut self) -> (done: Result<(), std::io::Error>)
        requires
            old(self).wf(),
        ensures
            final(self).wf(),
            old(self).saved_with(old(self).values(), &*final(self), done is Ok),
    {
        let text = match encode(&self.schema, &self.values) {
            Ok(text) => text,
            Err(error) => {
                let cause = encode_error_text(&error);
                let message = String::from_str(SERIALIZATION_PREFIX).concat(cause.as_str());
                return Err(other_io_error(message.as_str()));
            },
        };
        proof {
            self.handed@ = self.handed@.push(text@);
        }
        self.storage.write(self.schema.file_name().as_str(), text.as_str())
    }

    /// Where the record lives in its backend, for display.
    pub fn get_preferences_file_path(&self) -> (path: String)
        ensures
            self.backend().path_spec(self.schema().file_name, path@),
    {
        self.storage.get_path(self.schema.file_name().as_str())
    }

    /// The schema that the record follows.
    pub fn schema_ref(&self) -> (schema: &Schema)
        ensures
            schema@ == self.schema(),
    {
        &self.schema
    }

    /// The backend that the record is persisted to.
    pub fn storage(&self) -> (storage: &S)
        ensures
            *storage == self.backend(),
    {
        &self.storage
    }

    /// Whether the record holds the instance lock of its schema.
    pub fn is_locked(&self) -> (locked: bool)
        ensures
            locked == self.lock() is Some,
    {
        self.guard.is_some()
    }

    /// The current value of the field at position `field`.
    pub fn get(&self, field: usize) -> (value: &FieldValue)
        requires
            field < self.values().len(),
        ensures
            value@ == self.values()[field as int],
    {
        &self.values[field]
    }

    /// Puts `value` in the field at position `field`, in memory only, and
    /// says whether that changed the field.
    pub(crate) fn replace(&mut self, field: usize, value: FieldValue) -> (changed: bool)
        requires
            old(self).wf(),
            field < old(self).values().len(),
            value@.kind() == old(self).schema().fields[field as int].kind(),
        ensures
            final(self).wf(),
            changed == (value@ != old(self).values()[field as int]),
            changed ==> final(self).values() == old(self).values().update(field as int, value@),
            !changed ==> *final(self) == *old(self),
            final(self).schema() == old(self).schema(),
            final(self).backend() == old(self).backend(),
            final(self).lock() == old(self).lock(),
            final(self).handed() == old(self).handed(),
    {
        if self.values[field] != value {
            self.values.set(field, value);
            assert(scalars(self.values@) =~= scalars(old(self).values@).update(
                field as int,
                value@,
            ));
            true
        } else {
            false
        }
    }

    /// Sets one field and saves at once. A value equal to the current one
    /// changes nothing and hands nothing to the backend. Any other value is
    /// in the record when the call returns, whether or not the save succeeded.
    pub fn save_field(&mut self, field: usize, value: FieldValue) -> (done: Result<
        (),
        std::io::Error,
    >)
        requires
            old(self).wf(),
            field < old(self).values().len(),
            value@.kind() == old(self).schema().fields[field as int].kind(),
        ensures
            final(self).wf(),
            if value@ == old(self).values()[field as int] {
                done is Ok && *final(self) == *old(self)
            } else {
                old(self).saved_with(
                    old(self).values().update(field as int, value@),
                    &*final(self),
                    done is Ok,
                )
            },
    {
        if self.replace(field, value) {
            self.save()
        } else {
            Ok(())
        }
    }

    /// Opens an edit transaction on the record. Until the guard is finished
    /// the record is reached through the guard alone.
    pub fn edit(&mut self) -> (guard: EditGuard<'_, S>)
        ensures
            *guard.preferences == *old(self),
            *final(guard.preferences) == *final(self),
            !guard.modified,
            guard.hold_limit_secs == LONG_HOLD_SECS,
    {
        EditGuard { preferences: self, modified: false, hold_limit_secs: LONG_HOLD_SECS }
    }

    /// Ends the record's life: gives its instance lock back to `registry`, if
    /// it holds one, and hands out the backend.
    pub fn close(self, registry: &mut InstanceRegistry) -> (storage: S)
        ensures
            storage == self.backend(),
            final(registry).held() == match self.lock() {
                Some(name) => release_outcome(old(registry).held(), name),
                None => old(registry).held(),
            },
    {
        let Record { schema, values, storage, guard, handed } = self;
        match guard {
            Some(guard) => registry.release(guard),
            None => {},
        }
        storage
    }
}

/// The number of seconds from which an edit transaction counts as held long,
/// unless its guard says otherwise.
pub const LONG_HOLD_SECS: u64 = 1;

/// How an edit transaction ended.
#[derive(Debug)]
pub struct EditReport {
    /// The transaction was open for as long as its guard's limit, or
    /// longer: worth a warning during development, never a failure.
    pub long_hold: bool,
    /// Whether the record was written: `Ok(true)` after the one write of a
    /// modified record, `Ok(false)` where nothing was modified and nothing
    /// written, the error where the write failed.
    pub flushed: Result<bool, std::io::Error>,
}

/// An edit transaction: a batch of field changes behind one save.
///
/// The guard borrows the record for as long as it lives. Changes are in the
/// record at once; `finish` writes them, once, and only if some field took a
/// value other than the one it had.
pub struct EditGuard<'a, S: Storage> {
    /// The record under edit.
    pub preferences: &'a mut Record<S>,
    /// Some field has taken a value other than the one it had.
    pub modified: bool,
    /// The number of seconds from which the transaction counts as held long.
    pub hold_limit_secs: u64,
}

impl<'a, S: Storage> EditGuard<'a, S> {
    /// The current value of the field at position `field`, changes made
    /// through this guard included.
    pub fn get(&self, field: usize) -> (value: &FieldValue)
        requires
            field < self.preferences.values().len(),
        ensures
            value@ == old(self.preferences).values()[field as int],
    {
        self.preferences.get(field)
    }

    /// Whether some field has taken a value other than the one it had.
    pub fn is_modified(&self) -> (modified: bool)
        ensures
            modified == self.modified,
    {
        self.modified
    }

    /// Sets the field at position `field` in memory. The transaction counts
    /// as modified from the first call whose value differs from the field's
    /// current one; setting a field to the value it has changes nothing.
    pub fn set(&mut self, field: usize, value: FieldValue)
        requires
            old(self).preferences.wf(),
            field < old(self).preferences.values().len(),
            value@.kind() == old(self).preferences.schema().fields[field as int].kind(),
        ensures
            final(self).preferences.wf(),
            *final(final(self).preferences) == *final(old(self).preferences),
            final(self).preferences.schema() == old(self).preferences.schema(),
            final(self).preferences.backend() == old(self).preferences.backend(),
            final(self).preferences.lock() == old(self).preferences.lock(),
            final(self).preferences.handed() == old(self).preferences.handed(),
            final(self).hold_limit_secs == old(self).hold_limit_secs,
            if value@ == old(self).preferences.values()[field as int] {
                &&& *final(self).preferences == *old(self).preferences
                &&& final(self).modified == old(self).modified
            } else {
                &&& final(self).preferences.values() == old(self).preferences.values().update(
                    field as int,
                    value@,
                )
                &&& final(self).modified
            },
    {
        if self.preferences.replace(field, value) {
            self.modified = true;
        }
    }

    /// Ends the transaction after `held_secs` seconds. A modified record is
    /// saved, once; an unmodified one is left alone and nothing is handed to
    /// the backend. The failure of the save is reported, not raised.
    pub fn finish(self, held_secs: u64) -> (report: EditReport)
        requires
            self.preferences.wf(),
        ensures
            final(self.preferences).wf(),
            report.long_hold == (held_secs >= self.hold_limit_secs),
            if self.modified {
                &&& old(self.preferences).saved_with(
                    old(self.preferences).values(),
                    &*final(self.preferences),
                    report.flushed is Ok,
                )
                &&& report.flushed matches Ok(wrote) ==> wrote
            } else {
                &&& report.flushed == Ok::<bool, std::io::Error>(false)
                &&& *final(self.preferences) == *old(self.preferences)
            },
    {
        let EditGuard { preferences, modified, hold_limit_secs } = self;
        let long_hold = held_secs >= hold_limit_secs;
        let flushed = if modified {
            match preferences.save() {
                Ok(()) => Ok(true),
                Err(error) => Err(error),
            }
        } else {
            Ok(false)
        };
        EditReport { long_hold, flushed }
    }
}

} // verus!
