//! What can go wrong when a preference set is loaded.

use vstd::prelude::*;
use vstd::string::StringExecFns;

verus! {

/// What `message` says of a second load of a schema that is still loaded.
pub const ALREADY_LOADED_MESSAGE: &'static str = "another preferences instance is already loaded";

/// What `message` puts before the cause of a decode failure.
pub const DESERIALIZATION_PREFIX: &'static str = "deserialization error: ";

/// What `message` puts between the cause of a decode failure and its location.
pub const LOCATION_INFIX: &'static str = " at ";

/// What `message` puts before the cause of a storage failure.
pub const STORAGE_PREFIX: &'static str = "storage error: ";

/// The reasons for which loading a preference set fails.
#[derive(Debug)]
pub enum LoadError {
    /// Another record of the same schema is still alive.
    InstanceAlreadyLoaded,
    /// The stored content at the given location is not a TOML document.
    DeserializationError(String, toml::de::Error),
    /// The storage backend could not be read.
    StorageError(std::io::Error),
}

/// `Display` of `toml::de::Error`: the parser's account of what is wrong.
#[verifier::external_body]
fn decode_error_text(error: &toml::de::Error) -> (text: String) {
    error.to_string()
}

/// `Display` of `std::io::Error`: the system's account of what went wrong.
#[verifier::external_body]
fn io_error_text(error: &std::io::Error) -> (text: String) {
    error.to_string()
}

/// The message of a decode failure with the given cause at the given location.
pub open spec fn deserialization_message(cause: Seq<char>, location: Seq<char>) -> Seq<char> {
    DESERIALIZATION_PREFIX@ + cause + LOCATION_INFIX@ + location
}

/// The message of a storage failure with the given cause.
pub open spec fn storage_message(cause: Seq<char>) -> Seq<char> {
    STORAGE_PREFIX@ + cause
}

/// Describes a decode failure: what went wrong, then where.
pub fn describe_deserialization(cause: &str, location: &str) -> (message: String)
    ensures
        message@ == deserialization_message(cause@, location@),
{
    let mut message = String::from_str(DESERIALIZATION_PREFIX);
    message.append(cause);
    message.append(LOCATION_INFIX);
    message.append(location);
    message
}

/// Describes a storage failure.
pub fn describe_storage(cause: &str) -> (message: String)
    ensures
        message@ == storage_message(cause@),
{
    String::from_str(STORAGE_PREFIX).concat(cause)
}

impl LoadError {
    /// The error as one line of text. The cause of a decode or storage
    /// failure is worded by whoever reported it.
    pub fn message(&self) -> (message: String)
        ensures
            match self {
                LoadError::InstanceAlreadyLoaded => message@ == ALREADY_LOADED_MESSAGE@,
                LoadError::DeserializationError(location, _) => exists|cause: Seq<char>|
                    message@ == #[trigger] deserialization_message(cause, location@),
                LoadError::StorageError(_) => exists|cause: Seq<char>|
                    message@ == #[trigger] storage_message(cause),
            },
    {
        match self {
            LoadError::InstanceAlreadyLoaded => String::from_str(ALREADY_LOADED_MESSAGE),
            LoadError::DeserializationError(location, error) => {
                let cause = decode_error_text(error);
                describe_deserialization(cause.as_str(), location.as_str())
            },
            LoadError::StorageError(error) => {
                let cause = io_error_text(error);
                describe_storage(cause.as_str())
            },
        }
    }
}

} // verus!
