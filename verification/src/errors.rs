//! The error type shared by every part of the store.
use vstd::prelude::*;

verus! {

/// The I/O error of std, carried by [`DBError::Io`].
#[verifier::external_type_specification]
#[verifier::external_body]
pub struct ExIoError(std::io::Error);

/// The error of `serde_json`, carried by [`DBError::Serialize`].
#[verifier::external_type_specification]
#[verifier::external_body]
pub struct ExJsonError(serde_json::Error);

/// The error of the `sled` storage crate, carried by [`DBError::Sled`].
#[verifier::external_type_specification]
#[verifier::external_body]
pub struct ExSledError(sled::Error);

/// Everything that can go wrong in the store.
#[derive(Debug)]
pub enum DBError {
    /// A log record could not be serialized or parsed.
    Serialize(serde_json::Error),
    /// Reading or writing a file failed.
    Io(std::io::Error),
    /// The command log is in a state that cannot be read.
    Log,
    /// The key that was asked for is not in the store.
    NoKey,
    /// The server answered a request with an error.
    Server,
    /// The storage tree reported an error.
    Sled(sled::Error),
    /// A value read back from storage is not valid UTF-8.
    Utf8,
}

impl DBError {
    /// The error for a log record that cannot be read.
    pub fn from_log_read() -> (e: DBError)
        ensures
            e is Log,
    {
        DBError::Log
    }

    /// The error for a key that is not in the store.
    pub fn no_key() -> (e: DBError)
        ensures
            e is NoKey,
    {
        DBError::NoKey
    }

    /// The error for a request the server refused.
    pub fn server() -> (e: DBError)
        ensures
            e is Server,
    {
        DBError::Server
    }
}

} // verus!
