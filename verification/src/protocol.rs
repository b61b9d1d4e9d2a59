//! The messages that client and server exchange.
use vstd::prelude::*;

verus! {

/// What a client asks the server.
#[derive(Debug)]
pub enum Request {
    Get { key: String },
    Put { key: String, value: String },
    Remove { key: String },
}

/// The answer to a `Get`: the value of the key (`None` when the key is not
/// there), or an error message.
#[derive(Debug)]
pub enum GetResponse {
    Value(Option<String>),
    Error(String),
}

/// The answer to a `Put`.
#[derive(Debug)]
pub enum SetResponse {
    Done,
    Error(String),
}

/// The answer to a `Remove`.
#[derive(Debug)]
pub enum RemoveResponse {
    Done,
    Error(String),
}

/// The answer to any request, tagged with the kind of the request.
#[derive(Debug)]
pub enum Response {
    Get(GetResponse),
    Put(SetResponse),
    Remove(RemoveResponse),
}

} // verus!
