//! How a client reads the server's answers.
use vstd::prelude::*;
use crate::errors::DBError;
use crate::engine::opt_view;
use crate::protocol::{GetResponse, RemoveResponse, Request, Response, SetResponse};
use crate::server::serves;

verus! {

/// What the client reports for a `Get` answered `resp`.
pub open spec fn get_result(resp: GetResponse) -> Result<Option<String>, DBError> {
    match resp {
        GetResponse::Value(v) => Ok(v),
        GetResponse::Error(_) => Err(DBError::Server),
    }
}

/// What the client reports for a `Put` answered `resp`.
pub open spec fn set_result(resp: SetResponse) -> Result<(), DBError> {
    match resp {
        SetResponse::Done => Ok(()),
        SetResponse::Error(_) => Err(DBError::Server),
    }
}

/// What the client reports for a `Remove` answered `resp`.
pub open spec fn remove_result(resp: RemoveResponse) -> Result<(), DBError> {
    match resp {
        RemoveResponse::Done => Ok(()),
        RemoveResponse::Error(_) => Err(DBError::Server),
    }
}

/// What the client reports is what the server said: a value the server
/// sent is reported as `Ok` with exactly that value, `Done` as `Ok(())`, and
/// every refusal as `DBError::Server`.
pub proof fn law_client_reports_answer(v: Option<String>, msg: String)
    ensures
        get_result(GetResponse::Value(v)) == Ok::<Option<String>, DBError>(v),
        get_result(GetResponse::Error(msg)) == Err::<Option<String>, DBError>(DBError::Server),
        set_result(SetResponse::Done) == Ok::<(), DBError>(()),
        set_result(SetResponse::Error(msg)) == Err::<(), DBError>(DBError::Server),
        remove_result(RemoveResponse::Done) == Ok::<(), DBError>(()),
        remove_result(RemoveResponse::Error(msg)) == Err::<(), DBError>(DBError::Server),
{
}

/// A client reads back its own write: when the client's `set` of `key` to
/// `value` reported `Ok(())` and its `get` of the key then reports `Ok`,
/// that result is `Some(value)`.
pub proof fn law_client_get_after_set(
    s0: Map<Seq<char>, Seq<char>>,
    key: String,
    value: String,
    a1: SetResponse,
    s1: Map<Seq<char>, Seq<char>>,
    a2: GetResponse,
    s2: Map<Seq<char>, Seq<char>>,
)
    requires
        serves(s0, Request::Put { key, value }, Response::Put(a1), s1),
        set_result(a1) is Ok,
        serves(s1, Request::Get { key }, Response::Get(a2), s2),
        get_result(a2) is Ok,
    ensures
        get_result(a2) matches Ok(v) && opt_view(v) == Some(value@),
{
}

/// A client sees no value for a key the store does not hold: a `get` of it
/// that reports `Ok` reports `Ok(None)`.
pub proof fn law_client_get_missing(
    s0: Map<Seq<char>, Seq<char>>,
    key: String,
    a: GetResponse,
    s1: Map<Seq<char>, Seq<char>>,
)
    requires
        !s0.contains_key(key@),
        serves(s0, Request::Get { key }, Response::Get(a), s1),
        get_result(a) is Ok,
    ensures
        get_result(a) == Ok::<Option<String>, DBError>(None),
{
}

/// A client's `remove` of a key the store does not hold reports
/// `DBError::Server`.
pub proof fn law_client_remove_missing(
    s0: Map<Seq<char>, Seq<char>>,
    key: String,
    a: RemoveResponse,
    s1: Map<Seq<char>, Seq<char>>,
)
    requires
        !s0.contains_key(key@),
        serves(s0, Request::Remove { key }, Response::Remove(a), s1),
    ensures
        remove_result(a) matches Err(e) && e is Server,
{
}

/// The outcome of a `Get` as the client reports it: the value, or
/// `DBError::Server` when the server refused.
pub fn get_outcome(resp: GetResponse) -> (r: Result<Option<String>, DBError>)
    ensures
        r == get_result(resp),
{
    match resp {
        GetResponse::Value(value) => Ok(value),
        GetResponse::Error(_) => Err(DBError::server()),
    }
}

/// The outcome of a `Put` as the client reports it.
pub fn set_outcome(resp: SetResponse) -> (r: Result<(), DBError>)
    ensures
        r == set_result(resp),
{
    match resp {
        SetResponse::Done => Ok(()),
        SetResponse::Error(_) => Err(DBError::server()),
    }
}

/// The outcome of a `Remove` as the client reports it.
pub fn remove_outcome(resp: RemoveResponse) -> (r: Result<(), DBError>)
    ensures
        r == remove_result(resp),
{
    match resp {
        RemoveResponse::Done => Ok(()),
        RemoveResponse::Error(_) => Err(DBError::server()),
    }
}

} // verus!
