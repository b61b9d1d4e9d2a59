//! What the server does with each request it receives.
use vstd::prelude::*;
use crate::engine::{EngineCall, EngineOp, KvsEngine, get_effect, opt_view, remove_effect, set_effect};
use crate::errors::DBError;
use crate::protocol::{GetResponse, RemoveResponse, Request, Response, SetResponse};

verus! {

/// The message the server sends back with every refused request.
pub open spec fn error_message() -> Seq<char> {
    "error"@
}

/// `resp` answers a `Get` whose engine call returned `r`: the value, or
/// the refusal message when the engine failed.
pub open spec fn answers_get(r: Result<Option<String>, DBError>, resp: Response) -> bool {
    match r {
        Ok(v) => resp == Response::Get(GetResponse::Value(v)),
        Err(_) => resp matches Response::Get(GetResponse::Error(msg)) && msg@ == error_message(),
    }
}

/// `resp` answers a `Put` whose engine call returned `r`.
pub open spec fn answers_set(r: Result<Option<String>, DBError>, resp: Response) -> bool {
    match r {
        Ok(_) => resp == Response::Put(SetResponse::Done),
        Err(_) => resp matches Response::Put(SetResponse::Error(msg)) && msg@ == error_message(),
    }
}

/// `resp` answers a `Remove` whose engine call returned `r`.
pub open spec fn answers_remove(r: Result<Option<String>, DBError>, resp: Response) -> bool {
    match r {
        Ok(_) => resp == Response::Remove(RemoveResponse::Done),
        Err(_) => resp matches Response::Remove(RemoveResponse::Error(msg)) && msg@
            == error_message(),
    }
}

/// `resp` is the server's answer to `req` on an engine holding `before`,
/// which holds `after` once the request was served: the server made the
/// engine call that the request names (`get`, `set` or `remove`, with the
/// request's key and value), the call had its effect on the engine, and the
/// answer is the one for what the call returned: the value, `Done`, or the
/// refusal message `"error"` when the call failed.
pub open spec fn serves(
    before: Map<Seq<char>, Seq<char>>,
    req: Request,
    resp: Response,
    after: Map<Seq<char>, Seq<char>>,
) -> bool {
    match req {
        Request::Get { key } => exists|r: Result<Option<String>, DBError>|
            #[trigger] answers_get(r, resp) && get_effect(before, key@, r, after),
        Request::Put { key, value } => exists|r: Result<Option<String>, DBError>|
            #[trigger] answers_set(r, resp) && set_effect(before, key@, value@, r, after),
        Request::Remove { key } => exists|r: Result<Option<String>, DBError>|
            #[trigger] answers_remove(r, resp) && remove_effect(before, key@, r, after),
    }
}

/// `call` is the engine call that served `req` on an engine holding
/// `before` (and `after` once it returned), and `resp` is answered from
/// what that call returned: a `Get` makes a read of its key, a `Put` a
/// write of its key and value, a `Remove` a delete of its key; the call had
/// its effect; the answer is the value or `Done` when the call succeeded
/// and the refusal message when it failed.
pub open spec fn answered_by_call(
    before: Map<Seq<char>, Seq<char>>,
    req: Request,
    resp: Response,
    after: Map<Seq<char>, Seq<char>>,
    call: Option<EngineCall>,
) -> bool {
    &&& call is Some
    &&& match req {
        Request::Get { key } => {
            &&& call->0.op is Read
            &&& call->0.key == key@
            &&& answers_get(call->0.result, resp)
            &&& get_effect(before, key@, call->0.result, after)
        },
        Request::Put { key, value } => {
            &&& call->0.op is Write
            &&& call->0.key == key@
            &&& call->0.value == value@
            &&& answers_set(call->0.result, resp)
            &&& set_effect(before, key@, value@, call->0.result, after)
        },
        Request::Remove { key } => {
            &&& call->0.op is Delete
            &&& call->0.key == key@
            &&& answers_remove(call->0.result, resp)
            &&& remove_effect(before, key@, call->0.result, after)
        },
    }
}

/// How a `Get` is served: by one read of its key, which changes nothing.
/// When the read succeeds the answer is its value, which is the value the
/// store holds for the key (`None` for a missing key); the answer is a
/// refusal only when the read failed, and then it carries `"error"`.
pub proof fn law_serve_get(
    s0: Map<Seq<char>, Seq<char>>,
    key: String,
    resp: Response,
    s1: Map<Seq<char>, Seq<char>>,
    call: Option<EngineCall>,
)
    requires
        answered_by_call(s0, Request::Get { key }, resp, s1, call),
    ensures
        call matches Some(c) && c.op is Read && c.key == key@,
        s1 == s0,
        call->0.result matches Ok(v) ==> resp == Response::Get(GetResponse::Value(v))
            && opt_view(v) == s0.get(key@),
        call->0.result is Err ==> (resp matches Response::Get(GetResponse::Error(m)) && m@ == "error"@),
        resp is Get,
{
}

/// How a `Put` is served: by one write of its key and value. It is
/// answered `Done` exactly when the write succeeded, and then the store
/// maps the key to the value; otherwise it is refused with `"error"`.
pub proof fn law_serve_put(
    s0: Map<Seq<char>, Seq<char>>,
    key: String,
    value: String,
    resp: Response,
    s1: Map<Seq<char>, Seq<char>>,
    call: Option<EngineCall>,
)
    requires
        answered_by_call(s0, Request::Put { key, value }, resp, s1, call),
    ensures
        call matches Some(c) && c.op is Write && c.key == key@ && c.value == value@,
        (resp == Response::Put(SetResponse::Done)) <==> call->0.result is Ok,
        call->0.result is Ok ==> s1 == s0.insert(key@, value@),
        call->0.result is Err ==> (resp matches Response::Put(SetResponse::Error(m)) && m@ == "error"@),
{
}

/// How a `Remove` is served: by one delete of its key. It is answered
/// `Done` exactly when the delete succeeded, which drops a key the store
/// held; a key the store does not hold is refused; a refusal that came
/// from `NoKey` leaves the store as it was.
pub proof fn law_serve_remove(
    s0: Map<Seq<char>, Seq<char>>,
    key: String,
    resp: Response,
    s1: Map<Seq<char>, Seq<char>>,
    call: Option<EngineCall>,
)
    requires
        answered_by_call(s0, Request::Remove { key }, resp, s1, call),
    ensures
        call matches Some(c) && c.op is Delete && c.key == key@,
        (resp == Response::Remove(RemoveResponse::Done)) <==> call->0.result is Ok,
        call->0.result is Ok ==> s0.contains_key(key@) && s1 == s0.remove(key@),
        !s0.contains_key(key@) ==> call->0.result is Err && (resp matches Response::Remove(
            RemoveResponse::Error(m),
        ) && m@ == "error"@),
        (call->0.result matches Err(e) && e is NoKey) ==> s1 == s0,
        s0.contains_key(key@) ==> !(call->0.result matches Err(e) && e is NoKey),
{
}

/// A read gives back the last write: once the server has answered
/// `Put { key, value }` with `Done`, a `Get` of the same key that is
/// answered with a value is answered with `value`.
pub proof fn law_get_after_put(
    s0: Map<Seq<char>, Seq<char>>,
    key: String,
    value: String,
    r1: Response,
    s1: Map<Seq<char>, Seq<char>>,
    r2: Response,
    s2: Map<Seq<char>, Seq<char>>,
)
    requires
        serves(s0, Request::Put { key, value }, r1, s1),
        r1 matches Response::Put(SetResponse::Done),
        serves(s1, Request::Get { key }, r2, s2),
        r2 matches Response::Get(GetResponse::Value(_)),
    ensures
        r2 matches Response::Get(GetResponse::Value(v)) && opt_view(v) == Some(value@),
{
}

/// A later write wins: after `Put { key, v1 }` and `Put { key, v2 }` are
/// both answered `Done`, a `Get` of the key answered with a value gives
/// `v2`.
pub proof fn law_put_overwrites(
    s0: Map<Seq<char>, Seq<char>>,
    key: String,
    v1: String,
    v2: String,
    r1: Response,
    s1: Map<Seq<char>, Seq<char>>,
    r2: Response,
    s2: Map<Seq<char>, Seq<char>>,
    r3: Response,
    s3: Map<Seq<char>, Seq<char>>,
)
    requires
        serves(s0, Request::Put { key, value: v1 }, r1, s1),
        r1 matches Response::Put(SetResponse::Done),
        serves(s1, Request::Put { key, value: v2 }, r2, s2),
        r2 matches Response::Put(SetResponse::Done),
        serves(s2, Request::Get { key }, r3, s3),
        r3 matches Response::Get(GetResponse::Value(_)),
    ensures
        r3 matches Response::Get(GetResponse::Value(v)) && opt_view(v) == Some(v2@),
{
}

/// A write touches only its key: after `Put { key, value }` is answered
/// `Done`, a `Get` of any other key answered with a value gives what that
/// key held before the write.
pub proof fn law_put_leaves_other_keys(
    s0: Map<Seq<char>, Seq<char>>,
    key: String,
    value: String,
    other: String,
    r1: Response,
    s1: Map<Seq<char>, Seq<char>>,
    r2: Response,
    s2: Map<Seq<char>, Seq<char>>,
)
    requires
        other@ != key@,
        serves(s0, Request::Put { key, value }, r1, s1),
        r1 matches Response::Put(SetResponse::Done),
        serves(s1, Request::Get { key: other }, r2, s2),
        r2 matches Response::Get(GetResponse::Value(_)),
    ensures
        r2 matches Response::Get(GetResponse::Value(v)) && opt_view(v) == s0.get(other@),
{
}

/// A removal touches only its key: after `Remove { key }` is answered
/// `Done`, a `Get` of any other key answered with a value gives what that
/// key held before the removal.
pub proof fn law_remove_leaves_other_keys(
    s0: Map<Seq<char>, Seq<char>>,
    key: String,
    other: String,
    r1: Response,
    s1: Map<Seq<char>, Seq<char>>,
    r2: Response,
    s2: Map<Seq<char>, Seq<char>>,
)
    requires
        other@ != key@,
        serves(s0, Request::Remove { key }, r1, s1),
        r1 matches Response::Remove(RemoveResponse::Done),
        serves(s1, Request::Get { key: other }, r2, s2),
        r2 matches Response::Get(GetResponse::Value(_)),
    ensures
        r2 matches Response::Get(GetResponse::Value(v)) && opt_view(v) == s0.get(other@),
{
}

/// A removed key is gone: once `Remove { key }` is answered `Done`, a
/// `Get` of the key answered with a value answers `None`.
pub proof fn law_get_after_remove(
    s0: Map<Seq<char>, Seq<char>>,
    key: String,
    r1: Response,
    s1: Map<Seq<char>, Seq<char>>,
    r2: Response,
    s2: Map<Seq<char>, Seq<char>>,
)
    requires
        serves(s0, Request::Remove { key }, r1, s1),
        r1 matches Response::Remove(RemoveResponse::Done),
        serves(s1, Request::Get { key }, r2, s2),
        r2 matches Response::Get(GetResponse::Value(_)),
    ensures
        r2 matches Response::Get(GetResponse::Value(v)) && v is None,
{
}

/// A key cannot be removed twice: once `Remove { key }` is answered
/// `Done`, a second `Remove` of the key is refused and changes nothing
/// that a `Get` can see of it.
pub proof fn law_remove_twice_refused(
    s0: Map<Seq<char>, Seq<char>>,
    key: String,
    r1: Response,
    s1: Map<Seq<char>, Seq<char>>,
    r2: Response,
    s2: Map<Seq<char>, Seq<char>>,
)
    requires
        serves(s0, Request::Remove { key }, r1, s1),
        r1 matches Response::Remove(RemoveResponse::Done),
        serves(s1, Request::Remove { key }, r2, s2),
    ensures
        r2 matches Response::Remove(RemoveResponse::Error(msg)) && msg@ == error_message(),
{
}

/// A server that answers requests from the engine `E`.
pub struct KvsServer<E: KvsEngine> {
    engine: E,
}

/// The text of the refusal message.
fn error_text() -> (msg: String)
    ensures
        msg@ == error_message(),
{
    String::from_str("error")
}

/// The answer to a `Get` whose engine call came back with `outcome`: the
/// value, or the refusal message when the engine failed.
pub fn get_response(outcome: Result<Option<String>, DBError>) -> (resp: GetResponse)
    ensures
        match outcome {
            Ok(v) => resp == GetResponse::Value(v),
            Err(_) => resp matches GetResponse::Error(msg) && msg@ == error_message(),
        },
{
    match outcome {
        Ok(value) => GetResponse::Value(value),
        Err(_) => GetResponse::Error(error_text()),
    }
}

/// The answer to a `Put` whose engine call came back with `outcome`.
pub fn set_response(outcome: Result<Option<String>, DBError>) -> (resp: SetResponse)
    ensures
        match outcome {
            Ok(_) => resp is Done,
            Err(_) => resp matches SetResponse::Error(msg) && msg@ == error_message(),
        },
{
    match outcome {
        Ok(_) => SetResponse::Done,
        Err(_) => SetResponse::Error(error_text()),
    }
}

/// The answer to a `Remove` whose engine call came back with `outcome`.
pub fn remove_response(outcome: Result<Option<String>, DBError>) -> (resp: RemoveResponse)
    ensures
        match outcome {
            Ok(_) => resp is Done,
            Err(_) => resp matches RemoveResponse::Error(msg) && msg@ == error_message(),
        },
{
    match outcome {
        Ok(_) => RemoveResponse::Done,
        Err(_) => RemoveResponse::Error(error_text()),
    }
}

impl<E: KvsEngine> KvsServer<E> {
    /// The call the server last made on its engine.
    pub closed spec fn last_call(&self) -> Option<EngineCall> {
        self.engine.last_call()
    }

    /// What the server's engine holds.
    pub closed spec fn store(&self) -> Map<Seq<char>, Seq<char>> {
        self.engine.store()
    }

    /// A server over `engine`.
    pub fn new(engine: E) -> (server: Self)
        ensures
            server.store() == engine.store(),
    {
        KvsServer { engine }
    }

    /// Serves one request: runs it on the engine and builds the answer.
    pub fn serve_request(&mut self, req: Request) -> (resp: Response)
        ensures
            serves(old(self).store(), req, resp, final(self).store()),
            answered_by_call(old(self).store(), req, resp, final(self).store(), final(self).last_call()),
    {
        match req {
            Request::Get { key } => {
                let outcome = self.engine.get(key);
                let ghost r = outcome;
                let resp = Response::Get(get_response(outcome));
                assert(answers_get(r, resp));
                resp
            },
            Request::Put { key, value } => {
                let outcome = self.engine.set(key, value);
                let ghost r = outcome;
                let resp = Response::Put(set_response(outcome));
                assert(answers_set(r, resp));
                resp
            },
            Request::Remove { key } => {
                let outcome = self.engine.remove(key);
                let ghost r = outcome;
                let resp = Response::Remove(remove_response(outcome));
                assert(answers_remove(r, resp));
                resp
            },
        }
    }
}

} // verus!
