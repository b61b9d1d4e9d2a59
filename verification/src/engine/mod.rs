//! Storage engines: the operations every engine offers, and the choice of
//! engine a server is started with.
use vstd::prelude::*;
use crate::errors::DBError;
use crate::utils::{str_eq, trim_string, trimmable};

pub mod sled;

pub use self::sled::SledKvsEngine;

verus! {

/// The abstract view of an optional string.
pub open spec fn opt_view(o: Option<String>) -> Option<Seq<char>> {
    match o {
        Some(s) => Some(s@),
        None => None,
    }
}

/// What a `set` of `key` to `value` that answered `r` did to an engine
/// holding `before`, which holds `after` once it returned: when it succeeds
/// the key now has the value (overwriting any earlier one); it never fails
/// with `NoKey`.
pub open spec fn set_effect(
    before: Map<Seq<char>, Seq<char>>,
    key: Seq<char>,
    value: Seq<char>,
    r: Result<Option<String>, DBError>,
    after: Map<Seq<char>, Seq<char>>,
) -> bool {
    &&& r is Ok ==> after == before.insert(key, value)
    &&& r matches Err(e) ==> !(e is NoKey)
}

/// What a `get` of `key` that answered `r` did: it changes nothing, and
/// when it succeeds it gives the key's value, `None` for a missing key; it
/// never fails with `NoKey`.
pub open spec fn get_effect(
    before: Map<Seq<char>, Seq<char>>,
    key: Seq<char>,
    r: Result<Option<String>, DBError>,
    after: Map<Seq<char>, Seq<char>>,
) -> bool {
    &&& after == before
    &&& r matches Ok(v) ==> opt_view(v) == before.get(key)
    &&& r matches Err(e) ==> !(e is NoKey)
}

/// What a `remove` of `key` that answered `r` did: when it succeeds the key
/// was there and is gone; a missing key is always refused; `NoKey` comes
/// exactly for a missing key, and then nothing changed.
pub open spec fn remove_effect(
    before: Map<Seq<char>, Seq<char>>,
    key: Seq<char>,
    r: Result<Option<String>, DBError>,
    after: Map<Seq<char>, Seq<char>>,
) -> bool {
    &&& r is Ok ==> before.contains_key(key) && after == before.remove(key)
    &&& !before.contains_key(key) ==> r is Err
    &&& (r matches Err(e) && e is NoKey) ==> !before.contains_key(key) && after == before
    &&& before.contains_key(key) ==> !(r matches Err(e) && e is NoKey)
}

/// A key/value storage engine. Its state is a map from keys to values,
/// `store()`.
pub trait KvsEngine {
    /// The keys the engine holds and the value of each.
    spec fn store(&self) -> Map<Seq<char>, Seq<char>>;

    /// The most recent call made on the engine and what it returned;
    /// `None` before any call.
    spec fn last_call(&self) -> Option<EngineCall>;

    /// Sets the value of a string key to a string. If the key already
    /// exists, the previous value is overwritten.
    fn set(&mut self, key: String, value: String) -> (r: Result<Option<String>, DBError>)
        ensures
            set_effect(old(self).store(), key@, value@, r, final(self).store()),
            final(self).last_call() == Some(
                EngineCall { op: EngineOp::Write, key: key@, value: value@, result: r },
            ),
    ;

    /// Gets the string value of a given string key; `None` if the key does
    /// not exist.
    fn get(&mut self, key: String) -> (r: Result<Option<String>, DBError>)
        ensures
            get_effect(old(self).store(), key@, r, final(self).store()),
            final(self).last_call() == Some(
                EngineCall { op: EngineOp::Read, key: key@, value: Seq::empty(), result: r },
            ),
    ;

    /// Removes a given key. Fails with `NoKey` if the key is not found.
    fn remove(&mut self, key: String) -> (r: Result<Option<String>, DBError>)
        ensures
            remove_effect(old(self).store(), key@, r, final(self).store()),
            final(self).last_call() == Some(
                EngineCall { op: EngineOp::Delete, key: key@, value: Seq::empty(), result: r },
            ),
    ;
}

/// A read gives back the last write, whatever came before it: once a `set`
/// of `key` to `value` succeeded, a `get` of the key that succeeds gives
/// `Some(value)`. Earlier sets of the key are overwritten.
pub proof fn law_engine_get_after_set(
    s0: Map<Seq<char>, Seq<char>>,
    key: Seq<char>,
    value: Seq<char>,
    r1: Result<Option<String>, DBError>,
    s1: Map<Seq<char>, Seq<char>>,
    r2: Result<Option<String>, DBError>,
    s2: Map<Seq<char>, Seq<char>>,
)
    requires
        set_effect(s0, key, value, r1, s1),
        r1 is Ok,
        get_effect(s1, key, r2, s2),
        r2 is Ok,
    ensures
        r2 matches Ok(v) && opt_view(v) == Some(value),
{
}

/// The last set wins: after a `set` of `key` to `v1` and then a `set` of
/// the key to `v2` both succeeded, a `get` of the key that succeeds gives
/// `Some(v2)`.
pub proof fn law_engine_last_set_wins(
    s0: Map<Seq<char>, Seq<char>>,
    key: Seq<char>,
    v1: Seq<char>,
    r1: Result<Option<String>, DBError>,
    s1: Map<Seq<char>, Seq<char>>,
    v2: Seq<char>,
    r2: Result<Option<String>, DBError>,
    s2: Map<Seq<char>, Seq<char>>,
    r3: Result<Option<String>, DBError>,
    s3: Map<Seq<char>, Seq<char>>,
)
    requires
        set_effect(s0, key, v1, r1, s1),
        r1 is Ok,
        set_effect(s1, key, v2, r2, s2),
        r2 is Ok,
        get_effect(s2, key, r3, s3),
        r3 is Ok,
    ensures
        r3 matches Ok(v) && opt_view(v) == Some(v2),
{
}

/// A write touches only its key: when a `get` of `other` gave `g` and then
/// a `set` or a `remove` of a different key succeeded, a `get` of `other`
/// that succeeds gives `g` again.
pub proof fn law_engine_other_keys_untouched(
    s0: Map<Seq<char>, Seq<char>>,
    other: Seq<char>,
    g: Result<Option<String>, DBError>,
    s1: Map<Seq<char>, Seq<char>>,
    key: Seq<char>,
    value: Seq<char>,
    removing: bool,
    r: Result<Option<String>, DBError>,
    s2: Map<Seq<char>, Seq<char>>,
    g2: Result<Option<String>, DBError>,
    s3: Map<Seq<char>, Seq<char>>,
)
    requires
        key != other,
        get_effect(s0, other, g, s1),
        g is Ok,
        if removing {
            remove_effect(s1, key, r, s2)
        } else {
            set_effect(s1, key, value, r, s2)
        },
        r is Ok,
        get_effect(s2, other, g2, s3),
        g2 is Ok,
    ensures
        g matches Ok(v) && g2 matches Ok(v2) && opt_view(v2) == opt_view(v),
{
}

/// A remove undoes a set: when a `get` of `key` found nothing, and then a
/// `set` of the key and a `remove` of it both succeeded, the engine holds
/// what it held before, and a `get` of the key that succeeds gives `None`.
pub proof fn law_engine_remove_undoes_set(
    s0: Map<Seq<char>, Seq<char>>,
    key: Seq<char>,
    g: Result<Option<String>, DBError>,
    s1: Map<Seq<char>, Seq<char>>,
    value: Seq<char>,
    r1: Result<Option<String>, DBError>,
    s2: Map<Seq<char>, Seq<char>>,
    r2: Result<Option<String>, DBError>,
    s3: Map<Seq<char>, Seq<char>>,
    g2: Result<Option<String>, DBError>,
    s4: Map<Seq<char>, Seq<char>>,
)
    requires
        get_effect(s0, key, g, s1),
        g == Ok::<Option<String>, DBError>(None),
        set_effect(s1, key, value, r1, s2),
        r1 is Ok,
        remove_effect(s2, key, r2, s3),
        r2 is Ok,
        get_effect(s3, key, g2, s4),
        g2 is Ok,
    ensures
        s3 == s0,
        g2 == Ok::<Option<String>, DBError>(None),
{
    assert(s3 =~= s0);
}

/// Which engine method a call was.
pub enum EngineOp {
    Read,
    Write,
    Delete,
}

/// One call made on an engine: the method, the key, the value (for a
/// write) and what the call returned.
pub struct EngineCall {
    pub op: EngineOp,
    pub key: Seq<char>,
    pub value: Seq<char>,
    pub result: Result<Option<String>, DBError>,
}

/// What the call `c` did to an engine holding `before`, which holds `after`
/// once the call returned.
pub open spec fn call_effect(
    before: Map<Seq<char>, Seq<char>>,
    c: EngineCall,
    after: Map<Seq<char>, Seq<char>>,
) -> bool {
    match c.op {
        EngineOp::Read => get_effect(before, c.key, c.result, after),
        EngineOp::Write => set_effect(before, c.key, c.value, c.result, after),
        EngineOp::Delete => remove_effect(before, c.key, c.result, after),
    }
}

/// The calls after the first leave `key` alone: each is a read, or a write
/// or delete of another key that succeeded.
pub open spec fn leave_key_alone(calls: Seq<EngineCall>, key: Seq<char>) -> bool {
    forall|i: int|
        0 < i < calls.len() ==> (#[trigger] calls[i]).op is Read || (calls[i].key != key
            && calls[i].result is Ok)
}

proof fn lemma_value_survives(
    states: Seq<Map<Seq<char>, Seq<char>>>,
    calls: Seq<EngineCall>,
    key: Seq<char>,
    value: Seq<char>,
    n: int,
)
    requires
        states.len() == calls.len() + 1,
        1 <= n <= calls.len(),
        forall|i: int| 0 <= i < calls.len() ==> call_effect(states[i], #[trigger] calls[i], states[i + 1]),
        calls[0].op is Write,
        calls[0].key == key,
        calls[0].value == value,
        calls[0].result is Ok,
        leave_key_alone(calls, key),
    ensures
        states[n].get(key) == Some(value),
    decreases n,
{
    if n == 1 {
        assert(call_effect(states[0], calls[0], states[1]));
    } else {
        lemma_value_survives(states, calls, key, value, n - 1);
        let j = n - 1;
        assert(call_effect(states[j], calls[j], states[j + 1]));
        assert(j + 1 == n);
        if calls[j].op is Write {
            assert(states[n] == states[j].insert(calls[j].key, calls[j].value));
        } else if calls[j].op is Delete {
            assert(states[n] == states[j].remove(calls[j].key));
        }
    }
}

/// The last set wins, whatever is done to other keys afterwards: once a
/// `set` of `key` to `value` succeeded, and after it came only reads of any
/// key and successful writes or deletes of other keys, every read of `key`
/// among them that succeeded gave `Some(value)`, and the engine still maps
/// `key` to `value`.
pub proof fn law_engine_last_set_survives(
    states: Seq<Map<Seq<char>, Seq<char>>>,
    calls: Seq<EngineCall>,
    key: Seq<char>,
    value: Seq<char>,
)
    requires
        states.len() == calls.len() + 1,
        calls.len() >= 1,
        forall|i: int| 0 <= i < calls.len() ==> call_effect(states[i], #[trigger] calls[i], states[i + 1]),
        calls[0].op is Write,
        calls[0].key == key,
        calls[0].value == value,
        calls[0].result is Ok,
        leave_key_alone(calls, key),
    ensures
        states.last().get(key) == Some(value),
        forall|i: int|
            0 < i < calls.len() && (#[trigger] calls[i]).op is Read && calls[i].key == key
                && calls[i].result is Ok ==> (calls[i].result matches Ok(v) && opt_view(v) == Some(
                value,
            )),
{
    lemma_value_survives(states, calls, key, value, calls.len() as int);
    assert forall|i: int|
        0 < i < calls.len() && (#[trigger] calls[i]).op is Read && calls[i].key == key
            && calls[i].result is Ok implies (calls[i].result matches Ok(v) && opt_view(v) == Some(
        value,
    )) by {
        lemma_value_survives(states, calls, key, value, i);
        assert(call_effect(states[i], calls[i], states[i + 1]));
    }
}

/// A key cannot be removed twice: once a `remove` of `key` succeeded, a
/// second `remove` of it fails, and when it fails with `NoKey` nothing
/// changed.
pub proof fn law_engine_remove_twice(
    s0: Map<Seq<char>, Seq<char>>,
    key: Seq<char>,
    r1: Result<Option<String>, DBError>,
    s1: Map<Seq<char>, Seq<char>>,
    r2: Result<Option<String>, DBError>,
    s2: Map<Seq<char>, Seq<char>>,
)
    requires
        remove_effect(s0, key, r1, s1),
        r1 is Ok,
        remove_effect(s1, key, r2, s2),
    ensures
        r2 is Err,
{
}

/// The storage engines a server can be started with.
#[derive(Debug, PartialEq, Eq, Structural)]
pub enum Engine {
    KvStore,
    SledKvsEngine,
}

/// The engine named `name` on the command line: `kvs` or `sled`; any other
/// name is refused with `DBError::Server`.
pub fn parse_engine(name: &str) -> (r: Result<Engine, DBError>)
    ensures
        name@ == "kvs"@ ==> r == Ok::<Engine, DBError>(Engine::KvStore),
        name@ == "sled"@ ==> r == Ok::<Engine, DBError>(Engine::SledKvsEngine),
        name@ != "kvs"@ && name@ != "sled"@ ==> (r matches Err(e) && e is Server),
{
    proof {
        reveal_strlit("kvs");
        reveal_strlit("sled");
        assert("kvs"@.len() != "sled"@.len());
    }
    if str_eq(name, "kvs") {
        Ok(Engine::KvStore)
    } else if str_eq(name, "sled") {
        Ok(Engine::SledKvsEngine)
    } else {
        Err(DBError::server())
    }
}

/// Whether the engine recorded in a data directory's configuration, given
/// as the JSON text of its name (with the quotes), is the engine
/// `requested`.
pub fn engine_matches_config(engine_json: &mut str, requested: &str) -> (same: bool)
    requires
        trimmable(old(engine_json)),
    ensures
        same == (old(engine_json)@.subrange(1, old(engine_json)@.len() - 1) == requested@),
        final(engine_json)@ == old(engine_json)@,
{
    let name = trim_string(engine_json);
    str_eq(name, requested)
}

} // verus!
