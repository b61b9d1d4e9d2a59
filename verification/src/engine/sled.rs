//! The storage engine over a `sled` tree.
use vstd::prelude::*;
use vstd::utf8::*;
use crate::errors::DBError;
use super::{EngineCall, EngineOp, KvsEngine};

verus! {

broadcast use {encode_utf8_valid_utf8, encode_utf8_decode_utf8};

/// A tree of the `sled` embedded database.
#[verifier::external_type_specification]
#[verifier::external_body]
pub struct ExTree(sled::Tree);

/// A path in the file system.
#[verifier::external_type_specification]
#[verifier::external_body]
pub struct ExPathBuf(std::path::PathBuf);

/// The pairs of bytes a `sled` tree holds, key to value.
pub uninterp spec fn tree_contents(tree: sled::Tree) -> Map<Seq<u8>, Seq<u8>>;

/// The pairs of bytes that a crash and restart of the database would give
/// back for the tree: what its last successful flush made durable.
pub uninterp spec fn tree_recoverable(tree: sled::Tree) -> Map<Seq<u8>, Seq<u8>>;

/// The abstract view of optional bytes.
pub open spec fn bytes_view(o: Option<Vec<u8>>) -> Option<Seq<u8>> {
    match o {
        Some(v) => Some(v@),
        None => None,
    }
}

/// `sled::Tree::insert`: on success the tree maps `key` to `value` and the
/// result is the value the key had before. Nothing is claimed of the tree
/// when it fails.
#[verifier::external_body]
fn tree_insert(tree: &mut sled::Tree, key: &[u8], value: &[u8]) -> (r: Result<
    Option<Vec<u8>>,
    sled::Error,
>)
    ensures
        r matches Ok(prev) ==> {
            &&& tree_contents(*final(tree)) == tree_contents(*old(tree)).insert(key@, value@)
            &&& bytes_view(prev) == tree_contents(*old(tree)).get(key@)
        },
{
    tree.insert(key, value).map(|prev| prev.map(|v| v.to_vec()))
}

/// `sled::Tree::get`: on success, the value `key` has in the tree.
#[verifier::external_body]
fn tree_get(tree: &sled::Tree, key: &[u8]) -> (r: Result<Option<Vec<u8>>, sled::Error>)
    ensures
        r matches Ok(found) ==> bytes_view(found) == tree_contents(*tree).get(key@),
{
    tree.get(key).map(|found| found.map(|v| v.to_vec()))
}

/// `sled::Tree::remove`: on success the tree no longer holds `key` and the
/// result is the value it had. Nothing is claimed of the tree when it fails.
#[verifier::external_body]
fn tree_remove(tree: &mut sled::Tree, key: &[u8]) -> (r: Result<Option<Vec<u8>>, sled::Error>)
    ensures
        r matches Ok(prev) ==> {
            &&& tree_contents(*final(tree)) == tree_contents(*old(tree)).remove(key@)
            &&& bytes_view(prev) == tree_contents(*old(tree)).get(key@)
        },
{
    tree.remove(key).map(|prev| prev.map(|v| v.to_vec()))
}

/// `sled::Tree::flush`: writes the tree's dirty buffers to disk and
/// fsyncs; it leaves what the tree holds as it was. When it succeeds, sled
/// guarantees that every earlier write is recovered after a crash, so what
/// a restart gives back is what the tree holds. The number of bytes it
/// reports depends on the machine, so nothing is claimed of it.
#[verifier::external_body]
fn tree_flush(tree: &mut sled::Tree) -> (r: Result<usize, sled::Error>)
    ensures
        tree_contents(*final(tree)) == tree_contents(*old(tree)),
        r is Ok ==> tree_recoverable(*final(tree)) == tree_contents(*final(tree)),
{
    tree.flush()
}

/// The error of `String::from_utf8`.
#[verifier::external_type_specification]
#[verifier::external_body]
pub struct ExFromUtf8Error(std::string::FromUtf8Error);

/// `String::from_utf8`: the string that `bytes` encode; it fails exactly
/// when they are not valid UTF-8.
#[verifier::external_body]
fn string_from_utf8(bytes: Vec<u8>) -> (r: Result<String, std::string::FromUtf8Error>)
    ensures
        r is Ok <==> valid_utf8(bytes@),
        r matches Ok(s) ==> s@ == decode_utf8(bytes@),
{
    String::from_utf8(bytes)
}

/// The map from keys to values that a tree holding `contents` stands for:
/// a key is there when its UTF-8 bytes are a key of the tree, and its value
/// is the text those bytes' value decodes to.
pub open spec fn string_store(contents: Map<Seq<u8>, Seq<u8>>) -> Map<Seq<char>, Seq<char>> {
    Map::new(
        |k: Seq<char>| contents.contains_key(encode_utf8(k)),
        |k: Seq<char>| decode_utf8(contents[encode_utf8(k)]),
    )
}

/// The result of a `get` whose tree lookup came back with `found`: the
/// stored text, `None` for a missing key, `DBError::Utf8` for a value that
/// is not valid UTF-8 and `DBError::Sled` when the lookup failed.
pub fn value_from_stored(found: Result<Option<Vec<u8>>, sled::Error>) -> (r: Result<
    Option<String>,
    DBError,
>)
    ensures
        match found {
            Err(e) => r == Err::<Option<String>, DBError>(DBError::Sled(e)),
            Ok(None) => r == Ok::<Option<String>, DBError>(None),
            Ok(Some(bytes)) => if valid_utf8(bytes@) {
                r matches Ok(Some(s)) && s@ == decode_utf8(bytes@)
            } else {
                r matches Err(e) && e is Utf8
            },
        },
{
    match found {
        Err(e) => Err(DBError::Sled(e)),
        Ok(None) => Ok(None),
        Ok(Some(bytes)) => match string_from_utf8(bytes) {
            Ok(s) => Ok(Some(s)),
            Err(_) => Err(DBError::Utf8),
        },
    }
}

/// The result of a `set` whose insert came back with `inserted` and, when
/// the insert succeeded, whose flush came back with `flushed`: `Ok(None)`
/// when both succeeded, else `DBError::Sled` with the error of the call that
/// failed.
pub fn write_outcome(
    inserted: Result<Option<Vec<u8>>, sled::Error>,
    flushed: Option<Result<usize, sled::Error>>,
) -> (r: Result<Option<String>, DBError>)
    requires
        inserted is Ok <==> flushed is Some,
    ensures
        match inserted {
            Err(e) => r == Err::<Option<String>, DBError>(DBError::Sled(e)),
            Ok(_) => match flushed {
                Some(Ok(_)) => r == Ok::<Option<String>, DBError>(None),
                Some(Err(e)) => r == Err::<Option<String>, DBError>(DBError::Sled(e)),
                None => false,
            },
        },
{
    match inserted {
        Err(e) => Err(DBError::Sled(e)),
        Ok(_) => match flushed {
            Some(Ok(_)) => Ok(None),
            Some(Err(e)) => Err(DBError::Sled(e)),
            None => Err(DBError::Log),
        },
    }
}

/// The result of a `remove` whose tree removal came back with `removed`
/// and, when it found the key, whose flush came back with `flushed`:
/// `NoKey` when the key was not there, `Ok(None)` when it was removed and
/// flushed, else `DBError::Sled` with the error of the call that failed.
pub fn removal_outcome(
    removed: Result<Option<Vec<u8>>, sled::Error>,
    flushed: Option<Result<usize, sled::Error>>,
) -> (r: Result<Option<String>, DBError>)
    requires
        (removed matches Ok(Some(_))) <==> flushed is Some,
    ensures
        match removed {
            Err(e) => r == Err::<Option<String>, DBError>(DBError::Sled(e)),
            Ok(None) => r == Err::<Option<String>, DBError>(DBError::NoKey),
            Ok(Some(_)) => match flushed {
                Some(Ok(_)) => r == Ok::<Option<String>, DBError>(None),
                Some(Err(e)) => r == Err::<Option<String>, DBError>(DBError::Sled(e)),
                None => false,
            },
        },
{
    match removed {
        Err(e) => Err(DBError::Sled(e)),
        Ok(None) => Err(DBError::no_key()),
        Ok(Some(_)) => match flushed {
            Some(Ok(_)) => Ok(None),
            Some(Err(e)) => Err(DBError::Sled(e)),
            None => Err(DBError::no_key()),
        },
    }
}

/// A key/value engine that keeps its pairs in a `sled` tree. The engine
/// owns its tree handle: no other handle reaches the same tree while the
/// engine is in use, so what the tree holds changes only through the
/// engine.
pub struct SledKvsEngine {
    path: std::path::PathBuf,
    tree: sled::Tree,
    last: Ghost<Option<EngineCall>>,
}

impl SledKvsEngine {
    /// The engine for the data directory `path`, whose pairs are those of
    /// `tree`.
    pub fn open(path: std::path::PathBuf, tree: sled::Tree) -> (r: Result<SledKvsEngine, DBError>)
        ensures
            r matches Ok(engine) && engine.contents() == tree_contents(tree)
                && engine.recoverable() == tree_recoverable(tree) && engine.data_path() == path
                && engine.last_call() is None,
    {
        Ok(SledKvsEngine { path, tree, last: Ghost(None) })
    }

    /// The engine as it is once `call`, which changed nothing else, was
    /// made on it.
    pub closed spec fn recording(self, call: EngineCall) -> SledKvsEngine {
        SledKvsEngine { last: Ghost(Some(call)), ..self }
    }

    /// What the engine's tree holds.
    pub closed spec fn contents(&self) -> Map<Seq<u8>, Seq<u8>> {
        tree_contents(self.tree)
    }

    /// What a crash and restart would give back of the engine's tree.
    pub closed spec fn recoverable(&self) -> Map<Seq<u8>, Seq<u8>> {
        tree_recoverable(self.tree)
    }

    /// The data directory the engine was opened for.
    pub closed spec fn data_path(&self) -> std::path::PathBuf {
        self.path
    }

    /// The data directory the engine was opened for.
    pub fn path(&self) -> (p: &std::path::PathBuf)
        ensures
            *p == self.data_path(),
    {
        &self.path
    }
}

impl KvsEngine for SledKvsEngine {
    open spec fn store(&self) -> Map<Seq<char>, Seq<char>> {
        string_store(self.contents())
    }

    closed spec fn last_call(&self) -> Option<EngineCall> {
        self.last@
    }

    fn set(&mut self, key: String, value: String) -> (r: Result<Option<String>, DBError>)
        ensures
            r matches Ok(v) ==> {
                &&& v is None
                &&& final(self).contents() == old(self).contents().insert(
                    encode_utf8(key@),
                    encode_utf8(value@),
                )
                &&& final(self).recoverable() == final(self).contents()
            },
            r matches Err(e) ==> e is Sled,
            final(self).data_path() == old(self).data_path(),
    {
        let ghost before = self.contents();
        let inserted = tree_insert(&mut self.tree, key.as_str().as_bytes(), value.as_str().as_bytes());
        let flushed = match &inserted {
            Ok(_) => Some(tree_flush(&mut self.tree)),
            Err(_) => None,
        };
        proof {
            if inserted is Ok {
                let k = encode_utf8(key@);
                let after = self.contents();
                assert forall|k2: Seq<char>| #[trigger] encode_utf8(k2) == k implies k2 == key@ by {
                    assert(decode_utf8(encode_utf8(k2)) == k2);
                }
                assert(string_store(after) =~= string_store(before).insert(key@, value@));
            }
        }
        let r = write_outcome(inserted, flushed);
        self.last = Ghost(Some(EngineCall { op: EngineOp::Write, key: key@, value: value@, result: r }));
        r
    }

    fn get(&mut self, key: String) -> (r: Result<Option<String>, DBError>)
        ensures
            *final(self) == old(self).recording(
                EngineCall { op: EngineOp::Read, key: key@, value: Seq::empty(), result: r },
            ),
            final(self).contents() == old(self).contents(),
            final(self).recoverable() == old(self).recoverable(),
            final(self).data_path() == old(self).data_path(),
            r matches Ok(v) ==> (v is None <==> !old(self).contents().contains_key(
                encode_utf8(key@),
            )),
            r matches Ok(Some(s)) ==> {
                &&& old(self).contents().contains_key(encode_utf8(key@))
                &&& encode_utf8(s@) == old(self).contents()[encode_utf8(key@)]
            },
            r matches Err(e) ==> e is Sled || (e is Utf8 && old(self).contents().contains_key(
                encode_utf8(key@),
            ) && !valid_utf8(old(self).contents()[encode_utf8(key@)])),
    {
        let found = tree_get(&self.tree, key.as_str().as_bytes());
        proof {
            if found is Ok && found->Ok_0 is Some {
                let b = found->Ok_0->Some_0@;
                if valid_utf8(b) {
                    decode_utf8_encode_utf8(b);
                }
            }
        }
        let r = value_from_stored(found);
        self.last = Ghost(Some(EngineCall { op: EngineOp::Read, key: key@, value: Seq::empty(), result: r }));
        r
    }

    fn remove(&mut self, key: String) -> (r: Result<Option<String>, DBError>)
        ensures
            r matches Ok(v) ==> {
                &&& v is None
                &&& old(self).contents().contains_key(encode_utf8(key@))
                &&& final(self).contents() == old(self).contents().remove(encode_utf8(key@))
                &&& final(self).recoverable() == final(self).contents()
            },
            r matches Err(e) ==> e is Sled || (e is NoKey && !old(self).contents().contains_key(
                encode_utf8(key@),
            ) && final(self).contents() == old(self).contents()),
            old(self).contents().contains_key(encode_utf8(key@)) ==> !(r matches Err(e) && e is NoKey),
            final(self).data_path() == old(self).data_path(),
    {
        let ghost before = self.contents();
        let removed = tree_remove(&mut self.tree, key.as_str().as_bytes());
        let flushed = match &removed {
            Ok(Some(_)) => Some(tree_flush(&mut self.tree)),
            _ => None,
        };
        proof {
            let k = encode_utf8(key@);
            if removed matches Ok(None) {
                assert(self.contents() =~= before);
            }
            if removed is Ok {
                assert forall|k2: Seq<char>| #[trigger] encode_utf8(k2) == k implies k2 == key@ by {
                    assert(decode_utf8(encode_utf8(k2)) == k2);
                }
                assert(string_store(self.contents()) =~= string_store(before).remove(key@));
            }
        }
        let r = removal_outcome(removed, flushed);
        self.last = Ghost(Some(EngineCall { op: EngineOp::Delete, key: key@, value: Seq::empty(), result: r }));
        r
    }
}

} // verus!
