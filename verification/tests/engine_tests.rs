use kvs::engine::sled::{removal_outcome, value_from_stored, write_outcome};
use kvs::engine::{engine_matches_config, parse_engine, Engine, KvsEngine, SledKvsEngine};
use kvs::errors::DBError;

fn fresh_engine() -> (tempfile::TempDir, SledKvsEngine) {
    let dir = tempfile::TempDir::new().unwrap();
    let db = sled::open(dir.path()).unwrap();
    let tree = db.open_tree("sled_tree").unwrap();
    let engine = SledKvsEngine::open(dir.path().to_path_buf(), tree).unwrap();
    (dir, engine)
}

#[test]
fn get_after_set_gives_the_value() {
    let (_dir, mut engine) = fresh_engine();
    assert_eq!(engine.set("key1".to_string(), "value1".to_string()).unwrap(), None);
    assert_eq!(engine.get("key1".to_string()).unwrap(), Some("value1".to_string()));
}

#[test]
fn set_overwrites_the_value() {
    let (_dir, mut engine) = fresh_engine();
    engine.set("key1".to_string(), "value1".to_string()).unwrap();
    engine.set("key1".to_string(), "value2".to_string()).unwrap();
    assert_eq!(engine.get("key1".to_string()).unwrap(), Some("value2".to_string()));
}

#[test]
fn get_missing_key_is_none() {
    let (_dir, mut engine) = fresh_engine();
    assert_eq!(engine.get("nothing".to_string()).unwrap(), None);
}

#[test]
fn remove_drops_the_key() {
    let (_dir, mut engine) = fresh_engine();
    engine.set("key1".to_string(), "value1".to_string()).unwrap();
    assert_eq!(engine.remove("key1".to_string()).unwrap(), None);
    assert_eq!(engine.get("key1".to_string()).unwrap(), None);
}

#[test]
fn remove_missing_key_is_no_key() {
    let (_dir, mut engine) = fresh_engine();
    assert!(matches!(engine.remove("nothing".to_string()), Err(DBError::NoKey)));
    engine.set("k".to_string(), "v".to_string()).unwrap();
    engine.remove("k".to_string()).unwrap();
    assert!(matches!(engine.remove("k".to_string()), Err(DBError::NoKey)));
}

#[test]
fn other_keys_are_untouched() {
    let (_dir, mut engine) = fresh_engine();
    engine.set("a".to_string(), "1".to_string()).unwrap();
    engine.set("b".to_string(), "2".to_string()).unwrap();
    engine.remove("a".to_string()).unwrap();
    assert_eq!(engine.get("b".to_string()).unwrap(), Some("2".to_string()));
}

#[test]
fn unicode_keys_and_values_round_trip() {
    let (_dir, mut engine) = fresh_engine();
    engine.set("clé".to_string(), "välue✓".to_string()).unwrap();
    assert_eq!(engine.get("clé".to_string()).unwrap(), Some("välue✓".to_string()));
}

#[test]
fn invalid_utf8_value_is_reported() {
    let dir = tempfile::TempDir::new().unwrap();
    let db = sled::open(dir.path()).unwrap();
    let tree = db.open_tree("sled_tree").unwrap();
    tree.insert("bad", vec![0xffu8, 0xfe]).unwrap();
    let mut engine = SledKvsEngine::open(dir.path().to_path_buf(), tree).unwrap();
    assert!(matches!(engine.get("bad".to_string()), Err(DBError::Utf8)));
    assert_eq!(engine.remove("bad".to_string()).unwrap(), None);
}

#[test]
fn values_are_kept_in_the_tree_as_utf8_bytes() {
    let dir = tempfile::TempDir::new().unwrap();
    {
        let db = sled::open(dir.path()).unwrap();
        let tree = db.open_tree("sled_tree").unwrap();
        let mut engine = SledKvsEngine::open(dir.path().to_path_buf(), tree).unwrap();
        engine.set("k".to_string(), "välue".to_string()).unwrap();
        assert_eq!(engine.path(), &dir.path().to_path_buf());
    }
    let db = sled::open(dir.path()).unwrap();
    let tree = db.open_tree("sled_tree").unwrap();
    assert_eq!(tree.get("k").unwrap().unwrap().as_ref(), "välue".as_bytes());
}

#[test]
fn set_and_remove_survive_a_reopen() {
    let dir = tempfile::TempDir::new().unwrap();
    {
        let db = sled::open(dir.path()).unwrap();
        let tree = db.open_tree("sled_tree").unwrap();
        let mut engine = SledKvsEngine::open(dir.path().to_path_buf(), tree).unwrap();
        engine.set("a".to_string(), "1".to_string()).unwrap();
        engine.set("b".to_string(), "2".to_string()).unwrap();
        engine.remove("a".to_string()).unwrap();
    }
    let db = sled::open(dir.path()).unwrap();
    let tree = db.open_tree("sled_tree").unwrap();
    let mut engine = SledKvsEngine::open(dir.path().to_path_buf(), tree).unwrap();
    assert_eq!(engine.get("a".to_string()).unwrap(), None);
    assert_eq!(engine.get("b".to_string()).unwrap(), Some("2".to_string()));
}

#[test]
fn write_and_removal_outcomes() {
    let io = || sled::Error::Unsupported("x".to_string());
    assert_eq!(write_outcome(Ok(None), Some(Ok(0))).unwrap(), None);
    assert_eq!(write_outcome(Ok(Some(vec![1])), Some(Ok(3))).unwrap(), None);
    assert!(matches!(write_outcome(Ok(None), Some(Err(io()))), Err(DBError::Sled(_))));
    assert!(matches!(write_outcome(Err(io()), None), Err(DBError::Sled(_))));
    assert_eq!(removal_outcome(Ok(Some(vec![1])), Some(Ok(0))).unwrap(), None);
    assert!(matches!(removal_outcome(Ok(None), None), Err(DBError::NoKey)));
    assert!(matches!(removal_outcome(Ok(Some(vec![1])), Some(Err(io()))), Err(DBError::Sled(_))));
    assert!(matches!(removal_outcome(Err(io()), None), Err(DBError::Sled(_))));
}

#[test]
fn parse_engine_names() {
    assert_eq!(parse_engine("kvs").unwrap(), Engine::KvStore);
    assert_eq!(parse_engine("sled").unwrap(), Engine::SledKvsEngine);
    assert!(matches!(parse_engine("other"), Err(DBError::Server)));
}

#[test]
fn engine_matches_config_compares_unquoted_name() {
    let mut text = String::from("\"sled\"");
    assert!(engine_matches_config(text.as_mut_str(), "sled"));
    let mut text = String::from("\"sled\"");
    assert!(!engine_matches_config(text.as_mut_str(), "kvs"));
}

#[test]
fn value_from_stored_decodes_or_refuses() {
    assert_eq!(value_from_stored(Ok(None)).unwrap(), None);
    assert_eq!(value_from_stored(Ok(Some("välue".as_bytes().to_vec()))).unwrap(), Some("välue".to_string()));
    assert!(matches!(value_from_stored(Ok(Some(vec![0xc3u8]))), Err(DBError::Utf8)));
    let unsupported = sled::Error::Unsupported("read only".to_string());
    assert!(matches!(value_from_stored(Err(unsupported)), Err(DBError::Sled(_))));
}

#[test]
fn remove_undoes_set() {
    let (_dir, mut engine) = fresh_engine();
    assert_eq!(engine.get("k".to_string()).unwrap(), None);
    engine.set("k".to_string(), "v".to_string()).unwrap();
    assert_eq!(engine.remove("k".to_string()).unwrap(), None);
    assert_eq!(engine.get("k".to_string()).unwrap(), None);
}

#[test]
fn last_of_many_sets_wins() {
    let (_dir, mut engine) = fresh_engine();
    for i in 0..5 {
        engine.set("k".to_string(), format!("v{}", i)).unwrap();
    }
    assert_eq!(engine.get("k".to_string()).unwrap(), Some("v4".to_string()));
}
