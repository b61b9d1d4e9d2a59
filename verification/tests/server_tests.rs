use kvs::client::{get_outcome, remove_outcome, set_outcome};
use kvs::engine::SledKvsEngine;
use kvs::errors::DBError;
use kvs::protocol::{GetResponse, RemoveResponse, Request, Response, SetResponse};
use kvs::server::{get_response, remove_response, set_response, KvsServer};

fn fresh_server() -> (tempfile::TempDir, KvsServer<SledKvsEngine>) {
    let dir = tempfile::TempDir::new().unwrap();
    let db = sled::open(dir.path()).unwrap();
    let tree = db.open_tree("sled_tree").unwrap();
    let engine = SledKvsEngine::open(dir.path().to_path_buf(), tree).unwrap();
    (dir, KvsServer::new(engine))
}

fn get(server: &mut KvsServer<SledKvsEngine>, key: &str) -> Response {
    server.serve_request(Request::Get { key: key.to_string() })
}

#[test]
fn server_get_after_put() {
    let (_dir, mut server) = fresh_server();
    let r = server.serve_request(Request::Put { key: "k".to_string(), value: "v".to_string() });
    assert!(matches!(r, Response::Put(SetResponse::Done)));
    match get(&mut server, "k") {
        Response::Get(GetResponse::Value(v)) => assert_eq!(v, Some("v".to_string())),
        other => panic!("unexpected {:?}", other),
    }
}

#[test]
fn server_put_overwrites() {
    let (_dir, mut server) = fresh_server();
    server.serve_request(Request::Put { key: "k".to_string(), value: "v1".to_string() });
    server.serve_request(Request::Put { key: "k".to_string(), value: "v2".to_string() });
    match get(&mut server, "k") {
        Response::Get(GetResponse::Value(v)) => assert_eq!(v, Some("v2".to_string())),
        other => panic!("unexpected {:?}", other),
    }
}

#[test]
fn server_get_missing_is_none() {
    let (_dir, mut server) = fresh_server();
    match get(&mut server, "missing") {
        Response::Get(GetResponse::Value(v)) => assert_eq!(v, None),
        other => panic!("unexpected {:?}", other),
    }
}

#[test]
fn server_remove_then_get_is_none() {
    let (_dir, mut server) = fresh_server();
    server.serve_request(Request::Put { key: "k".to_string(), value: "v".to_string() });
    let r = server.serve_request(Request::Remove { key: "k".to_string() });
    assert!(matches!(r, Response::Remove(RemoveResponse::Done)));
    match get(&mut server, "k") {
        Response::Get(GetResponse::Value(v)) => assert_eq!(v, None),
        other => panic!("unexpected {:?}", other),
    }
}

#[test]
fn server_refuses_removing_missing_key() {
    let (_dir, mut server) = fresh_server();
    match server.serve_request(Request::Remove { key: "k".to_string() }) {
        Response::Remove(RemoveResponse::Error(msg)) => assert_eq!(msg, "error"),
        other => panic!("unexpected {:?}", other),
    }
}

#[test]
fn server_refuses_second_remove() {
    let (_dir, mut server) = fresh_server();
    server.serve_request(Request::Put { key: "k".to_string(), value: "v".to_string() });
    server.serve_request(Request::Remove { key: "k".to_string() });
    assert!(matches!(
        server.serve_request(Request::Remove { key: "k".to_string() }),
        Response::Remove(RemoveResponse::Error(_))
    ));
}

#[test]
fn server_put_leaves_other_keys() {
    let (_dir, mut server) = fresh_server();
    server.serve_request(Request::Put { key: "a".to_string(), value: "1".to_string() });
    server.serve_request(Request::Put { key: "b".to_string(), value: "2".to_string() });
    match get(&mut server, "a") {
        Response::Get(GetResponse::Value(v)) => assert_eq!(v, Some("1".to_string())),
        other => panic!("unexpected {:?}", other),
    }
}

#[test]
fn client_outcomes() {
    assert_eq!(get_outcome(GetResponse::Value(Some("v".to_string()))).unwrap(), Some("v".to_string()));
    assert_eq!(get_outcome(GetResponse::Value(None)).unwrap(), None);
    assert!(matches!(get_outcome(GetResponse::Error("error".to_string())), Err(DBError::Server)));
    assert!(set_outcome(SetResponse::Done).is_ok());
    assert!(matches!(set_outcome(SetResponse::Error("e".to_string())), Err(DBError::Server)));
    assert!(remove_outcome(RemoveResponse::Done).is_ok());
    assert!(matches!(remove_outcome(RemoveResponse::Error("e".to_string())), Err(DBError::Server)));
}

#[test]
fn responses_follow_engine_outcomes() {
    match get_response(Ok(Some("v".to_string()))) {
        GetResponse::Value(v) => assert_eq!(v, Some("v".to_string())),
        other => panic!("unexpected {:?}", other),
    }
    match get_response(Err(DBError::Utf8)) {
        GetResponse::Error(m) => assert_eq!(m, "error"),
        other => panic!("unexpected {:?}", other),
    }
    assert!(matches!(set_response(Ok(None)), SetResponse::Done));
    match set_response(Err(DBError::Server)) {
        SetResponse::Error(m) => assert_eq!(m, "error"),
        other => panic!("unexpected {:?}", other),
    }
    assert!(matches!(remove_response(Ok(None)), RemoveResponse::Done));
    match remove_response(Err(DBError::NoKey)) {
        RemoveResponse::Error(m) => assert_eq!(m, "error"),
        other => panic!("unexpected {:?}", other),
    }
}

#[test]
fn client_reads_back_its_write_through_the_server() {
    let (_dir, mut server) = fresh_server();
    let put = server.serve_request(Request::Put { key: "k".to_string(), value: "v".to_string() });
    match put {
        Response::Put(a) => assert!(set_outcome(a).is_ok()),
        other => panic!("unexpected {:?}", other),
    }
    match get(&mut server, "k") {
        Response::Get(a) => assert_eq!(get_outcome(a).unwrap(), Some("v".to_string())),
        other => panic!("unexpected {:?}", other),
    }
    match get(&mut server, "never") {
        Response::Get(a) => assert_eq!(get_outcome(a).unwrap(), None),
        other => panic!("unexpected {:?}", other),
    }
    match server.serve_request(Request::Remove { key: "never".to_string() }) {
        Response::Remove(a) => assert!(matches!(remove_outcome(a), Err(DBError::Server))),
        other => panic!("unexpected {:?}", other),
    }
}

#[test]
fn server_remove_leaves_other_keys() {
    let (_dir, mut server) = fresh_server();
    server.serve_request(Request::Put { key: "a".to_string(), value: "1".to_string() });
    server.serve_request(Request::Put { key: "b".to_string(), value: "2".to_string() });
    server.serve_request(Request::Remove { key: "a".to_string() });
    match get(&mut server, "b") {
        Response::Get(GetResponse::Value(v)) => assert_eq!(v, Some("2".to_string())),
        other => panic!("unexpected {:?}", other),
    }
}
