//! A small key/value store: a storage engine over a `sled` tree, an
//! append-only command log, the request/response protocol spoken between
//! client and server, and the decisions the server and the client make for
//! each request.
pub mod errors;
pub mod utils;
pub mod log;
pub mod engine;
pub mod protocol;
pub mod server;
pub mod client;
pub mod thread_pool;
