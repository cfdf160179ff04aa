//! A PostgreSQL wire-protocol engine with the pooling and request-handling
//! rules of a small embedded application server.

pub mod error;
pub mod framing;
pub mod text;
pub mod chars;
pub mod textmap;
pub mod value;
pub mod rows;
pub mod query;
pub mod handshake;
pub mod pool;
pub mod jobs;
pub mod http;
pub mod json;
pub mod token;
pub mod respond;
pub mod api;
