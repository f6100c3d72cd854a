//! Request/response logic of an HTTP service toolkit: CORS header
//! policy, request routing decisions, body limits, URL parameters,
//! error responses and the decisions of its middleware state machines,
//! together with the file and command bookkeeping of a project generator.

pub mod bytes_text;
pub mod rel_path;
pub mod error;
pub mod response;
pub mod method;
pub mod cors;
pub mod router;
pub mod limit;
pub mod matcher;
pub mod extract;
pub mod geenie;
pub mod body;
pub mod serve;
pub mod cookies;
pub mod handler;
pub mod modifier;
pub mod client;
pub mod multipart;
