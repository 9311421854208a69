//! A minimal HTTP/1.1 request pipeline: the text of a request is parsed into a
//! [`request::Request`], resolved against an ordered route table, answered by a
//! handler and rendered back into the text of a response.
//!
//! The crate performs no input or output. Reading the connection and the file
//! store is left to the caller, which is told what to do by [`api::Action`].

pub mod text;
pub mod types;
pub mod header_map;
pub mod request;
pub mod routes;
pub mod response;
pub mod api;
pub mod server;
