//! A small HTTP/1.1 protocol core: request parsing, response construction and
//! serialization, and the routing of requests to handlers, with every
//! function specified and proved.

pub mod text;
pub mod headers;
pub mod httprequest;
pub mod httpresponse;
pub mod json;
pub mod handlers;
pub mod router;
pub mod server;
