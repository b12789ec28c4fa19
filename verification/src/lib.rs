//! A one-shot CGI responder, as a library: it finds the `page` parameter of
//! a query string, picks the text that belongs to it, and lays out the
//! response that goes to the web server.

pub mod content;
pub mod query;
pub mod response;
