//! A minimal HTTP/1.1 wire layer: a request-line decoder and a
//! response-line encoder, with the query-string and status-code
//! registries they rest on.
//!
//! Decoded requests own their text: the decoder copies the relevant
//! substrings out of the input buffer, trading a small allocation for
//! freedom from dangling views.

pub mod decimal;
pub mod method;
pub mod query_string;
pub mod request;
pub mod response;
pub mod server;
pub mod scan;
pub mod status_code;
