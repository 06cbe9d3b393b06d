//! The method registry: the closed set of HTTP verb tokens, parsed
//! from text by exact-token match.

use vstd::prelude::*;
use crate::scan::str_eq;

verus! {

/// An HTTP verb, produced only by [`Method::parse`].
#[derive(Clone, Copy, Debug, PartialEq, Eq, Structural)]
pub enum Method {
    GET,
    POST,
    PUT,
    DELETE,
    HEAD,
    CONNECT,
    OPTIONS,
    TRACE,
    PATCH,
}

/// The failure of [`Method::parse`] on a token outside the registry.
#[derive(Clone, Copy, Debug, PartialEq, Eq, Structural)]
pub struct MethodError;

/// The verb whose token is exactly `tok`, if any. Matching is
/// case-sensitive; an empty or unknown token matches nothing.
pub open spec fn method_of_token(tok: Seq<char>) -> Option<Method> {
    if tok == "GET"@ {
        Some(Method::GET)
    } else if tok == "POST"@ {
        Some(Method::POST)
    } else if tok == "PUT"@ {
        Some(Method::PUT)
    } else if tok == "DELETE"@ {
        Some(Method::DELETE)
    } else if tok == "HEAD"@ {
        Some(Method::HEAD)
    } else if tok == "CONNECT"@ {
        Some(Method::CONNECT)
    } else if tok == "OPTIONS"@ {
        Some(Method::OPTIONS)
    } else if tok == "TRACE"@ {
        Some(Method::TRACE)
    } else if tok == "PATCH"@ {
        Some(Method::PATCH)
    } else {
        None
    }
}

impl Method {
    /// Parses a verb token; fails exactly on tokens outside the
    /// registry.
    pub fn parse(token: &str) -> (r: Result<Method, MethodError>)
        ensures
            match method_of_token(token@) {
                Some(m) => r == Ok::<Method, MethodError>(m),
                None => r == Err::<Method, MethodError>(MethodError),
            },
    {
        if str_eq(token, "GET") {
            Ok(Method::GET)
        } else if str_eq(token, "POST") {
            Ok(Method::POST)
        } else if str_eq(token, "PUT") {
            Ok(Method::PUT)
        } else if str_eq(token, "DELETE") {
            Ok(Method::DELETE)
        } else if str_eq(token, "HEAD") {
            Ok(Method::HEAD)
        } else if str_eq(token, "CONNECT") {
            Ok(Method::CONNECT)
        } else if str_eq(token, "OPTIONS") {
            Ok(Method::OPTIONS)
        } else if str_eq(token, "TRACE") {
            Ok(Method::TRACE)
        } else if str_eq(token, "PATCH") {
            Ok(Method::PATCH)
        } else {
            Err(MethodError)
        }
    }
}

} // verus!
