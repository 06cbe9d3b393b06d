//! The request decoder: turns a raw byte buffer into a structured
//! request, or one of four decode errors.
//!
//! The buffer is read as UTF-8 text; the text is split three times at
//! the first space or carriage return into method, path and protocol
//! tokens, and everything after the third split is discarded (headers
//! and body are never inspected). The protocol must be exactly
//! `HTTP/1.1`; the method must be in the registry; a `?` in the path
//! splits off the query string.

use vstd::prelude::*;
use vstd::utf8::{decode_utf8, valid_utf8};
use crate::method::{method_of_token, Method};
use crate::query_string::{query_string_model, QueryString};
use crate::scan::{find_char, find_delim, find_first, is_delim, str_eq, eq_char};

verus! {

/// A decode failure: the single terminal error of one request.
#[derive(Clone, Copy, Debug, PartialEq, Eq, Structural)]
pub enum ParseError {
    /// Fewer than three delimited tokens are present.
    InvalidRequest,
    /// The buffer is not valid UTF-8 text.
    InvalidEncoding,
    /// The protocol token is present but not exactly `HTTP/1.1`.
    InvalidProtocol,
    /// The method token matches no recognized verb.
    InvalidMethod,
}

impl ParseError {
    /// The human-readable message of the error.
    pub fn message(&self) -> (r: &str)
        ensures
            r@ == (match self {
                ParseError::InvalidRequest => "Invalid Request"@,
                ParseError::InvalidEncoding => "Invalid Encoding"@,
                ParseError::InvalidProtocol => "Invalid Protocol"@,
                ParseError::InvalidMethod => "Invalid Method"@,
            }),
    {
        match self {
            ParseError::InvalidRequest => "Invalid Request",
            ParseError::InvalidEncoding => "Invalid Encoding",
            ParseError::InvalidProtocol => "Invalid Protocol",
            ParseError::InvalidMethod => "Invalid Method",
        }
    }
}

/// A structured request: path, optional query string, and method. It
/// owns its text, copied out of the input buffer at decode time.
#[derive(Debug)]
pub struct Request {
    pub path: String,
    pub query: Option<QueryString>,
    pub method: Method,
}

/// What a request stands for: its path and query as mathematical
/// values, beside its method.
pub ghost struct RequestModel {
    pub path: Seq<char>,
    pub query: Option<Map<Seq<char>, Seq<Seq<char>>>>,
    pub method: Method,
}

impl View for Request {
    type V = RequestModel;

    open spec fn view(&self) -> RequestModel {
        RequestModel {
            path: self.path@,
            query: match self.query {
                Some(q) => Some(q@),
                None => None,
            },
            method: self.method,
        }
    }
}

/// The word before the first delimiter (space or carriage return) of
/// `s`, beside everything after that delimiter; `None` when `s` has no
/// delimiter.
pub open spec fn spec_next_word(s: Seq<char>) -> Option<(Seq<char>, Seq<char>)> {
    match find_first(s, is_delim()) {
        None => None,
        Some(i) => Some((s.take(i), s.skip(i + 1))),
    }
}

/// The path part of a path token: everything before its first `?`, or
/// the whole token when it has none.
pub open spec fn path_of(tok: Seq<char>) -> Seq<char> {
    match find_first(tok, eq_char('?')) {
        None => tok,
        Some(i) => tok.take(i),
    }
}

/// The query mapping of a path token: the decoded text after its first
/// `?`, or `None` when it has none.
pub open spec fn query_of(tok: Seq<char>) -> Option<Map<Seq<char>, Seq<Seq<char>>>> {
    match find_first(tok, eq_char('?')) {
        None => None,
        Some(i) => Some(query_string_model(tok.skip(i + 1))),
    }
}

/// What decoding a request text yields: the structured request, or the
/// first applicable error. Three tokens are taken in order; a missing
/// delimiter is `InvalidRequest`; a protocol other than `HTTP/1.1` is
/// `InvalidProtocol`; an unrecognized method is `InvalidMethod`.
pub open spec fn parse_request_line(text: Seq<char>) -> Result<RequestModel, ParseError> {
    match spec_next_word(text) {
        None => Err(ParseError::InvalidRequest),
        Some((mtok, rest1)) => match spec_next_word(rest1) {
            None => Err(ParseError::InvalidRequest),
            Some((ptok, rest2)) => match spec_next_word(rest2) {
                None => Err(ParseError::InvalidRequest),
                Some((proto, _)) => if proto != "HTTP/1.1"@ {
                    Err(ParseError::InvalidProtocol)
                } else {
                    match method_of_token(mtok) {
                        None => Err(ParseError::InvalidMethod),
                        Some(m) => Ok(
                            RequestModel {
                                path: path_of(ptok),
                                query: query_of(ptok),
                                method: m,
                            },
                        ),
                    }
                },
            },
        },
    }
}

/// Splits `request` at its first space or carriage return: the word
/// before the delimiter, and everything after it. `None` when no
/// delimiter occurs.
pub fn get_next_word<'a>(request: &'a str) -> (r: Option<(&'a str, &'a str)>)
    ensures
        match r {
            Some(pair) => spec_next_word(request@) == Some((pair.0@, pair.1@)),
            None => spec_next_word(request@) is None,
        },
{
    match find_delim(request) {
        None => None,
        Some(i) => {
            let n = request.unicode_len();
            let word = request.substring_char(0, i);
            let rest = request.substring_char(i + 1, n);
            proof {
                assert(word@ =~= request@.take(i as int));
                assert(rest@ =~= request@.skip(i as int + 1));
            }
            Some((word, rest))
        },
    }
}

/// Relies on `core::str::from_utf8`: it succeeds exactly on the byte
/// sequences that are valid UTF-8, and reads them as the text they
/// encode.
#[verifier::external_body]
fn bytes_as_text(buf: &[u8]) -> (r: Option<&str>)
    ensures
        r is Some <==> valid_utf8(buf@),
        r matches Some(s) ==> s@ == decode_utf8(buf@),
{
    core::str::from_utf8(buf).ok()
}

impl Request {
    /// Decodes a raw byte buffer into a request. Succeeds exactly when
    /// the buffer is valid UTF-8 text whose decoding succeeds; each
    /// error names the first rule the buffer breaks.
    pub fn try_from(buf: &[u8]) -> (r: Result<Request, ParseError>)
        ensures
            valid_utf8(buf@) ==> (match parse_request_line(decode_utf8(buf@)) {
                Ok(m) => r matches Ok(req) && req@ == m && req.wf(),
                Err(e) => r == Err::<Request, ParseError>(e),
            }),
            !valid_utf8(buf@) ==> r == Err::<Request, ParseError>(ParseError::InvalidEncoding),
    {
        let text = match bytes_as_text(buf) {
            None => {
                return Err(ParseError::InvalidEncoding);
            },
            Some(t) => t,
        };
        let (mtok, rest1) = match get_next_word(text) {
            None => {
                return Err(ParseError::InvalidRequest);
            },
            Some(p) => p,
        };
        let (ptok, rest2) = match get_next_word(rest1) {
            None => {
                return Err(ParseError::InvalidRequest);
            },
            Some(p) => p,
        };
        let (proto, _rest3) = match get_next_word(rest2) {
            None => {
                return Err(ParseError::InvalidRequest);
            },
            Some(p) => p,
        };
        if !str_eq(proto, "HTTP/1.1") {
            return Err(ParseError::InvalidProtocol);
        }
        let method = match Method::parse(mtok) {
            Err(_) => {
                return Err(ParseError::InvalidMethod);
            },
            Ok(m) => m,
        };
        match find_char(ptok, '?') {
            None => {
                proof {
                    crate::scan::lemma_find_first(ptok@, eq_char('?'));
                }
                Ok(Request { path: String::from_str(ptok), query: None, method })
            },
            Some(i) => {
                let n = ptok.unicode_len();
                let path = String::from_str(ptok.substring_char(0, i));
                let query = QueryString::from(ptok.substring_char(i + 1, n));
                proof {
                    crate::scan::lemma_find_first(ptok@, eq_char('?'));
                    assert(path@ =~= path_of(ptok@));
                    assert(forall|j: int| 0 <= j < path@.len() ==> path@[j] == ptok@[j]);
                }
                Ok(Request { path, query: Some(query), method })
            },
        }
    }

    /// Well-formedness: the path holds no `?`, and the query string,
    /// when present, is well formed.
    pub open spec fn wf(self) -> bool {
        &&& forall|i: int| 0 <= i < self.path@.len() ==> self.path@[i] != '?'
        &&& match self.query {
            Some(q) => q.wf(),
            None => true,
        }
    }

    /// The path of the request.
    pub fn path(&self) -> (r: &str)
        ensures
            r@ == self@.path,
    {
        self.path.as_str()
    }

    /// The method of the request.
    pub fn method(&self) -> (r: &Method)
        ensures
            *r == self@.method,
    {
        &self.method
    }

    /// The query string of the request, when one was present.
    pub fn query(&self) -> (r: Option<&QueryString>)
        ensures
            match r {
                Some(q) => self.query == Some(*q),
                None => self.query is None,
            },
    {
        self.query.as_ref()
    }
}

} // verus!
