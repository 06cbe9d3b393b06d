//! The response encoder: renders a structured response into status-line
//! wire bytes.

use vstd::prelude::*;
use vstd::utf8::encode_utf8;
use crate::status_code::StatusCode;

verus! {

/// A structured response: a status code and an optional body. It owns
/// its body independently of any request buffer.
pub struct Response {
    status_code: StatusCode,
    body: Option<String>,
}

impl Response {
    /// The status code of the response.
    pub closed spec fn spec_status(self) -> StatusCode {
        self.status_code
    }

    /// The body text of the response, when present.
    pub closed spec fn spec_body(self) -> Option<Seq<char>> {
        match self.body {
            Some(b) => Some(b@),
            None => None,
        }
    }

    /// The full rendered text of the response: the literal
    /// `HTTP/1.1 {code} {reason}\r\n\r\n{body}`, with an empty string
    /// for an absent body and never any headers.
    pub open spec fn rendered(self) -> Seq<char> {
        "HTTP/1.1 "@ + self.spec_status().spec_code_chars() + " "@
            + self.spec_status().spec_reason() + "\r\n\r\n"@ + (match self.spec_body() {
            Some(b) => b,
            None => Seq::<char>::empty(),
        })
    }

    /// Builds a response from its status code and optional body.
    pub fn new(status_code: StatusCode, body: Option<String>) -> (r: Response)
        ensures
            r.spec_status() == status_code,
            r.spec_body() == (match body {
                Some(b) => Some(b@),
                None => None::<Seq<char>>,
            }),
    {
        Response { status_code, body }
    }

    /// Appends the wire bytes of the response to `stream`: exactly the
    /// encoding of the rendered text, with no validation of its own.
    pub fn send(&self, stream: &mut Vec<u8>)
        ensures
            final(stream)@ == old(stream)@ + encode_utf8(self.rendered()),
    {
        let mut line = String::new();
        line.append("HTTP/1.1 ");
        let code = self.status_code.code_string();
        line.append(code.as_str());
        line.append(" ");
        line.append(self.status_code.reason_phrase());
        line.append("\r\n\r\n");
        match &self.body {
            Some(b) => line.append(b.as_str()),
            None => {},
        }
        proof {
            assert(line@ =~= self.rendered());
        }
        let mut bytes = line.as_str().as_bytes_vec();
        stream.append(&mut bytes);
    }
}

} // verus!
