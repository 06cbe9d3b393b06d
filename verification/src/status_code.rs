//! The status-code registry: a closed set of numeric codes with fixed
//! reason phrases.

use vstd::prelude::*;
use crate::decimal::{decimal_digits, push_decimal};

verus! {

/// A response status code, one of the closed set the encoder can emit.
#[derive(Clone, Copy, Debug, PartialEq, Eq, Structural)]
pub enum StatusCode {
    Okay,
    BadRequest,
    NotFound,
}

impl StatusCode {
    /// The numeric value of the code.
    pub open spec fn spec_code(self) -> u16 {
        match self {
            StatusCode::Okay => 200,
            StatusCode::BadRequest => 400,
            StatusCode::NotFound => 404,
        }
    }

    /// The fixed reason phrase of the code.
    pub open spec fn spec_reason(self) -> Seq<char> {
        match self {
            StatusCode::Okay => "Ok"@,
            StatusCode::BadRequest => "Bad Request"@,
            StatusCode::NotFound => "Not Found"@,
        }
    }

    /// The decimal rendering of the code's numeric value.
    pub open spec fn spec_code_chars(self) -> Seq<char> {
        decimal_digits(self.spec_code() as nat)
    }

    /// The numeric value of the code.
    pub fn code(&self) -> (r: u16)
        ensures
            r == self.spec_code(),
    {
        match self {
            StatusCode::Okay => 200,
            StatusCode::BadRequest => 400,
            StatusCode::NotFound => 404,
        }
    }

    /// The fixed reason phrase of the code.
    pub fn reason_phrase(&self) -> (r: &str)
        ensures
            r@ == self.spec_reason(),
    {
        match self {
            StatusCode::Okay => "Ok",
            StatusCode::BadRequest => "Bad Request",
            StatusCode::NotFound => "Not Found",
        }
    }

    /// The decimal rendering of the code's numeric value, as text.
    pub fn code_string(&self) -> (r: String)
        ensures
            r@ == self.spec_code_chars(),
    {
        let mut out = String::new();
        push_decimal(&mut out, self.code());
        proof {
            assert(out@ =~= self.spec_code_chars());
        }
        out
    }
}

/// The registry round-trips a code's numeric value: the rendered text
/// of a code is exactly the decimal digit string of that code's
/// number, and no two codes share a rendering — the code can be read
/// back from its three digits.
pub proof fn lemma_code_rendering_round_trip(s: StatusCode)
    ensures
        s.spec_code_chars() == decimal_digits(s.spec_code() as nat),
        s.spec_code_chars().len() == 3,
        forall|t: StatusCode| s.spec_code_chars() == t.spec_code_chars() ==> s == t,
{
    reveal_with_fuel(decimal_digits, 4);
    assert(decimal_digits(200) =~= seq!['2', '0', '0']);
    assert(decimal_digits(400) =~= seq!['4', '0', '0']);
    assert(decimal_digits(404) =~= seq!['4', '0', '4']);
    assert(decimal_digits(200)[0] != decimal_digits(400)[0]);
    assert(decimal_digits(200)[0] != decimal_digits(404)[0]);
    assert(decimal_digits(400)[2] != decimal_digits(404)[2]);
}

} // verus!
