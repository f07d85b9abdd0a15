//! HTTP/1 response status lines.

use vstd::prelude::*;
use vstd::string::StringExecFns;

verus! {

/// A response status: the common ones, or any code with its reason phrase.
#[derive(Debug)]
pub enum HttpStatus {
    Okay,
    BadRequest,
    NotFound,
    Custom(String, String),
}

/// The text of a status as written in a status line: the code, a space and
/// the reason phrase.
pub open spec fn status_text(status: HttpStatus) -> Seq<char> {
    match status {
        HttpStatus::Okay => "200 OK"@,
        HttpStatus::BadRequest => "400 Bad Request"@,
        HttpStatus::NotFound => "404 Not Found"@,
        HttpStatus::Custom(code, phrase) => code@ + " "@ + phrase@,
    }
}

impl HttpStatus {
    /// The status as it stands in a status line.
    pub fn to_string(&self) -> (r: String)
        ensures
            r@ == status_text(*self),
    {
        match self {
            HttpStatus::Okay => String::from_str("200 OK"),
            HttpStatus::BadRequest => String::from_str("400 Bad Request"),
            HttpStatus::NotFound => String::from_str("404 Not Found"),
            HttpStatus::Custom(code, phrase) => {
                let c = code.clone();
                c.concat(" ").concat(phrase.as_str())
            },
        }
    }
}

} // verus!
