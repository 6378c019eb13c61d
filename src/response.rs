use vstd::prelude::*;
use crate::status_code::StatusCode;

verus! {

/// An outgoing response: a status and an optional body.
#[derive(Debug)]
pub struct Responce {
    status_code: StatusCode,
    body: Option<String>,
}

impl Responce {
    pub closed spec fn spec_status_code(&self) -> StatusCode {
        self.status_code
    }

    pub closed spec fn spec_body(&self) -> Option<Seq<char>> {
        match &self.body {
            Some(b) => Some(b@),
            None => None,
        }
    }

    /// A response with the given status and body.
    pub fn new(status_code: StatusCode, body: Option<String>) -> (r: Responce)
        ensures
            r.spec_status_code() == status_code,
            r.spec_body() == (match body {
                Some(b) => Some(b@),
                None => None::<Seq<char>>,
            }),
    {
        Responce { status_code, body }
    }

    /// The status of the response.
    pub fn status_code(&self) -> (r: StatusCode)
        ensures
            r == self.spec_status_code(),
    {
        self.status_code
    }

    /// The body of the response, if it has one.
    pub fn body(&self) -> (r: Option<&str>)
        ensures
            match self.spec_body() {
                Some(b) => r is Some && r->0@ == b,
                None => r is None,
            },
    {
        match &self.body {
            Some(b) => Some(b.as_str()),
            None => None,
        }
    }
}

} // verus!
