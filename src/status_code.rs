use vstd::prelude::*;

verus! {

/// The response statuses this library produces.
#[derive(Clone, Copy, Debug, PartialEq, Eq, Structural)]
pub enum StatusCode {
    OK,
    BadRequest,
    NotFound,
}

/// The numeric code of each status.
pub open spec fn code_of(s: StatusCode) -> u16 {
    match s {
        StatusCode::OK => 200,
        StatusCode::BadRequest => 400,
        StatusCode::NotFound => 404,
    }
}

/// The reason phrase of each status.
pub open spec fn phrase_of(s: StatusCode) -> Seq<char> {
    match s {
        StatusCode::OK => seq!['O', 'k'],
        StatusCode::BadRequest => seq!['B', 'a', 'd', ' ', 'r', 'e', 'q', 'u', 'e', 's', 't'],
        StatusCode::NotFound => seq!['N', 'o', 't', ' ', 'F', 'o', 'u', 'n', 'd'],
    }
}

impl StatusCode {
    /// The numeric status code, as sent on the wire.
    pub fn code(&self) -> (r: u16)
        ensures
            r == code_of(*self),
    {
        match self {
            StatusCode::OK => 200,
            StatusCode::BadRequest => 400,
            StatusCode::NotFound => 404,
        }
    }

    /// The text that accompanies the code in a status line.
    pub fn reason_phrase(&self) -> (r: &'static str)
        ensures
            r@ == phrase_of(*self),
    {
        match self {
            StatusCode::OK => {
                proof {
                    reveal_strlit("Ok");
                }
                assert("Ok"@ =~= phrase_of(*self));
                "Ok"
            },
            StatusCode::BadRequest => {
                proof {
                    reveal_strlit("Bad request");
                }
                assert("Bad request"@ =~= phrase_of(*self));
                "Bad request"
            },
            StatusCode::NotFound => {
                proof {
                    reveal_strlit("Not Found");
                }
                assert("Not Found"@ =~= phrase_of(*self));
                "Not Found"
            },
        }
    }
}

} // verus!
