use vstd::prelude::*;
use crate::text::same_text;

verus! {

/// The request methods this library understands.
#[derive(Clone, Copy, Debug, PartialEq, Eq, Structural)]
pub enum Method {
    GET,
    DELETE,
    POST,
    PUT,
    HEAD,
    CONNECT,
    OPTIONS,
    TRACE,
    PATCH,
}

/// A token that names none of the known methods.
#[derive(Clone, Copy, Debug, PartialEq, Eq, Structural)]
pub struct MethodError;

/// The method whose canonical upper-case name is `tok`; matching is case-sensitive.
pub open spec fn method_of(tok: Seq<char>) -> Option<Method> {
    if tok == seq!['G', 'E', 'T'] {
        Some(Method::GET)
    } else if tok == seq!['D', 'E', 'L', 'E', 'T', 'E'] {
        Some(Method::DELETE)
    } else if tok == seq!['P', 'O', 'S', 'T'] {
        Some(Method::POST)
    } else if tok == seq!['P', 'U', 'T'] {
        Some(Method::PUT)
    } else if tok == seq!['H', 'E', 'A', 'D'] {
        Some(Method::HEAD)
    } else if tok == seq!['C', 'O', 'N', 'N', 'E', 'C', 'T'] {
        Some(Method::CONNECT)
    } else if tok == seq!['O', 'P', 'T', 'I', 'O', 'N', 'S'] {
        Some(Method::OPTIONS)
    } else if tok == seq!['T', 'R', 'A', 'C', 'E'] {
        Some(Method::TRACE)
    } else if tok == seq!['P', 'A', 'T', 'C', 'H'] {
        Some(Method::PATCH)
    } else {
        None
    }
}

impl Method {
    /// Reads a method from its token.
    pub fn parse(tok: &str) -> (r: Result<Method, MethodError>)
        ensures
            match method_of(tok@) {
                Some(m) => r == Ok::<Method, MethodError>(m),
                None => r == Err::<Method, MethodError>(MethodError),
            },
    {
        proof {
            reveal_strlit("GET");
            assert("GET"@ =~= seq!['G', 'E', 'T']);
            reveal_strlit("DELETE");
            assert("DELETE"@ =~= seq!['D', 'E', 'L', 'E', 'T', 'E']);
            reveal_strlit("POST");
            assert("POST"@ =~= seq!['P', 'O', 'S', 'T']);
            reveal_strlit("PUT");
            assert("PUT"@ =~= seq!['P', 'U', 'T']);
            reveal_strlit("HEAD");
            assert("HEAD"@ =~= seq!['H', 'E', 'A', 'D']);
            reveal_strlit("CONNECT");
            assert("CONNECT"@ =~= seq!['C', 'O', 'N', 'N', 'E', 'C', 'T']);
            reveal_strlit("OPTIONS");
            assert("OPTIONS"@ =~= seq!['O', 'P', 'T', 'I', 'O', 'N', 'S']);
            reveal_strlit("TRACE");
            assert("TRACE"@ =~= seq!['T', 'R', 'A', 'C', 'E']);
            reveal_strlit("PATCH");
            assert("PATCH"@ =~= seq!['P', 'A', 'T', 'C', 'H']);
        }
        if same_text(tok, "GET") {
            Ok(Method::GET)
        } else if same_text(tok, "DELETE") {
            Ok(Method::DELETE)
        } else if same_text(tok, "POST") {
            Ok(Method::POST)
        } else if same_text(tok, "PUT") {
            Ok(Method::PUT)
        } else if same_text(tok, "HEAD") {
            Ok(Method::HEAD)
        } else if same_text(tok, "CONNECT") {
            Ok(Method::CONNECT)
        } else if same_text(tok, "OPTIONS") {
            Ok(Method::OPTIONS)
        } else if same_text(tok, "TRACE") {
            Ok(Method::TRACE)
        } else if same_text(tok, "PATCH") {
            Ok(Method::PATCH)
        } else {
            Err(MethodError)
        }
    }
}

} // verus!
