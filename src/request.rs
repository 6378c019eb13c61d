use vstd::prelude::*;
use vstd::string::*;
use vstd::utf8::{decode_utf8, valid_utf8, encode_utf8, encode_utf8_decode_utf8, encode_utf8_valid_utf8};
use std::str::Utf8Error;
use crate::method::{Method, MethodError, method_of};
use crate::query_string::{Entries, QueryString, entries_wf, query_entries};
use crate::text::{chars_of, delim_in, is_delim, find_char, find_delim, find_in, lemma_delim_in_bounds, lemma_find_in_bounds, same_text};

verus! {

/// std's UTF-8 decoding error, carried through only to be mapped to `ParseError`.
#[verifier::external_type_specification]
#[verifier::external_body]
pub struct ExUtf8Error(Utf8Error);

/// Why a request line was refused.
#[derive(Clone, Copy, Debug, PartialEq, Eq, Structural)]
pub enum ParseError {
    InvalidRequest,
    InvalidEncoding,
    InvalidProtocol,
    InvalidMethod,
}

/// The fixed text that describes each kind of failure.
pub open spec fn message_of(e: ParseError) -> Seq<char> {
    match e {
        ParseError::InvalidRequest => seq!['I', 'n', 'v', 'a', 'l', 'i', 'd', ' ', 'R', 'e', 'q', 'u', 'e', 's', 't'],
        ParseError::InvalidEncoding => seq!['I', 'n', 'v', 'a', 'l', 'i', 'd', ' ', 'E', 'n', 'c', 'o', 'd', 'i', 'n', 'g'],
        ParseError::InvalidProtocol => seq!['I', 'n', 'v', 'a', 'l', 'i', 'd', ' ', 'P', 'r', 'o', 't', 'o', 'c', 'o', 'l'],
        ParseError::InvalidMethod => seq!['I', 'n', 'v', 'a', 'l', 'i', 'd', ' ', 'M', 'e', 't', 'h', 'o', 'd'],
    }
}

impl ParseError {
    /// A human-readable description of the failure.
    pub fn message(&self) -> (r: &'static str)
        ensures
            r@ == message_of(*self),
    {
        match self {
            ParseError::InvalidRequest => {
                proof {
                    reveal_strlit("Invalid Request");
                }
                assert("Invalid Request"@ =~= message_of(*self));
                "Invalid Request"
            },
            ParseError::InvalidEncoding => {
                proof {
                    reveal_strlit("Invalid Encoding");
                }
                assert("Invalid Encoding"@ =~= message_of(*self));
                "Invalid Encoding"
            },
            ParseError::InvalidProtocol => {
                proof {
                    reveal_strlit("Invalid Protocol");
                }
                assert("Invalid Protocol"@ =~= message_of(*self));
                "Invalid Protocol"
            },
            ParseError::InvalidMethod => {
                proof {
                    reveal_strlit("Invalid Method");
                }
                assert("Invalid Method"@ =~= message_of(*self));
                "Invalid Method"
            },
        }
    }
}

impl From<MethodError> for ParseError {
    fn from(_e: MethodError) -> (r: ParseError)
        ensures
            r == ParseError::InvalidMethod,
    {
        ParseError::InvalidMethod
    }
}

impl vstd::std_specs::convert::FromSpecImpl<MethodError> for ParseError {
    open spec fn obeys_from_spec() -> bool {
        true
    }

    open spec fn from_spec(v: MethodError) -> ParseError {
        ParseError::InvalidMethod
    }
}

impl From<Utf8Error> for ParseError {
    fn from(_e: Utf8Error) -> (r: ParseError)
        ensures
            r == ParseError::InvalidEncoding,
    {
        ParseError::InvalidEncoding
    }
}

impl vstd::std_specs::convert::FromSpecImpl<Utf8Error> for ParseError {
    open spec fn obeys_from_spec() -> bool {
        true
    }

    open spec fn from_spec(v: Utf8Error) -> ParseError {
        ParseError::InvalidEncoding
    }
}

/// Relies on std::str::from_utf8: `Ok` exactly when the bytes are well-formed UTF-8,
/// and then the text is those very bytes.
#[verifier::external_body]
fn text_of(buf: &[u8]) -> (r: Result<&str, Utf8Error>)
    ensures
        r is Ok <==> valid_utf8(buf@),
        r is Ok ==> r->Ok_0.spec_bytes() == buf@,
{
    std::str::from_utf8(buf)
}

/// The first token of `s` and the text after its delimiter, if `s` holds a delimiter.
pub open spec fn next_word(s: Seq<char>) -> Option<(Seq<char>, Seq<char>)> {
    let i = delim_in(s, 0, s.len() as int);
    if i < s.len() {
        Some((s.subrange(0, i), s.subrange(i + 1, s.len() as int)))
    } else {
        None
    }
}

/// The only protocol accepted.
pub open spec fn http_1_1() -> Seq<char> {
    seq!['H', 'T', 'T', 'P', '/', '1', '.', '1']
}

/// What a parsed request holds.
pub struct RequestModel {
    pub path: Seq<char>,
    pub method: Method,
    pub query: Option<Entries>,
}

/// The request that a path-and-query token and a method describe: the path ends before
/// the first `?`, and what follows that `?` is the query.
pub open spec fn request_of(target: Seq<char>, method: Method) -> RequestModel {
    let q = find_in(target, '?', 0, target.len() as int);
    RequestModel {
        path: target.subrange(0, q),
        method,
        query: if q < target.len() {
            Some(query_entries(target.subrange(q + 1, target.len() as int)))
        } else {
            None
        },
    }
}

/// The outcome of parsing the request line at the start of `s`.
pub open spec fn parse_text(s: Seq<char>) -> Result<RequestModel, ParseError> {
    match next_word(s) {
        None => Err(ParseError::InvalidRequest),
        Some((m, rest)) => match next_word(rest) {
            None => Err(ParseError::InvalidRequest),
            Some((target, rest2)) => match next_word(rest2) {
                None => Err(ParseError::InvalidRequest),
                Some((protocol, _)) => if protocol != http_1_1() {
                    Err(ParseError::InvalidProtocol)
                } else {
                    match method_of(m) {
                        None => Err(ParseError::InvalidMethod),
                        Some(method) => Ok(request_of(target, method)),
                    }
                },
            },
        },
    }
}

/// The outcome of parsing the request line at the start of a byte buffer.
pub open spec fn parse_bytes(b: Seq<u8>) -> Result<RequestModel, ParseError> {
    if valid_utf8(b) {
        parse_text(decode_utf8(b))
    } else {
        Err(ParseError::InvalidEncoding)
    }
}

/// A parsed request line, borrowing its text from the buffer it was read from.
#[derive(Debug, PartialEq, Eq)]
pub struct Request<'a> {
    path: &'a str,
    query_string: Option<QueryString<'a>>,
    method: Method,
}

impl<'a> View for Request<'a> {
    type V = RequestModel;

    closed spec fn view(&self) -> RequestModel {
        RequestModel {
            path: self.path@,
            method: self.method,
            query: match self.query_string {
                Some(q) => Some(q@),
                None => None,
            },
        }
    }
}

/// The model of a parse outcome.
pub open spec fn outcome<'a>(r: Result<Request<'a>, ParseError>) -> Result<RequestModel, ParseError> {
    match r {
        Ok(req) => Ok(req@),
        Err(e) => Err(e),
    }
}

/// Splits off the first token of `request`: the characters before the first space or
/// carriage return, and the text after that delimiter.
pub fn get_next_word(request: &str) -> (r: Option<(&str, &str)>)
    ensures
        match r {
            Some((word, rest)) => next_word(request@) == Some((word@, rest@)),
            None => next_word(request@) is None,
        },
{
    let chars = chars_of(request);
    let n = chars.len();
    let i = find_delim(&chars, 0, n);
    proof {
        lemma_delim_in_bounds(request@, 0, n as int);
    }
    if i < n {
        Some((request.substring_char(0, i), request.substring_char(i + 1, n)))
    } else {
        None
    }
}

impl<'a> Request<'a> {
    /// The path, without any query.
    pub fn path(&self) -> (r: &str)
        ensures
            r@ == self@.path,
    {
        self.path
    }

    /// The request method.
    pub fn method(&self) -> (r: &Method)
        ensures
            *r == self@.method,
    {
        &self.method
    }

    /// The query, if the target held a `?`.
    pub fn query_string(&self) -> (r: Option<&QueryString<'a>>)
        ensures
            match self@.query {
                Some(q) => r is Some && r->0@ == q,
                None => r is None,
            },
    {
        match &self.query_string {
            Some(q) => Some(q),
            None => None,
        }
    }

    /// Parses the request line at the start of `text`.
    pub fn from_text(text: &'a str) -> (r: Result<Request<'a>, ParseError>)
        ensures
            outcome(r) == parse_text(text@),
            r is Ok ==> !r->Ok_0@.path.contains('?'),
            r is Ok ==> (r->Ok_0@.query matches Some(q) ==> entries_wf(q)),
    {
        let (method, rest) = match get_next_word(text) {
            Some(w) => w,
            None => return Err(ParseError::InvalidRequest),
        };
        let (target, rest) = match get_next_word(rest) {
            Some(w) => w,
            None => return Err(ParseError::InvalidRequest),
        };
        let (protocol, _) = match get_next_word(rest) {
            Some(w) => w,
            None => return Err(ParseError::InvalidRequest),
        };
        proof {
            reveal_strlit("HTTP/1.1");
        }
        assert("HTTP/1.1"@ =~= http_1_1());
        if !same_text(protocol, "HTTP/1.1") {
            return Err(ParseError::InvalidProtocol);
        }
        let method = match Method::parse(method) {
            Ok(m) => m,
            Err(e) => return Err(ParseError::from(e)),
        };
        let chars = chars_of(target);
        let n = chars.len();
        let q = find_char(&chars, '?', 0, n);
        proof {
            lemma_find_in_bounds(target@, '?', 0, n as int);
        }
        let path = target.substring_char(0, q);
        assert(!path@.contains('?')) by {
            assert forall|k: int| 0 <= k < path@.len() implies path@[k] != '?' by {
                assert(path@[k] == target@[k]);
            }
        }
        if q < n {
            let query = QueryString::parse(target.substring_char(q + 1, n));
            Ok(Request { path, query_string: Some(query), method })
        } else {
            Ok(Request { path, query_string: None, method })
        }
    }

    /// Parses the request line at the start of `buf`, which must be UTF-8.
    pub fn parse(buf: &'a [u8]) -> (r: Result<Request<'a>, ParseError>)
        ensures
            outcome(r) == parse_bytes(buf@),
            r is Ok ==> !r->Ok_0@.path.contains('?'),
            r is Ok ==> (r->Ok_0@.query matches Some(q) ==> entries_wf(q)),
    {
        match text_of(buf) {
            Ok(text) => {
                proof {
                    encode_utf8_decode_utf8(text@);
                }
                Request::from_text(text)
            },
            Err(e) => Err(ParseError::from(e)),
        }
    }
}

/// In `s`, when `stop` holds a delimiter and none comes before it from `i` on, the first
/// delimiter from `i` is at `stop`.
proof fn lemma_first_delim(s: Seq<char>, stop: int, i: int)
    requires
        0 <= i <= stop < s.len(),
        is_delim(s[stop]),
        forall|k: int| i <= k < stop ==> !is_delim(#[trigger] s[k]),
    ensures
        delim_in(s, i, s.len() as int) == stop,
    decreases stop - i,
{
    if i < stop {
        lemma_first_delim(s, stop, i + 1);
    }
}

/// A token free of delimiters, then one delimiter, splits off as that token and the rest.
pub proof fn lemma_next_word_of(word: Seq<char>, d: char, rest: Seq<char>)
    requires
        is_delim(d),
        forall|k: int| 0 <= k < word.len() ==> !is_delim(#[trigger] word[k]),
    ensures
        next_word(word + seq![d] + rest) == Some((word, rest)),
{
    let s = word + seq![d] + rest;
    assert forall|k: int| 0 <= k < word.len() implies !is_delim(#[trigger] s[k]) by {
        assert(s[k] == word[k]);
    }
    assert(s[word.len() as int] == d);
    lemma_first_delim(s, word.len() as int, 0);
    assert(s.subrange(0, word.len() as int) =~= word);
    assert(s.subrange(word.len() as int + 1, s.len() as int) =~= rest);
}

/// A known method's token holds no delimiter.
pub proof fn lemma_method_token_plain(m: Seq<char>)
    requires
        method_of(m) is Some,
    ensures
        forall|k: int| 0 <= k < m.len() ==> !is_delim(#[trigger] m[k]),
{
}

/// A request line `<METHOD> <TARGET> HTTP/1.1` ended by CR LF, with a known method and a
/// target free of spaces and carriage returns, parses successfully: the method is the one
/// named, the path is the target up to its first `?`, and when the target holds no `?` the
/// path is the whole target and there is no query.
pub proof fn lemma_well_formed_line(m: Seq<char>, target: Seq<char>)
    requires
        method_of(m) is Some,
        forall|k: int| 0 <= k < target.len() ==> !is_delim(#[trigger] target[k]),
    ensures
        ({
            let line = m + seq![' '] + target + seq![' '] + http_1_1() + seq!['\r', '\n'];
            &&& parse_bytes(encode_utf8(line)) is Ok
            &&& parse_bytes(encode_utf8(line))->Ok_0.method == method_of(m)->0
            &&& parse_bytes(encode_utf8(line))->Ok_0.path == target.subrange(
                0,
                find_in(target, '?', 0, target.len() as int),
            )
            &&& !target.contains('?') ==> parse_bytes(encode_utf8(line))->Ok_0.path == target
                && parse_bytes(encode_utf8(line))->Ok_0.query is None
        }),
{
    let tail = http_1_1() + seq!['\r', '\n'];
    let rest2 = target + seq![' '] + tail;
    let rest = m + seq![' '] + rest2;
    let line = m + seq![' '] + target + seq![' '] + http_1_1() + seq!['\r', '\n'];
    assert(line =~= rest);
    encode_utf8_valid_utf8(line);
    encode_utf8_decode_utf8(line);
    lemma_method_token_plain(m);
    lemma_next_word_of(m, ' ', rest2);
    lemma_next_word_of(target, ' ', tail);
    assert(tail =~= http_1_1() + seq!['\r'] + seq!['\n']);
    lemma_next_word_of(http_1_1(), '\r', seq!['\n']);
    lemma_find_in_bounds(target, '?', 0, target.len() as int);
    if !target.contains('?') {
        assert(target.subrange(0, target.len() as int) =~= target);
    }
}

/// Parsing is a function of the buffer alone: two parses of one buffer give the same
/// path, method and query entries.
pub proof fn lemma_parse_deterministic(
    buf: Seq<u8>,
    first: Result<RequestModel, ParseError>,
    second: Result<RequestModel, ParseError>,
)
    requires
        first == parse_bytes(buf),
        second == parse_bytes(buf),
    ensures
        first == second,
{
}

} // verus!
