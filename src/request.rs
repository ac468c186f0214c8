//! Parsing of the request line.
use vstd::prelude::*;
use vstd::string::*;
use vstd::utf8::*;

use crate::method::{method_named, Method, MethodError};
use crate::query::{query_model, QueryString};
use crate::text::{
    decode_text, find_char, first_line, first_line_spec, first_of, first_word, first_word_spec,
    same_text, split_word, split_word_spec,
};

verus! {

/// Why a buffer did not parse as a request.
#[derive(Clone, Copy, Debug, PartialEq, Eq, Structural)]
pub enum ParseError {
    /// The request line has fewer than three words.
    InvalidRequest,
    /// The bytes are not UTF-8 text.
    InvalidEncoding,
    /// The protocol word is not `HTTP/1.1`.
    InvalidProtocol,
    /// The first word names no known verb.
    InvalidMethod,
}

impl ParseError {
    /// A short description of the error.
    pub fn message(&self) -> (r: &'static str)
        ensures
            r@ == match *self {
                ParseError::InvalidRequest => "Invalid Request"@,
                ParseError::InvalidEncoding => "Invalid Encoding"@,
                ParseError::InvalidProtocol => "Invalid Protocol"@,
                ParseError::InvalidMethod => "Invalid Method"@,
            },
    {
        match self {
            ParseError::InvalidRequest => "Invalid Request",
            ParseError::InvalidEncoding => "Invalid Encoding",
            ParseError::InvalidProtocol => "Invalid Protocol",
            ParseError::InvalidMethod => "Invalid Method",
        }
    }
}

impl From<MethodError> for ParseError {
    fn from(e: MethodError) -> (r: ParseError)
        ensures
            r == ParseError::InvalidMethod,
    {
        ParseError::InvalidMethod
    }
}

impl vstd::std_specs::convert::FromSpecImpl<MethodError> for ParseError {
    open spec fn obeys_from_spec() -> bool {
        true
    }

    open spec fn from_spec(e: MethodError) -> ParseError {
        ParseError::InvalidMethod
    }
}

/// What a request holds: its verb, its path, and its parameters if a `?`
/// was present.
pub struct RequestModel {
    pub method: Method,
    pub path: Seq<char>,
    pub query: Option<Map<Seq<char>, Seq<Seq<char>>>>,
}

/// The path and query of a request target, split at its first `?`.
pub open spec fn target_spec(method: Method, target: Seq<char>) -> RequestModel {
    match first_of(target, '?') {
        Some(i) => RequestModel {
            method,
            path: target.take(i),
            query: Some(query_model(target.skip(i + 1))),
        },
        None => RequestModel { method, path: target, query: None },
    }
}

/// The request that a text's first line describes. The line is split at
/// spaces into method, target and protocol; a line with fewer than three
/// words is malformed, and what follows the line is ignored.
pub open spec fn request_line_spec(text: Seq<char>) -> Result<RequestModel, ParseError> {
    match split_word_spec(first_line_spec(text)) {
        None => Err(ParseError::InvalidRequest),
        Some((m, rest1)) => match split_word_spec(rest1) {
            None => Err(ParseError::InvalidRequest),
            Some((target, rest2)) => if rest2.len() == 0 {
                Err(ParseError::InvalidRequest)
            } else if first_word_spec(rest2) != "HTTP/1.1"@ {
                Err(ParseError::InvalidProtocol)
            } else {
                match method_named(m) {
                    None => Err(ParseError::InvalidMethod),
                    Some(method) => Ok(target_spec(method, target)),
                }
            },
        },
    }
}

/// The request that a buffer describes.
pub open spec fn parse_spec(b: Seq<u8>) -> Result<RequestModel, ParseError> {
    if !valid_utf8(b) {
        Err(ParseError::InvalidEncoding)
    } else {
        request_line_spec(decode_utf8(b))
    }
}

/// A parsed request; its path and parameters borrow from the buffer.
#[derive(Debug)]
pub struct Request<'a> {
    method: Method,
    path: &'a str,
    query: Option<QueryString<'a>>,
}

impl<'a> View for Request<'a> {
    type V = RequestModel;

    closed spec fn view(&self) -> RequestModel {
        RequestModel {
            method: self.method,
            path: self.path@,
            query: match self.query {
                Some(q) => Some(q@),
                None => None,
            },
        }
    }
}

impl<'a> Request<'a> {
    /// The requested path, as received.
    pub fn path(&self) -> (r: &str)
        ensures
            r@ == self@.path,
    {
        self.path
    }

    /// The request verb.
    pub fn method(&self) -> (r: &Method)
        ensures
            *r == self@.method,
    {
        &self.method
    }

    /// The query parameters, if the target held a `?`.
    pub fn query(&self) -> (r: Option<&QueryString<'a>>)
        ensures
            match r {
                Some(q) => self@.query == Some(q@),
                None => self@.query is None,
            },
    {
        match &self.query {
            Some(q) => Some(q),
            None => None,
        }
    }

    /// Parses the request line at the start of `buf`; the rest is ignored.
    pub fn parse(buf: &'a [u8]) -> (r: Result<Request<'a>, ParseError>)
        ensures
            match r {
                Ok(req) => parse_spec(buf@) == Ok::<RequestModel, ParseError>(req@),
                Err(e) => parse_spec(buf@) == Err::<RequestModel, ParseError>(e),
            },
    {
        let text = match decode_text(buf) {
            Some(t) => t,
            None => return Err(ParseError::InvalidEncoding),
        };
        let line = first_line(text);
        let (method, rest) = match split_word(line) {
            Some(w) => w,
            None => return Err(ParseError::InvalidRequest),
        };
        let (target, rest) = match split_word(rest) {
            Some(w) => w,
            None => return Err(ParseError::InvalidRequest),
        };
        if rest.unicode_len() == 0 {
            return Err(ParseError::InvalidRequest);
        }
        let protocol = first_word(rest);
        if !same_text(protocol, "HTTP/1.1") {
            return Err(ParseError::InvalidProtocol);
        }
        let method = match Method::parse(method) {
            Ok(m) => m,
            Err(e) => return Err(ParseError::from(e)),
        };
        match find_char(target, '?') {
            Some(i) => {
                let n = target.unicode_len();
                let query = QueryString::from_raw(target.substring_char(i + 1, n));
                Ok(Request { method, path: target.substring_char(0, i), query: Some(query) })
            },
            None => Ok(Request { method, path: target, query: None }),
        }
    }
}

} // verus!
