//! The request verbs this server understands.
use vstd::prelude::*;

use crate::text::same_text;

verus! {

/// A request verb, matched case-sensitively against its name.
#[derive(Clone, Copy, Debug, PartialEq, Eq, Structural)]
pub enum Method {
    GET,
    DELETE,
    POST,
    PUT,
    HEAD,
    CONNECT,
    OPTIONS,
    TRACE,
    PATCH,
}

/// The token did not name any known verb.
#[derive(Clone, Copy, Debug, PartialEq, Eq, Structural)]
pub struct MethodError;

/// The verb that `s` names, if any.
pub open spec fn method_named(s: Seq<char>) -> Option<Method> {
    if s == "GET"@ {
        Some(Method::GET)
    } else if s == "DELETE"@ {
        Some(Method::DELETE)
    } else if s == "POST"@ {
        Some(Method::POST)
    } else if s == "PUT"@ {
        Some(Method::PUT)
    } else if s == "HEAD"@ {
        Some(Method::HEAD)
    } else if s == "CONNECT"@ {
        Some(Method::CONNECT)
    } else if s == "OPTIONS"@ {
        Some(Method::OPTIONS)
    } else if s == "TRACE"@ {
        Some(Method::TRACE)
    } else if s == "PATCH"@ {
        Some(Method::PATCH)
    } else {
        None
    }
}

impl Method {
    /// Reads a verb from its exact name.
    pub fn parse(token: &str) -> (r: Result<Method, MethodError>)
        ensures
            match r {
                Ok(m) => method_named(token@) == Some(m),
                Err(_) => method_named(token@) is None,
            },
    {
        if same_text(token, "GET") {
            Ok(Method::GET)
        } else if same_text(token, "DELETE") {
            Ok(Method::DELETE)
        } else if same_text(token, "POST") {
            Ok(Method::POST)
        } else if same_text(token, "PUT") {
            Ok(Method::PUT)
        } else if same_text(token, "HEAD") {
            Ok(Method::HEAD)
        } else if same_text(token, "CONNECT") {
            Ok(Method::CONNECT)
        } else if same_text(token, "OPTIONS") {
            Ok(Method::OPTIONS)
        } else if same_text(token, "TRACE") {
            Ok(Method::TRACE)
        } else if same_text(token, "PATCH") {
            Ok(Method::PATCH)
        } else {
            Err(MethodError)
        }
    }
}

} // verus!
