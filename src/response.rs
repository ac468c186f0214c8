//! Responses and their wire form.
use vstd::prelude::*;
use vstd::string::*;

use crate::status_code::{code_text_of, reason_of, StatusCode};

verus! {

/// A status and an optional body.
#[derive(Debug)]
pub struct Response {
    pub status_code: StatusCode,
    pub body: Option<String>,
}

/// The body as sent: the empty text where there is none.
pub open spec fn body_text(body: Option<Seq<char>>) -> Seq<char> {
    match body {
        Some(b) => b,
        None => Seq::empty(),
    }
}

/// The exact text of a response: status line, blank line, then the body.
/// No headers are written.
pub open spec fn wire_text(status: StatusCode, body: Option<Seq<char>>) -> Seq<char> {
    "HTTP/1.1 "@ + code_text_of(status) + " "@ + reason_of(status) + "\r\n\r\n"@ + body_text(body)
}

impl Response {
    /// The view of the body, if there is one.
    pub open spec fn body_view(&self) -> Option<Seq<char>> {
        match self.body {
            Some(b) => Some(b@),
            None => None,
        }
    }

    /// A response with the given status and body.
    pub fn new(status_code: StatusCode, body: Option<String>) -> (r: Self)
        ensures
            r.status_code == status_code,
            r.body == body,
    {
        Response { status_code, body }
    }

    /// The exact text sent for this response.
    pub fn wire(&self) -> (r: String)
        ensures
            r@ == wire_text(self.status_code, self.body_view()),
    {
        let mut out = String::from_str("HTTP/1.1 ");
        out.append(self.status_code.code_text());
        out.append(" ");
        out.append(self.status_code.reason_phase());
        out.append("\r\n\r\n");
        match &self.body {
            Some(b) => out.append(b.as_str()),
            None => {},
        }
        proof {
            if self.body is None {
                assert(body_text(self.body_view()) =~= Seq::<char>::empty());
            }
        }
        out
    }
}

} // verus!
