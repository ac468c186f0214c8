//! The closed set of response statuses.
use vstd::prelude::*;

verus! {

/// A response status.
#[derive(Clone, Copy, Debug, PartialEq, Eq, Structural)]
pub enum StatusCode {
    OK,
    BadRequest,
    NotFound,
}

/// The numeric code of a status.
pub open spec fn code_of(s: StatusCode) -> u16 {
    match s {
        StatusCode::OK => 200,
        StatusCode::BadRequest => 400,
        StatusCode::NotFound => 404,
    }
}

/// The numeric code of a status, as written on the wire.
pub open spec fn code_text_of(s: StatusCode) -> Seq<char> {
    match s {
        StatusCode::OK => "200"@,
        StatusCode::BadRequest => "400"@,
        StatusCode::NotFound => "404"@,
    }
}

/// The reason phrase that follows the code on the status line.
pub open spec fn reason_of(s: StatusCode) -> Seq<char> {
    match s {
        StatusCode::OK => "Ok"@,
        StatusCode::BadRequest => "Bad Request"@,
        StatusCode::NotFound => "Not Found"@,
    }
}

impl StatusCode {
    /// The reason phrase of this status.
    pub fn reason_phase(&self) -> (r: &'static str)
        ensures
            r@ == reason_of(*self),
    {
        match self {
            StatusCode::OK => "Ok",
            StatusCode::BadRequest => "Bad Request",
            StatusCode::NotFound => "Not Found",
        }
    }

    /// The numeric code of this status.
    pub fn code(&self) -> (r: u16)
        ensures
            r == code_of(*self),
    {
        match self {
            StatusCode::OK => 200,
            StatusCode::BadRequest => 400,
            StatusCode::NotFound => 404,
        }
    }

    /// The numeric code of this status in decimal digits.
    pub fn code_text(&self) -> (r: &'static str)
        ensures
            r@ == code_text_of(*self),
    {
        match self {
            StatusCode::OK => "200",
            StatusCode::BadRequest => "400",
            StatusCode::NotFound => "404",
        }
    }
}

} // verus!
