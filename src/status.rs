//! Status codes and the response message that the dispatcher produces.
use vstd::prelude::*;

verus! {

/// The status codes this server answers with.
#[derive(Clone, Copy, Debug, PartialEq, Eq, Structural)]
pub enum ResCode {
    Success,
    MovedPermanently,
    Unauthorized,
    Forbidden,
    NotFound,
    NotImplemented,
}

impl ResCode {
    /// The numeric wire form of the code.
    pub open spec fn number(self) -> nat {
        match self {
            ResCode::Success => 200,
            ResCode::MovedPermanently => 301,
            ResCode::Unauthorized => 401,
            ResCode::Forbidden => 403,
            ResCode::NotFound => 404,
            ResCode::NotImplemented => 501,
        }
    }

    /// The numeric wire form as text.
    pub open spec fn text(self) -> Seq<char> {
        match self {
            ResCode::Success => "200"@,
            ResCode::MovedPermanently => "301"@,
            ResCode::Unauthorized => "401"@,
            ResCode::Forbidden => "403"@,
            ResCode::NotFound => "404"@,
            ResCode::NotImplemented => "501"@,
        }
    }

    /// The numeric wire form of the code.
    pub fn code(&self) -> (r: u16)
        ensures
            r as nat == self.number(),
    {
        match self {
            ResCode::Success => 200,
            ResCode::MovedPermanently => 301,
            ResCode::Unauthorized => 401,
            ResCode::Forbidden => 403,
            ResCode::NotFound => 404,
            ResCode::NotImplemented => 501,
        }
    }

    /// The numeric wire form as a string, as it stands in the status line.
    pub fn make(&self) -> (r: String)
        ensures
            r@ == self.text(),
    {
        match self {
            ResCode::Success => String::from_str("200"),
            ResCode::MovedPermanently => String::from_str("301"),
            ResCode::Unauthorized => String::from_str("401"),
            ResCode::Forbidden => String::from_str("403"),
            ResCode::NotFound => String::from_str("404"),
            ResCode::NotImplemented => String::from_str("501"),
        }
    }
}

/// A response ready to be framed: its status and its body. The
/// `Content-Length` sent with it is always the body's length, so it is not
/// stored.
#[derive(Debug, PartialEq, Eq)]
pub struct Response {
    pub status: ResCode,
    pub body: Vec<u8>,
}

} // verus!
