//! The wire-type enumerations of the minimal frontend: the method set with
//! upper-case names, and a reduced status set with its line text.

use vstd::prelude::*;

verus! {

/// A method token that names no known method.
#[derive(Clone, Copy, Debug, PartialEq, Eq, Structural)]
pub struct InvalidMethod;

/// An HTTP request method.
#[derive(Clone, Copy, Debug, PartialEq, Eq, Structural)]
pub enum HttpMethod {
    GET,
    POST,
    PUT,
    PATCH,
    DELETE,
    OPTIONS,
}

impl HttpMethod {
    /// The canonical text of the method.
    pub open spec fn spec_str(self) -> Seq<char> {
        match self {
            HttpMethod::GET => "GET"@,
            HttpMethod::POST => "POST"@,
            HttpMethod::PUT => "PUT"@,
            HttpMethod::PATCH => "PATCH"@,
            HttpMethod::DELETE => "DELETE"@,
            HttpMethod::OPTIONS => "OPTIONS"@,
        }
    }

    /// The method a token names, or an error for any other token.
    pub open spec fn spec_from_str(s: Seq<char>) -> Result<HttpMethod, InvalidMethod> {
        if s == "GET"@ {
            Ok(HttpMethod::GET)
        } else if s == "POST"@ {
            Ok(HttpMethod::POST)
        } else if s == "PUT"@ {
            Ok(HttpMethod::PUT)
        } else if s == "PATCH"@ {
            Ok(HttpMethod::PATCH)
        } else if s == "DELETE"@ {
            Ok(HttpMethod::DELETE)
        } else if s == "OPTIONS"@ {
            Ok(HttpMethod::OPTIONS)
        } else {
            Err(InvalidMethod)
        }
    }

    /// The method a token names; an unknown token is a recoverable error.
    pub fn from_str(str: &str) -> (r: Result<Self, InvalidMethod>)
        ensures
            r == Self::spec_from_str(str@),
    {
        if crate::strmap::str_eq(str, "GET") {
            Ok(HttpMethod::GET)
        } else if crate::strmap::str_eq(str, "POST") {
            Ok(HttpMethod::POST)
        } else if crate::strmap::str_eq(str, "PUT") {
            Ok(HttpMethod::PUT)
        } else if crate::strmap::str_eq(str, "PATCH") {
            Ok(HttpMethod::PATCH)
        } else if crate::strmap::str_eq(str, "DELETE") {
            Ok(HttpMethod::DELETE)
        } else if crate::strmap::str_eq(str, "OPTIONS") {
            Ok(HttpMethod::OPTIONS)
        } else {
            Err(InvalidMethod)
        }
    }

    /// The canonical text of the method.
    pub fn to_string(&self) -> (r: String)
        ensures
            r@ == self.spec_str(),
    {
        match self {
            Self::GET => "GET".to_owned(),
            Self::POST => "POST".to_owned(),
            Self::PUT => "PUT".to_owned(),
            Self::PATCH => "PATCH".to_owned(),
            Self::DELETE => "DELETE".to_owned(),
            Self::OPTIONS => "OPTIONS".to_owned(),
        }
    }
}

/// A reduced status set.
#[derive(Clone, Copy, Debug, PartialEq, Eq, Structural)]
pub enum StatusCode {
    OK,
    CREATED,
    FORBIDDEN,
    NOTFOUND,
    UNAUTHORIZED,
    INTERNALSERVERERROR,
    OTHER,
}

impl StatusCode {
    /// The status line text of the status.
    pub open spec fn spec_str(self) -> Seq<char> {
        match self {
            StatusCode::OK => "200 OK"@,
            StatusCode::CREATED => "201 CREATED"@,
            StatusCode::FORBIDDEN => "403 FORBIDDEN"@,
            StatusCode::NOTFOUND => "404 NOTFOUND"@,
            StatusCode::UNAUTHORIZED => "401 UNAUTHORIZED"@,
            StatusCode::INTERNALSERVERERROR => "500 INTERNAL SERVER ERROR"@,
            StatusCode::OTHER => "400 BAD REQUEST"@,
        }
    }

    /// The status line text of the status.
    pub fn to_string(&self) -> (r: String)
        ensures
            r@ == self.spec_str(),
    {
        match self {
            Self::OK => "200 OK".to_owned(),
            Self::CREATED => "201 CREATED".to_owned(),
            StatusCode::FORBIDDEN => "403 FORBIDDEN".to_owned(),
            StatusCode::NOTFOUND => "404 NOTFOUND".to_owned(),
            StatusCode::UNAUTHORIZED => "401 UNAUTHORIZED".to_owned(),
            StatusCode::INTERNALSERVERERROR => "500 INTERNAL SERVER ERROR".to_owned(),
            Self::OTHER => "400 BAD REQUEST".to_owned(),
        }
    }
}

} // verus!
