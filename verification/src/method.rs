//! The fixed set of HTTP methods, their canonical text, and the exact
//! token match used by the request decoder.

use vstd::prelude::*;

verus! {

/// An HTTP request method.
#[derive(Clone, Copy, Debug, Hash, PartialEq, Eq, Structural)]
pub enum HttpMethod {
    Get,
    Post,
    Patch,
    Put,
    Delete,
    Options,
}

impl HttpMethod {
    /// The canonical text of the method.
    pub open spec fn spec_str(self) -> Seq<char> {
        match self {
            HttpMethod::Get => "GET"@,
            HttpMethod::Post => "POST"@,
            HttpMethod::Patch => "PATCH"@,
            HttpMethod::Put => "PUT"@,
            HttpMethod::Delete => "DELETE"@,
            HttpMethod::Options => "OPTIONS"@,
        }
    }

    /// The method whose canonical text is exactly `token`, if any; matching
    /// is case-sensitive and tolerates no extra characters.
    pub open spec fn spec_from_token(token: Seq<char>) -> Option<HttpMethod> {
        if token == "GET"@ {
            Some(HttpMethod::Get)
        } else if token == "POST"@ {
            Some(HttpMethod::Post)
        } else if token == "PATCH"@ {
            Some(HttpMethod::Patch)
        } else if token == "PUT"@ {
            Some(HttpMethod::Put)
        } else if token == "DELETE"@ {
            Some(HttpMethod::Delete)
        } else if token == "OPTIONS"@ {
            Some(HttpMethod::Options)
        } else {
            None
        }
    }

    /// The canonical text of the method.
    pub fn to_string(&self) -> (r: String)
        ensures
            r@ == self.spec_str(),
    {
        match self {
            Self::Get => "GET".to_owned(),
            Self::Post => "POST".to_owned(),
            Self::Patch => "PATCH".to_owned(),
            Self::Put => "PUT".to_owned(),
            Self::Delete => "DELETE".to_owned(),
            Self::Options => "OPTIONS".to_owned(),
        }
    }

    /// The method whose canonical text is exactly `token`, if any.
    pub fn from_token(token: &str) -> (r: Option<HttpMethod>)
        ensures
            r == Self::spec_from_token(token@),
    {
        if crate::strmap::str_eq(token, "GET") {
            Some(HttpMethod::Get)
        } else if crate::strmap::str_eq(token, "POST") {
            Some(HttpMethod::Post)
        } else if crate::strmap::str_eq(token, "PATCH") {
            Some(HttpMethod::Patch)
        } else if crate::strmap::str_eq(token, "PUT") {
            Some(HttpMethod::Put)
        } else if crate::strmap::str_eq(token, "DELETE") {
            Some(HttpMethod::Delete)
        } else if crate::strmap::str_eq(token, "OPTIONS") {
            Some(HttpMethod::Options)
        } else {
            None
        }
    }
}

} // verus!
