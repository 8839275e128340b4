//! The supported HTTP protocol versions and their canonical text.

#![allow(non_camel_case_types)]

use vstd::prelude::*;

verus! {

/// An HTTP protocol version.
#[derive(Clone, Copy, Debug, PartialEq, Eq, Structural)]
pub enum HttpVersion {
    HTTP_0_9,
    HTTP_1_0,
    HTTP_1_1,
    HTTP_2_0,
    HTTP_3_0,
}

impl HttpVersion {
    /// The canonical text of the version.
    pub open spec fn spec_str(self) -> Seq<char> {
        match self {
            HttpVersion::HTTP_0_9 => "HTTP/0.9"@,
            HttpVersion::HTTP_1_0 => "HTTP/1.0"@,
            HttpVersion::HTTP_1_1 => "HTTP/1.1"@,
            HttpVersion::HTTP_2_0 => "HTTP/2.0"@,
            HttpVersion::HTTP_3_0 => "HTTP/3.0"@,
        }
    }

    /// The canonical text of the version.
    pub fn to_string(&self) -> (r: String)
        ensures
            r@ == self.spec_str(),
    {
        match self {
            Self::HTTP_0_9 => "HTTP/0.9".to_owned(),
            Self::HTTP_1_0 => "HTTP/1.0".to_owned(),
            Self::HTTP_1_1 => "HTTP/1.1".to_owned(),
            Self::HTTP_2_0 => "HTTP/2.0".to_owned(),
            Self::HTTP_3_0 => "HTTP/3.0".to_owned(),
        }
    }
}

} // verus!
