//! HTTP status codes: the fixed set of variants, the numeric code of each,
//! and the status line text used when rendering a response.

use vstd::prelude::*;

verus! {

/// An HTTP status code.
#[derive(Clone, Copy, Debug, PartialEq, Eq, Structural)]
pub enum HttpStatusCode {
    Continue,
    SwitchingProtocols,
    Processing,
    EarlyHints,
    OK,
    Created,
    Accepted,
    NonAuthoritativeInformation,
    NoContent,
    ResetContent,
    PartialContent,
    MultiStatus,
    AlreadyReported,
    IMUsed,
    MultipleChoices,
    MovedPermanently,
    Found,
    SeeOther,
    NotModified,
    UseProxy,
    Unused,
    TemporaryRedirect,
    PermanentRedirect,
    BadRequest,
    Unauthorized,
    PaymentRequired,
    Forbidden,
    NotFound,
    MethodNotAllowed,
    NotAcceptable,
    ProxyAuthenticationRequired,
    RequestTimeout,
    Conflict,
    Gone,
    LengthRequired,
    PreconditionFailed,
    ContentTooLarge,
    URITooLong,
    UnsupportedMediaType,
    RangeNotSatisfiable,
    ExpectationFailed,
    Imateapot,
    MisdirectedRequest,
    UnprocessableContent,
    Locked,
    FailedDependency,
    TooEarly,
    UpgradeRequired,
    PreconditionRequired,
    TooManyRequests,
    RequestHeaderFieldsTooLarge,
    UnavailableForLegalReasons,
    InternalServerError,
    NotImplemented,
    BadGateway,
    ServiceUnavailable,
    GatewayTimeout,
    HTTPVersionNotSupported,
    VariantAlsoNegotiates,
    InsufficientStorage,
    LoopDetected,
    NotExtended,
    NetworkAuthenticationRequired,
}

impl HttpStatusCode {
    /// The numeric code of the status.
    pub open spec fn spec_code(self) -> int {
        match self {
            HttpStatusCode::Continue => 100,
            HttpStatusCode::SwitchingProtocols => 101,
            HttpStatusCode::Processing => 102,
            HttpStatusCode::EarlyHints => 103,
            HttpStatusCode::OK => 200,
            HttpStatusCode::Created => 201,
            HttpStatusCode::Accepted => 202,
            HttpStatusCode::NonAuthoritativeInformation => 203,
            HttpStatusCode::NoContent => 204,
            HttpStatusCode::ResetContent => 205,
            HttpStatusCode::PartialContent => 206,
            HttpStatusCode::MultiStatus => 207,
            HttpStatusCode::AlreadyReported => 208,
            HttpStatusCode::IMUsed => 226,
            HttpStatusCode::MultipleChoices => 300,
            HttpStatusCode::MovedPermanently => 301,
            HttpStatusCode::Found => 302,
            HttpStatusCode::SeeOther => 303,
            HttpStatusCode::NotModified => 304,
            HttpStatusCode::UseProxy => 305,
            HttpStatusCode::Unused => 306,
            HttpStatusCode::TemporaryRedirect => 307,
            HttpStatusCode::PermanentRedirect => 308,
            HttpStatusCode::BadRequest => 400,
            HttpStatusCode::Unauthorized => 401,
            HttpStatusCode::PaymentRequired => 402,
            HttpStatusCode::Forbidden => 403,
            HttpStatusCode::NotFound => 404,
            HttpStatusCode::MethodNotAllowed => 405,
            HttpStatusCode::NotAcceptable => 406,
            HttpStatusCode::ProxyAuthenticationRequired => 407,
            HttpStatusCode::RequestTimeout => 408,
            HttpStatusCode::Conflict => 409,
            HttpStatusCode::Gone => 410,
            HttpStatusCode::LengthRequired => 411,
            HttpStatusCode::PreconditionFailed => 412,
            HttpStatusCode::ContentTooLarge => 413,
            HttpStatusCode::URITooLong => 414,
            HttpStatusCode::UnsupportedMediaType => 415,
            HttpStatusCode::RangeNotSatisfiable => 416,
            HttpStatusCode::ExpectationFailed => 417,
            HttpStatusCode::Imateapot => 418,
            HttpStatusCode::MisdirectedRequest => 421,
            HttpStatusCode::UnprocessableContent => 422,
            HttpStatusCode::Locked => 423,
            HttpStatusCode::FailedDependency => 424,
            HttpStatusCode::TooEarly => 425,
            HttpStatusCode::UpgradeRequired => 426,
            HttpStatusCode::PreconditionRequired => 428,
            HttpStatusCode::TooManyRequests => 429,
            HttpStatusCode::RequestHeaderFieldsTooLarge => 431,
            HttpStatusCode::UnavailableForLegalReasons => 451,
            HttpStatusCode::InternalServerError => 500,
            HttpStatusCode::NotImplemented => 501,
            HttpStatusCode::BadGateway => 502,
            HttpStatusCode::ServiceUnavailable => 503,
            HttpStatusCode::GatewayTimeout => 504,
            HttpStatusCode::HTTPVersionNotSupported => 505,
            HttpStatusCode::VariantAlsoNegotiates => 506,
            HttpStatusCode::InsufficientStorage => 507,
            HttpStatusCode::LoopDetected => 508,
            HttpStatusCode::NotExtended => 510,
            HttpStatusCode::NetworkAuthenticationRequired => 511,
        }
    }

    /// The status for a numeric code; codes outside the fixed set have none.
    pub open spec fn spec_from_code(n: int) -> Result<HttpStatusCode, i8> {
        if n == 100 {
            Ok(HttpStatusCode::Continue)
        } else if n == 101 {
            Ok(HttpStatusCode::SwitchingProtocols)
        } else if n == 102 {
            Ok(HttpStatusCode::Processing)
        } else if n == 103 {
            Ok(HttpStatusCode::EarlyHints)
        } else if n == 200 {
            Ok(HttpStatusCode::OK)
        } else if n == 201 {
            Ok(HttpStatusCode::Created)
        } else if n == 202 {
            Ok(HttpStatusCode::Accepted)
        } else if n == 203 {
            Ok(HttpStatusCode::NonAuthoritativeInformation)
        } else if n == 204 {
            Ok(HttpStatusCode::NoContent)
        } else if n == 205 {
            Ok(HttpStatusCode::ResetContent)
        } else if n == 206 {
            Ok(HttpStatusCode::PartialContent)
        } else if n == 207 {
            Ok(HttpStatusCode::MultiStatus)
        } else if n == 208 {
            Ok(HttpStatusCode::AlreadyReported)
        } else if n == 226 {
            Ok(HttpStatusCode::IMUsed)
        } else if n == 300 {
            Ok(HttpStatusCode::MultipleChoices)
        } else if n == 301 {
            Ok(HttpStatusCode::MovedPermanently)
        } else if n == 302 {
            Ok(HttpStatusCode::Found)
        } else if n == 303 {
            Ok(HttpStatusCode::SeeOther)
        } else if n == 304 {
            Ok(HttpStatusCode::NotModified)
        } else if n == 305 {
            Ok(HttpStatusCode::UseProxy)
        } else if n == 306 {
            Ok(HttpStatusCode::Unused)
        } else if n == 307 {
            Ok(HttpStatusCode::TemporaryRedirect)
        } else if n == 308 {
            Ok(HttpStatusCode::PermanentRedirect)
        } else if n == 400 {
            Ok(HttpStatusCode::BadRequest)
        } else if n == 401 {
            Ok(HttpStatusCode::Unauthorized)
        } else if n == 402 {
            Ok(HttpStatusCode::PaymentRequired)
        } else if n == 403 {
            Ok(HttpStatusCode::Forbidden)
        } else if n == 404 {
            Ok(HttpStatusCode::NotFound)
        } else if n == 405 {
            Ok(HttpStatusCode::MethodNotAllowed)
        } else if n == 406 {
            Ok(HttpStatusCode::NotAcceptable)
        } else if n == 407 {
            Ok(HttpStatusCode::ProxyAuthenticationRequired)
        } else if n == 408 {
            Ok(HttpStatusCode::RequestTimeout)
        } else if n == 409 {
            Ok(HttpStatusCode::Conflict)
        } else if n == 410 {
            Ok(HttpStatusCode::Gone)
        } else if n == 411 {
            Ok(HttpStatusCode::LengthRequired)
        } else if n == 412 {
            Ok(HttpStatusCode::PreconditionFailed)
        } else if n == 413 {
            Ok(HttpStatusCode::ContentTooLarge)
        } else if n == 414 {
            Ok(HttpStatusCode::URITooLong)
        } else if n == 415 {
            Ok(HttpStatusCode::UnsupportedMediaType)
        } else if n == 416 {
            Ok(HttpStatusCode::RangeNotSatisfiable)
        } else if n == 417 {
            Ok(HttpStatusCode::ExpectationFailed)
        } else if n == 418 {
            Ok(HttpStatusCode::Imateapot)
        } else if n == 421 {
            Ok(HttpStatusCode::MisdirectedRequest)
        } else if n == 422 {
            Ok(HttpStatusCode::UnprocessableContent)
        } else if n == 423 {
            Ok(HttpStatusCode::Locked)
        } else if n == 424 {
            Ok(HttpStatusCode::FailedDependency)
        } else if n == 425 {
            Ok(HttpStatusCode::TooEarly)
        } else if n == 426 {
            Ok(HttpStatusCode::UpgradeRequired)
        } else if n == 428 {
            Ok(HttpStatusCode::PreconditionRequired)
        } else if n == 429 {
            Ok(HttpStatusCode::TooManyRequests)
        } else if n == 431 {
            Ok(HttpStatusCode::RequestHeaderFieldsTooLarge)
        } else if n == 451 {
            Ok(HttpStatusCode::UnavailableForLegalReasons)
        } else if n == 500 {
            Ok(HttpStatusCode::InternalServerError)
        } else if n == 501 {
            Ok(HttpStatusCode::NotImplemented)
        } else if n == 502 {
            Ok(HttpStatusCode::BadGateway)
        } else if n == 503 {
            Ok(HttpStatusCode::ServiceUnavailable)
        } else if n == 504 {
            Ok(HttpStatusCode::GatewayTimeout)
        } else if n == 505 {
            Ok(HttpStatusCode::HTTPVersionNotSupported)
        } else if n == 506 {
            Ok(HttpStatusCode::VariantAlsoNegotiates)
        } else if n == 507 {
            Ok(HttpStatusCode::InsufficientStorage)
        } else if n == 508 {
            Ok(HttpStatusCode::LoopDetected)
        } else if n == 510 {
            Ok(HttpStatusCode::NotExtended)
        } else if n == 511 {
            Ok(HttpStatusCode::NetworkAuthenticationRequired)
        } else {
            Err(-1 as i8)
        }
    }

    /// The status line text, numeric code followed by the reason phrase.
    pub open spec fn spec_reason(self) -> Seq<char> {
        match self {
            HttpStatusCode::Continue => "100 Continue"@,
            HttpStatusCode::SwitchingProtocols => "101 Switching Protocols"@,
            HttpStatusCode::Processing => "102 Processing"@,
            HttpStatusCode::EarlyHints => "103 Early Hints"@,
            HttpStatusCode::OK => "200 OK"@,
            HttpStatusCode::Created => "201 Created"@,
            HttpStatusCode::Accepted => "202 Accepted"@,
            HttpStatusCode::NonAuthoritativeInformation => "203 Non-Authoritative Information"@,
            HttpStatusCode::NoContent => "204 No Content"@,
            HttpStatusCode::ResetContent => "205 Reset Content"@,
            HttpStatusCode::PartialContent => "206 Partial Content"@,
            HttpStatusCode::MultiStatus => "207 Multi-Status"@,
            HttpStatusCode::AlreadyReported => "208 Already Reported"@,
            HttpStatusCode::IMUsed => "226 IM Used"@,
            HttpStatusCode::MultipleChoices => "300 Multiple Choices"@,
            HttpStatusCode::MovedPermanently => "301 Moved Permanently"@,
            HttpStatusCode::Found => "302 Found"@,
            HttpStatusCode::SeeOther => "303 See Other"@,
            HttpStatusCode::NotModified => "304 Not Modified"@,
            HttpStatusCode::UseProxy => "305 Use Proxy"@,
            HttpStatusCode::Unused => "306 unused"@,
            HttpStatusCode::TemporaryRedirect => "307 Temporary Redirect"@,
            HttpStatusCode::PermanentRedirect => "308 Permanent Redirect"@,
            HttpStatusCode::BadRequest => "400 Bad Request"@,
            HttpStatusCode::Unauthorized => "401 Unauthorized"@,
            HttpStatusCode::PaymentRequired => "402 Payment Required"@,
            HttpStatusCode::Forbidden => "403 Forbidden"@,
            HttpStatusCode::NotFound => "404 Not Found"@,
            HttpStatusCode::MethodNotAllowed => "405 Method Not Allowed"@,
            HttpStatusCode::NotAcceptable => "406 Not Acceptable"@,
            HttpStatusCode::ProxyAuthenticationRequired => "407 Proxy Authentication Required"@,
            HttpStatusCode::RequestTimeout => "408 Request Timeout"@,
            HttpStatusCode::Conflict => "409 Conflict"@,
            HttpStatusCode::Gone => "410 Gone"@,
            HttpStatusCode::LengthRequired => "411 Length Required"@,
            HttpStatusCode::PreconditionFailed => "412 Precondition Failed"@,
            HttpStatusCode::ContentTooLarge => "413 Content Too Large"@,
            HttpStatusCode::URITooLong => "414 URI Too Long"@,
            HttpStatusCode::UnsupportedMediaType => "415 Unsupported Media Type"@,
            HttpStatusCode::RangeNotSatisfiable => "416 Range Not Satisfiable"@,
            HttpStatusCode::ExpectationFailed => "417 Expectation Failed"@,
            HttpStatusCode::Imateapot => "418 I'm a teapot"@,
            HttpStatusCode::MisdirectedRequest => "421 Misdirected Request"@,
            HttpStatusCode::UnprocessableContent => "422 Unprocessable Content"@,
            HttpStatusCode::Locked => "423 Locked"@,
            HttpStatusCode::FailedDependency => "424 Failed Dependency"@,
            HttpStatusCode::TooEarly => "425 Too Early"@,
            HttpStatusCode::UpgradeRequired => "426 Upgrade Required"@,
            HttpStatusCode::PreconditionRequired => "428 Precondition Required"@,
            HttpStatusCode::TooManyRequests => "429 Too Many Requests"@,
            HttpStatusCode::RequestHeaderFieldsTooLarge => "431 Request Header Fields Too Large"@,
            HttpStatusCode::UnavailableForLegalReasons => "451 Unavailable For Legal Reasons"@,
            HttpStatusCode::InternalServerError => "500 Internal Server Error"@,
            HttpStatusCode::NotImplemented => "501 Not Implemented"@,
            HttpStatusCode::BadGateway => "502 Bad Gateway"@,
            HttpStatusCode::ServiceUnavailable => "503 Service Unavailable"@,
            HttpStatusCode::GatewayTimeout => "504 Gateway Timeout"@,
            HttpStatusCode::HTTPVersionNotSupported => "505 HTTP Version Not Supported"@,
            HttpStatusCode::VariantAlsoNegotiates => "506 Variant Also Negotiates"@,
            HttpStatusCode::InsufficientStorage => "507 Insufficient Storage"@,
            HttpStatusCode::LoopDetected => "508 Loop Detected"@,
            HttpStatusCode::NotExtended => "510 Not Extended"@,
            HttpStatusCode::NetworkAuthenticationRequired => "511 Network Authentication Required"@,
        }
    }

    /// The status whose numeric code is `n`, or an error for a code outside
    /// the fixed set.
    pub fn from_usize(n: usize) -> (r: Result<Self, i8>)
        ensures
            r == Self::spec_from_code(n as int),
    {
        match n {
            100 => Ok(Self::Continue),
            101 => Ok(Self::SwitchingProtocols),
            102 => Ok(Self::Processing),
            103 => Ok(Self::EarlyHints),
            200 => Ok(Self::OK),
            201 => Ok(Self::Created),
            202 => Ok(Self::Accepted),
            203 => Ok(Self::NonAuthoritativeInformation),
            204 => Ok(Self::NoContent),
            205 => Ok(Self::ResetContent),
            206 => Ok(Self::PartialContent),
            207 => Ok(Self::MultiStatus),
            208 => Ok(Self::AlreadyReported),
            226 => Ok(Self::IMUsed),
            300 => Ok(Self::MultipleChoices),
            301 => Ok(Self::MovedPermanently),
            302 => Ok(Self::Found),
            303 => Ok(Self::SeeOther),
            304 => Ok(Self::NotModified),
            305 => Ok(Self::UseProxy),
            306 => Ok(Self::Unused),
            307 => Ok(Self::TemporaryRedirect),
            308 => Ok(Self::PermanentRedirect),
            400 => Ok(Self::BadRequest),
            401 => Ok(Self::Unauthorized),
            402 => Ok(Self::PaymentRequired),
            403 => Ok(Self::Forbidden),
            404 => Ok(Self::NotFound),
            405 => Ok(Self::MethodNotAllowed),
            406 => Ok(Self::NotAcceptable),
            407 => Ok(Self::ProxyAuthenticationRequired),
            408 => Ok(Self::RequestTimeout),
            409 => Ok(Self::Conflict),
            410 => Ok(Self::Gone),
            411 => Ok(Self::LengthRequired),
            412 => Ok(Self::PreconditionFailed),
            413 => Ok(Self::ContentTooLarge),
            414 => Ok(Self::URITooLong),
            415 => Ok(Self::UnsupportedMediaType),
            416 => Ok(Self::RangeNotSatisfiable),
            417 => Ok(Self::ExpectationFailed),
            418 => Ok(Self::Imateapot),
            421 => Ok(Self::MisdirectedRequest),
            422 => Ok(Self::UnprocessableContent),
            423 => Ok(Self::Locked),
            424 => Ok(Self::FailedDependency),
            425 => Ok(Self::TooEarly),
            426 => Ok(Self::UpgradeRequired),
            428 => Ok(Self::PreconditionRequired),
            429 => Ok(Self::TooManyRequests),
            431 => Ok(Self::RequestHeaderFieldsTooLarge),
            451 => Ok(Self::UnavailableForLegalReasons),
            500 => Ok(Self::InternalServerError),
            501 => Ok(Self::NotImplemented),
            502 => Ok(Self::BadGateway),
            503 => Ok(Self::ServiceUnavailable),
            504 => Ok(Self::GatewayTimeout),
            505 => Ok(Self::HTTPVersionNotSupported),
            506 => Ok(Self::VariantAlsoNegotiates),
            507 => Ok(Self::InsufficientStorage),
            508 => Ok(Self::LoopDetected),
            510 => Ok(Self::NotExtended),
            511 => Ok(Self::NetworkAuthenticationRequired),
            _ => Err(-1),
        }
    }

    /// The numeric code of the status.
    pub fn usize(&self) -> (r: usize)
        ensures
            r == self.spec_code(),
    {
        match self {
            Self::Continue => 100,
            Self::SwitchingProtocols => 101,
            Self::Processing => 102,
            Self::EarlyHints => 103,
            Self::OK => 200,
            Self::Created => 201,
            Self::Accepted => 202,
            Self::NonAuthoritativeInformation => 203,
            Self::NoContent => 204,
            Self::ResetContent => 205,
            Self::PartialContent => 206,
            Self::MultiStatus => 207,
            Self::AlreadyReported => 208,
            Self::IMUsed => 226,
            Self::MultipleChoices => 300,
            Self::MovedPermanently => 301,
            Self::Found => 302,
            Self::SeeOther => 303,
            Self::NotModified => 304,
            Self::UseProxy => 305,
            Self::Unused => 306,
            Self::TemporaryRedirect => 307,
            Self::PermanentRedirect => 308,
            Self::BadRequest => 400,
            Self::Unauthorized => 401,
            Self::PaymentRequired => 402,
            Self::Forbidden => 403,
            Self::NotFound => 404,
            Self::MethodNotAllowed => 405,
            Self::NotAcceptable => 406,
            Self::ProxyAuthenticationRequired => 407,
            Self::RequestTimeout => 408,
            Self::Conflict => 409,
            Self::Gone => 410,
            Self::LengthRequired => 411,
            Self::PreconditionFailed => 412,
            Self::ContentTooLarge => 413,
            Self::URITooLong => 414,
            Self::UnsupportedMediaType => 415,
            Self::RangeNotSatisfiable => 416,
            Self::ExpectationFailed => 417,
            Self::Imateapot => 418,
            Self::MisdirectedRequest => 421,
            Self::UnprocessableContent => 422,
            Self::Locked => 423,
            Self::FailedDependency => 424,
            Self::TooEarly => 425,
            Self::UpgradeRequired => 426,
            Self::PreconditionRequired => 428,
            Self::TooManyRequests => 429,
            Self::RequestHeaderFieldsTooLarge => 431,
            Self::UnavailableForLegalReasons => 451,
            Self::InternalServerError => 500,
            Self::NotImplemented => 501,
            Self::BadGateway => 502,
            Self::ServiceUnavailable => 503,
            Self::GatewayTimeout => 504,
            Self::HTTPVersionNotSupported => 505,
            Self::VariantAlsoNegotiates => 506,
            Self::InsufficientStorage => 507,
            Self::LoopDetected => 508,
            Self::NotExtended => 510,
            Self::NetworkAuthenticationRequired => 511,
        }
    }

    /// The status line text, numeric code followed by the reason phrase.
    pub fn to_string(&self) -> (r: String)
        ensures
            r@ == self.spec_reason(),
    {
        match self {
            Self::Continue => "100 Continue".to_owned(),
            Self::SwitchingProtocols => "101 Switching Protocols".to_owned(),
            Self::Processing => "102 Processing".to_owned(),
            Self::EarlyHints => "103 Early Hints".to_owned(),
            Self::OK => "200 OK".to_owned(),
            Self::Created => "201 Created".to_owned(),
            Self::Accepted => "202 Accepted".to_owned(),
            Self::NonAuthoritativeInformation => "203 Non-Authoritative Information".to_owned(),
            Self::NoContent => "204 No Content".to_owned(),
            Self::ResetContent => "205 Reset Content".to_owned(),
            Self::PartialContent => "206 Partial Content".to_owned(),
            Self::MultiStatus => "207 Multi-Status".to_owned(),
            Self::AlreadyReported => "208 Already Reported".to_owned(),
            Self::IMUsed => "226 IM Used".to_owned(),
            Self::MultipleChoices => "300 Multiple Choices".to_owned(),
            Self::MovedPermanently => "301 Moved Permanently".to_owned(),
            Self::Found => "302 Found".to_owned(),
            Self::SeeOther => "303 See Other".to_owned(),
            Self::NotModified => "304 Not Modified".to_owned(),
            Self::UseProxy => "305 Use Proxy".to_owned(),
            Self::Unused => "306 unused".to_owned(),
            Self::TemporaryRedirect => "307 Temporary Redirect".to_owned(),
            Self::PermanentRedirect => "308 Permanent Redirect".to_owned(),
            Self::BadRequest => "400 Bad Request".to_owned(),
            Self::Unauthorized => "401 Unauthorized".to_owned(),
            Self::PaymentRequired => "402 Payment Required".to_owned(),
            Self::Forbidden => "403 Forbidden".to_owned(),
            Self::NotFound => "404 Not Found".to_owned(),
            Self::MethodNotAllowed => "405 Method Not Allowed".to_owned(),
            Self::NotAcceptable => "406 Not Acceptable".to_owned(),
            Self::ProxyAuthenticationRequired => "407 Proxy Authentication Required".to_owned(),
            Self::RequestTimeout => "408 Request Timeout".to_owned(),
            Self::Conflict => "409 Conflict".to_owned(),
            Self::Gone => "410 Gone".to_owned(),
            Self::LengthRequired => "411 Length Required".to_owned(),
            Self::PreconditionFailed => "412 Precondition Failed".to_owned(),
            Self::ContentTooLarge => "413 Content Too Large".to_owned(),
            Self::URITooLong => "414 URI Too Long".to_owned(),
            Self::UnsupportedMediaType => "415 Unsupported Media Type".to_owned(),
            Self::RangeNotSatisfiable => "416 Range Not Satisfiable".to_owned(),
            Self::ExpectationFailed => "417 Expectation Failed".to_owned(),
            Self::Imateapot => "418 I'm a teapot".to_owned(),
            Self::MisdirectedRequest => "421 Misdirected Request".to_owned(),
            Self::UnprocessableContent => "422 Unprocessable Content".to_owned(),
            Self::Locked => "423 Locked".to_owned(),
            Self::FailedDependency => "424 Failed Dependency".to_owned(),
            Self::TooEarly => "425 Too Early".to_owned(),
            Self::UpgradeRequired => "426 Upgrade Required".to_owned(),
            Self::PreconditionRequired => "428 Precondition Required".to_owned(),
            Self::TooManyRequests => "429 Too Many Requests".to_owned(),
            Self::RequestHeaderFieldsTooLarge => "431 Request Header Fields Too Large".to_owned(),
            Self::UnavailableForLegalReasons => "451 Unavailable For Legal Reasons".to_owned(),
            Self::InternalServerError => "500 Internal Server Error".to_owned(),
            Self::NotImplemented => "501 Not Implemented".to_owned(),
            Self::BadGateway => "502 Bad Gateway".to_owned(),
            Self::ServiceUnavailable => "503 Service Unavailable".to_owned(),
            Self::GatewayTimeout => "504 Gateway Timeout".to_owned(),
            Self::HTTPVersionNotSupported => "505 HTTP Version Not Supported".to_owned(),
            Self::VariantAlsoNegotiates => "506 Variant Also Negotiates".to_owned(),
            Self::InsufficientStorage => "507 Insufficient Storage".to_owned(),
            Self::LoopDetected => "508 Loop Detected".to_owned(),
            Self::NotExtended => "510 Not Extended".to_owned(),
            Self::NetworkAuthenticationRequired => "511 Network Authentication Required".to_owned(),
        }
    }
}

/// Turning a status into its numeric code and back yields the status again.
pub proof fn lemma_status_code_roundtrip(s: HttpStatusCode)
    ensures
        HttpStatusCode::spec_from_code(s.spec_code()) == Ok::<HttpStatusCode, i8>(s),
{
}

} // verus!
