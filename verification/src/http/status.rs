//! HTTP status codes.
use vstd::prelude::*;
use crate::text::{decimal, digit_char};

verus! {

/// The status codes the server answers with.
#[derive(Debug, Clone, Copy, PartialEq, Eq, Structural)]
pub enum HttpStatusCode {
    OK,
    Created,
    Accepted,
    NoContent,
    MovedPermanently,
    Found,
    SeeOther,
    NotModified,
    TemporaryRedirect,
    PermanentRedirect,
    BadRequest,
    Unauthorized,
    Forbidden,
    NotFound,
    MethodNotAllowed,
    RequestTimeout,
    Conflict,
    Gone,
    LengthRequired,
    PreconditionFailed,
    PayloadTooLarge,
    URITooLong,
    UnsupportedMediaType,
    RangeNotSatisfiable,
    ExpectationFailed,
    InternalServerError,
    NotImplemented,
    BadGateway,
    ServiceUnavailable,
    GatewayTimeout,
    HTTPVersionNotSupported,
}

impl HttpStatusCode {
    /// The numeric code of the status.
    pub open spec fn spec_code(self) -> u16 {
        match self {
            HttpStatusCode::OK => 200,
            HttpStatusCode::Created => 201,
            HttpStatusCode::Accepted => 202,
            HttpStatusCode::NoContent => 204,
            HttpStatusCode::MovedPermanently => 301,
            HttpStatusCode::Found => 302,
            HttpStatusCode::SeeOther => 303,
            HttpStatusCode::NotModified => 304,
            HttpStatusCode::TemporaryRedirect => 307,
            HttpStatusCode::PermanentRedirect => 308,
            HttpStatusCode::BadRequest => 400,
            HttpStatusCode::Unauthorized => 401,
            HttpStatusCode::Forbidden => 403,
            HttpStatusCode::NotFound => 404,
            HttpStatusCode::MethodNotAllowed => 405,
            HttpStatusCode::RequestTimeout => 408,
            HttpStatusCode::Conflict => 409,
            HttpStatusCode::Gone => 410,
            HttpStatusCode::LengthRequired => 411,
            HttpStatusCode::PreconditionFailed => 412,
            HttpStatusCode::PayloadTooLarge => 413,
            HttpStatusCode::URITooLong => 414,
            HttpStatusCode::UnsupportedMediaType => 415,
            HttpStatusCode::RangeNotSatisfiable => 416,
            HttpStatusCode::ExpectationFailed => 417,
            HttpStatusCode::InternalServerError => 500,
            HttpStatusCode::NotImplemented => 501,
            HttpStatusCode::BadGateway => 502,
            HttpStatusCode::ServiceUnavailable => 503,
            HttpStatusCode::GatewayTimeout => 504,
            HttpStatusCode::HTTPVersionNotSupported => 505,
        }
    }

    /// The status line text: the code, a space and the reason phrase.
    pub open spec fn spec_text(self) -> Seq<char> {
        match self {
            HttpStatusCode::OK => "200 OK"@,
            HttpStatusCode::Created => "201 Created"@,
            HttpStatusCode::Accepted => "202 Accepted"@,
            HttpStatusCode::NoContent => "204 No Content"@,
            HttpStatusCode::MovedPermanently => "301 Moved Permanently"@,
            HttpStatusCode::Found => "302 Found"@,
            HttpStatusCode::SeeOther => "303 See Other"@,
            HttpStatusCode::NotModified => "304 Not Modified"@,
            HttpStatusCode::TemporaryRedirect => "307 Temporary Redirect"@,
            HttpStatusCode::PermanentRedirect => "308 Permanent Redirect"@,
            HttpStatusCode::BadRequest => "400 Bad Request"@,
            HttpStatusCode::Unauthorized => "401 Unauthorized"@,
            HttpStatusCode::Forbidden => "403 Forbidden"@,
            HttpStatusCode::NotFound => "404 Not Found"@,
            HttpStatusCode::MethodNotAllowed => "405 Method Not Allowed"@,
            HttpStatusCode::RequestTimeout => "408 Request Timeout"@,
            HttpStatusCode::Conflict => "409 Conflict"@,
            HttpStatusCode::Gone => "410 Gone"@,
            HttpStatusCode::LengthRequired => "411 Length Required"@,
            HttpStatusCode::PreconditionFailed => "412 Precondition Failed"@,
            HttpStatusCode::PayloadTooLarge => "413 Payload Too Large"@,
            HttpStatusCode::URITooLong => "414 URI Too Long"@,
            HttpStatusCode::UnsupportedMediaType => "415 Unsupported Media Type"@,
            HttpStatusCode::RangeNotSatisfiable => "416 Range Not Satisfiable"@,
            HttpStatusCode::ExpectationFailed => "417 Expectation Failed"@,
            HttpStatusCode::InternalServerError => "500 Internal Server Error"@,
            HttpStatusCode::NotImplemented => "501 Not Implemented"@,
            HttpStatusCode::BadGateway => "502 Bad Gateway"@,
            HttpStatusCode::ServiceUnavailable => "503 Service Unavailable"@,
            HttpStatusCode::GatewayTimeout => "504 Gateway Timeout"@,
            HttpStatusCode::HTTPVersionNotSupported => "505 HTTP Version Not Supported"@,
        }
    }

    /// The numeric code (what `status as u16` gives).
    pub fn code(&self) -> (r: u16)
        ensures
            r == self.spec_code(),
    {
        match self {
            HttpStatusCode::OK => 200,
            HttpStatusCode::Created => 201,
            HttpStatusCode::Accepted => 202,
            HttpStatusCode::NoContent => 204,
            HttpStatusCode::MovedPermanently => 301,
            HttpStatusCode::Found => 302,
            HttpStatusCode::SeeOther => 303,
            HttpStatusCode::NotModified => 304,
            HttpStatusCode::TemporaryRedirect => 307,
            HttpStatusCode::PermanentRedirect => 308,
            HttpStatusCode::BadRequest => 400,
            HttpStatusCode::Unauthorized => 401,
            HttpStatusCode::Forbidden => 403,
            HttpStatusCode::NotFound => 404,
            HttpStatusCode::MethodNotAllowed => 405,
            HttpStatusCode::RequestTimeout => 408,
            HttpStatusCode::Conflict => 409,
            HttpStatusCode::Gone => 410,
            HttpStatusCode::LengthRequired => 411,
            HttpStatusCode::PreconditionFailed => 412,
            HttpStatusCode::PayloadTooLarge => 413,
            HttpStatusCode::URITooLong => 414,
            HttpStatusCode::UnsupportedMediaType => 415,
            HttpStatusCode::RangeNotSatisfiable => 416,
            HttpStatusCode::ExpectationFailed => 417,
            HttpStatusCode::InternalServerError => 500,
            HttpStatusCode::NotImplemented => 501,
            HttpStatusCode::BadGateway => 502,
            HttpStatusCode::ServiceUnavailable => 503,
            HttpStatusCode::GatewayTimeout => 504,
            HttpStatusCode::HTTPVersionNotSupported => 505,
        }
    }

    /// The code followed by the reason phrase, such as `404 Not Found`.
    pub fn as_str(&self) -> (r: &'static str)
        ensures
            r@ == self.spec_text(),
    {
        match self {
            HttpStatusCode::OK => "200 OK",
            HttpStatusCode::Created => "201 Created",
            HttpStatusCode::Accepted => "202 Accepted",
            HttpStatusCode::NoContent => "204 No Content",
            HttpStatusCode::MovedPermanently => "301 Moved Permanently",
            HttpStatusCode::Found => "302 Found",
            HttpStatusCode::SeeOther => "303 See Other",
            HttpStatusCode::NotModified => "304 Not Modified",
            HttpStatusCode::TemporaryRedirect => "307 Temporary Redirect",
            HttpStatusCode::PermanentRedirect => "308 Permanent Redirect",
            HttpStatusCode::BadRequest => "400 Bad Request",
            HttpStatusCode::Unauthorized => "401 Unauthorized",
            HttpStatusCode::Forbidden => "403 Forbidden",
            HttpStatusCode::NotFound => "404 Not Found",
            HttpStatusCode::MethodNotAllowed => "405 Method Not Allowed",
            HttpStatusCode::RequestTimeout => "408 Request Timeout",
            HttpStatusCode::Conflict => "409 Conflict",
            HttpStatusCode::Gone => "410 Gone",
            HttpStatusCode::LengthRequired => "411 Length Required",
            HttpStatusCode::PreconditionFailed => "412 Precondition Failed",
            HttpStatusCode::PayloadTooLarge => "413 Payload Too Large",
            HttpStatusCode::URITooLong => "414 URI Too Long",
            HttpStatusCode::UnsupportedMediaType => "415 Unsupported Media Type",
            HttpStatusCode::RangeNotSatisfiable => "416 Range Not Satisfiable",
            HttpStatusCode::ExpectationFailed => "417 Expectation Failed",
            HttpStatusCode::InternalServerError => "500 Internal Server Error",
            HttpStatusCode::NotImplemented => "501 Not Implemented",
            HttpStatusCode::BadGateway => "502 Bad Gateway",
            HttpStatusCode::ServiceUnavailable => "503 Service Unavailable",
            HttpStatusCode::GatewayTimeout => "504 Gateway Timeout",
            HttpStatusCode::HTTPVersionNotSupported => "505 HTTP Version Not Supported",
        }
    }

    /// The status with the numeric code `code`, if the server knows it.
    pub open spec fn spec_from_code(code: u16) -> Option<HttpStatusCode> {
        match code {
            200 => Some(HttpStatusCode::OK),
            201 => Some(HttpStatusCode::Created),
            202 => Some(HttpStatusCode::Accepted),
            204 => Some(HttpStatusCode::NoContent),
            301 => Some(HttpStatusCode::MovedPermanently),
            302 => Some(HttpStatusCode::Found),
            303 => Some(HttpStatusCode::SeeOther),
            304 => Some(HttpStatusCode::NotModified),
            307 => Some(HttpStatusCode::TemporaryRedirect),
            308 => Some(HttpStatusCode::PermanentRedirect),
            400 => Some(HttpStatusCode::BadRequest),
            401 => Some(HttpStatusCode::Unauthorized),
            403 => Some(HttpStatusCode::Forbidden),
            404 => Some(HttpStatusCode::NotFound),
            405 => Some(HttpStatusCode::MethodNotAllowed),
            408 => Some(HttpStatusCode::RequestTimeout),
            409 => Some(HttpStatusCode::Conflict),
            410 => Some(HttpStatusCode::Gone),
            411 => Some(HttpStatusCode::LengthRequired),
            412 => Some(HttpStatusCode::PreconditionFailed),
            413 => Some(HttpStatusCode::PayloadTooLarge),
            414 => Some(HttpStatusCode::URITooLong),
            415 => Some(HttpStatusCode::UnsupportedMediaType),
            416 => Some(HttpStatusCode::RangeNotSatisfiable),
            417 => Some(HttpStatusCode::ExpectationFailed),
            500 => Some(HttpStatusCode::InternalServerError),
            501 => Some(HttpStatusCode::NotImplemented),
            502 => Some(HttpStatusCode::BadGateway),
            503 => Some(HttpStatusCode::ServiceUnavailable),
            504 => Some(HttpStatusCode::GatewayTimeout),
            505 => Some(HttpStatusCode::HTTPVersionNotSupported),
            _ => None,
        }
    }

    pub fn from_code(code: u16) -> (r: Option<HttpStatusCode>)
        ensures
            r == Self::spec_from_code(code),
    {
        match code {
            200 => Some(HttpStatusCode::OK),
            201 => Some(HttpStatusCode::Created),
            202 => Some(HttpStatusCode::Accepted),
            204 => Some(HttpStatusCode::NoContent),
            301 => Some(HttpStatusCode::MovedPermanently),
            302 => Some(HttpStatusCode::Found),
            303 => Some(HttpStatusCode::SeeOther),
            304 => Some(HttpStatusCode::NotModified),
            307 => Some(HttpStatusCode::TemporaryRedirect),
            308 => Some(HttpStatusCode::PermanentRedirect),
            400 => Some(HttpStatusCode::BadRequest),
            401 => Some(HttpStatusCode::Unauthorized),
            403 => Some(HttpStatusCode::Forbidden),
            404 => Some(HttpStatusCode::NotFound),
            405 => Some(HttpStatusCode::MethodNotAllowed),
            408 => Some(HttpStatusCode::RequestTimeout),
            409 => Some(HttpStatusCode::Conflict),
            410 => Some(HttpStatusCode::Gone),
            411 => Some(HttpStatusCode::LengthRequired),
            412 => Some(HttpStatusCode::PreconditionFailed),
            413 => Some(HttpStatusCode::PayloadTooLarge),
            414 => Some(HttpStatusCode::URITooLong),
            415 => Some(HttpStatusCode::UnsupportedMediaType),
            416 => Some(HttpStatusCode::RangeNotSatisfiable),
            417 => Some(HttpStatusCode::ExpectationFailed),
            500 => Some(HttpStatusCode::InternalServerError),
            501 => Some(HttpStatusCode::NotImplemented),
            502 => Some(HttpStatusCode::BadGateway),
            503 => Some(HttpStatusCode::ServiceUnavailable),
            504 => Some(HttpStatusCode::GatewayTimeout),
            505 => Some(HttpStatusCode::HTTPVersionNotSupported),
            _ => None,
        }
    }
}

/// Looking a status up by its own code gives it back.
pub proof fn lemma_from_code_of_code(s: HttpStatusCode)
    ensures
        HttpStatusCode::spec_from_code(s.spec_code()) == Some(s),
{
}

/// A code that names a status is that status's code.
pub proof fn lemma_code_of_from_code(code: u16)
    ensures
        HttpStatusCode::spec_from_code(code) matches Some(s) ==> s.spec_code() == code,
{
}

/// The decimal text of a three-digit number.
proof fn lemma_three_digits(n: nat)
    requires
        100 <= n < 1000,
    ensures
        decimal(n) == seq![digit_char(n / 100), digit_char((n / 10) % 10), digit_char(n % 10)],
{
    assert(decimal(n / 100) == seq![digit_char(n / 100)]);
    assert(n / 10 / 10 == n / 100);
    assert(decimal(n / 10) == seq![digit_char(n / 100)].push(digit_char((n / 10) % 10)));
    assert(decimal(n) =~= seq![digit_char(n / 100), digit_char((n / 10) % 10), digit_char(n % 10)]);
}

/// The text of every status starts with its code and a space.
pub proof fn law_status_text_starts_with_code(s: HttpStatusCode)
    ensures
        s.spec_text().len() > 4,
        s.spec_text().take(4) == decimal(s.spec_code() as nat) + " "@,
{
    lemma_three_digits(s.spec_code() as nat);
    reveal_strlit(" ");
    match s {
        HttpStatusCode::OK => {
            reveal_strlit("200 OK");
        },
        HttpStatusCode::Created => {
            reveal_strlit("201 Created");
        },
        HttpStatusCode::Accepted => {
            reveal_strlit("202 Accepted");
        },
        HttpStatusCode::NoContent => {
            reveal_strlit("204 No Content");
        },
        HttpStatusCode::MovedPermanently => {
            reveal_strlit("301 Moved Permanently");
        },
        HttpStatusCode::Found => {
            reveal_strlit("302 Found");
        },
        HttpStatusCode::SeeOther => {
            reveal_strlit("303 See Other");
        },
        HttpStatusCode::NotModified => {
            reveal_strlit("304 Not Modified");
        },
        HttpStatusCode::TemporaryRedirect => {
            reveal_strlit("307 Temporary Redirect");
        },
        HttpStatusCode::PermanentRedirect => {
            reveal_strlit("308 Permanent Redirect");
        },
        HttpStatusCode::BadRequest => {
            reveal_strlit("400 Bad Request");
        },
        HttpStatusCode::Unauthorized => {
            reveal_strlit("401 Unauthorized");
        },
        HttpStatusCode::Forbidden => {
            reveal_strlit("403 Forbidden");
        },
        HttpStatusCode::NotFound => {
            reveal_strlit("404 Not Found");
        },
        HttpStatusCode::MethodNotAllowed => {
            reveal_strlit("405 Method Not Allowed");
        },
        HttpStatusCode::RequestTimeout => {
            reveal_strlit("408 Request Timeout");
        },
        HttpStatusCode::Conflict => {
            reveal_strlit("409 Conflict");
        },
        HttpStatusCode::Gone => {
            reveal_strlit("410 Gone");
        },
        HttpStatusCode::LengthRequired => {
            reveal_strlit("411 Length Required");
        },
        HttpStatusCode::PreconditionFailed => {
            reveal_strlit("412 Precondition Failed");
        },
        HttpStatusCode::PayloadTooLarge => {
            reveal_strlit("413 Payload Too Large");
        },
        HttpStatusCode::URITooLong => {
            reveal_strlit("414 URI Too Long");
        },
        HttpStatusCode::UnsupportedMediaType => {
            reveal_strlit("415 Unsupported Media Type");
        },
        HttpStatusCode::RangeNotSatisfiable => {
            reveal_strlit("416 Range Not Satisfiable");
        },
        HttpStatusCode::ExpectationFailed => {
            reveal_strlit("417 Expectation Failed");
        },
        HttpStatusCode::InternalServerError => {
            reveal_strlit("500 Internal Server Error");
        },
        HttpStatusCode::NotImplemented => {
            reveal_strlit("501 Not Implemented");
        },
        HttpStatusCode::BadGateway => {
            reveal_strlit("502 Bad Gateway");
        },
        HttpStatusCode::ServiceUnavailable => {
            reveal_strlit("503 Service Unavailable");
        },
        HttpStatusCode::GatewayTimeout => {
            reveal_strlit("504 Gateway Timeout");
        },
        HttpStatusCode::HTTPVersionNotSupported => {
            reveal_strlit("505 HTTP Version Not Supported");
        },
    }
    assert(s.spec_text().take(4) =~= decimal(s.spec_code() as nat) + " "@);
}

} // verus!
