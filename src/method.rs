use vstd::prelude::*;

use crate::text::str_eq;

verus! {

/// The request methods that the server routes on.
#[allow(non_camel_case_types)]
#[derive(Debug, Clone, Copy, PartialEq, Eq, Hash, Structural)]
pub enum Method {
    GET,
    POST,
    PUT,
    PATCH,
    DELETE,
    HEAD,
    OPTIONS,
    TRACE,
}

/// The text by which a method is written on the request line.
pub open spec fn method_name(m: Method) -> Seq<char> {
    match m {
        Method::GET => "GET"@,
        Method::POST => "POST"@,
        Method::PUT => "PUT"@,
        Method::PATCH => "PATCH"@,
        Method::DELETE => "DELETE"@,
        Method::HEAD => "HEAD"@,
        Method::OPTIONS => "OPTIONS"@,
        Method::TRACE => "TRACE"@,
    }
}

/// The method whose name is exactly `s` (case-sensitive), if any.
pub open spec fn method_of_name(s: Seq<char>) -> Option<Method> {
    if s == "GET"@ {
        Some(Method::GET)
    } else if s == "POST"@ {
        Some(Method::POST)
    } else if s == "PUT"@ {
        Some(Method::PUT)
    } else if s == "PATCH"@ {
        Some(Method::PATCH)
    } else if s == "DELETE"@ {
        Some(Method::DELETE)
    } else if s == "HEAD"@ {
        Some(Method::HEAD)
    } else if s == "OPTIONS"@ {
        Some(Method::OPTIONS)
    } else if s == "TRACE"@ {
        Some(Method::TRACE)
    } else {
        None
    }
}

impl Method {
    /// The method's name as written on the request line.
    pub fn name(&self) -> (r: &'static str)
        ensures
            r@ == method_name(*self),
    {
        match self {
            Method::GET => "GET",
            Method::POST => "POST",
            Method::PUT => "PUT",
            Method::PATCH => "PATCH",
            Method::DELETE => "DELETE",
            Method::HEAD => "HEAD",
            Method::OPTIONS => "OPTIONS",
            Method::TRACE => "TRACE",
        }
    }

    /// Reads a method name; the match is exact and case-sensitive.
    pub fn from_name(s: &str) -> (r: Option<Method>)
        ensures
            r == method_of_name(s@),
    {
        if str_eq(s, "GET") {
            Some(Method::GET)
        } else if str_eq(s, "POST") {
            Some(Method::POST)
        } else if str_eq(s, "PUT") {
            Some(Method::PUT)
        } else if str_eq(s, "PATCH") {
            Some(Method::PATCH)
        } else if str_eq(s, "DELETE") {
            Some(Method::DELETE)
        } else if str_eq(s, "HEAD") {
            Some(Method::HEAD)
        } else if str_eq(s, "OPTIONS") {
            Some(Method::OPTIONS)
        } else if str_eq(s, "TRACE") {
            Some(Method::TRACE)
        } else {
            None
        }
    }
}

/// The kinds of failure a handler can answer with.
#[allow(non_camel_case_types)]
#[derive(Debug, Clone, Copy, PartialEq, Eq, Structural)]
pub enum WebError {
    BAD_REQUEST,
    NOT_FOUND,
    INTERNAL_SERVER_ERROR,
}

/// The HTTP status code that names each kind of failure.
pub open spec fn error_code(e: WebError) -> u16 {
    match e {
        WebError::BAD_REQUEST => 400,
        WebError::NOT_FOUND => 404,
        WebError::INTERNAL_SERVER_ERROR => 500,
    }
}

impl WebError {
    /// The HTTP status code that names this kind of failure.
    pub fn code(&self) -> (r: u16)
        ensures
            r == error_code(*self),
    {
        match self {
            WebError::BAD_REQUEST => 400,
            WebError::NOT_FOUND => 404,
            WebError::INTERNAL_SERVER_ERROR => 500,
        }
    }
}

} // verus!
