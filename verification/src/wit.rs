//! The records that cross the boundary between a WebAssembly endpoint
//! component and its host.

use vstd::prelude::*;

verus! {

/// An HTTP method as the component interface carries it.
#[derive(Debug, Clone, PartialEq, Eq)]
pub enum Method {
    Get,
    Post,
    Put,
    Delete,
    Head,
    Options,
    Connect,
    Patch,
    Trace,
    Other(String),
}

/// The mathematical form of [`Method`].
pub enum SpecMethod {
    Get,
    Post,
    Put,
    Delete,
    Head,
    Options,
    Connect,
    Patch,
    Trace,
    Other(Seq<char>),
}

impl View for Method {
    type V = SpecMethod;

    open spec fn view(&self) -> SpecMethod {
        match self {
            Method::Get => SpecMethod::Get,
            Method::Post => SpecMethod::Post,
            Method::Put => SpecMethod::Put,
            Method::Delete => SpecMethod::Delete,
            Method::Head => SpecMethod::Head,
            Method::Options => SpecMethod::Options,
            Method::Connect => SpecMethod::Connect,
            Method::Patch => SpecMethod::Patch,
            Method::Trace => SpecMethod::Trace,
            Method::Other(s) => SpecMethod::Other(s@),
        }
    }
}

} // verus!

verus! {

/// Header lines as name/value pairs, in the order they are carried.
pub type Headers = Vec<(String, String)>;

/// The mathematical form of a header list.
pub open spec fn headers_view(headers: Seq<(String, String)>) -> Seq<(Seq<char>, Seq<char>)> {
    headers.map_values(|h: (String, String)| (h.0@, h.1@))
}

/// A request as the component interface carries it.
#[derive(Debug, Clone, PartialEq, Eq)]
pub struct Request {
    pub method: Method,
    pub path: String,
    pub headers: Headers,
    pub body: Option<Vec<u8>>,
}

/// A response as the component interface carries it.
#[derive(Debug, Clone, PartialEq, Eq)]
pub struct Response {
    pub status_code: u16,
    pub headers: Headers,
    pub body: Option<Vec<u8>>,
}

/// The error that crosses the component interface.
#[derive(Debug, Clone, PartialEq, Eq)]
pub enum Error {
    UnexpectedError(String),
}

/// The mathematical form of an optional body.
pub open spec fn body_view(body: Option<Vec<u8>>) -> Option<Seq<u8>> {
    match body {
        Some(b) => Some(b@),
        None => None,
    }
}

pub struct SpecRequest {
    pub method: SpecMethod,
    pub path: Seq<char>,
    pub headers: Seq<(Seq<char>, Seq<char>)>,
    pub body: Option<Seq<u8>>,
}

pub struct SpecResponse {
    pub status_code: u16,
    pub headers: Seq<(Seq<char>, Seq<char>)>,
    pub body: Option<Seq<u8>>,
}

pub enum SpecError {
    UnexpectedError(Seq<char>),
}

impl View for Request {
    type V = SpecRequest;

    open spec fn view(&self) -> SpecRequest {
        SpecRequest {
            method: self.method@,
            path: self.path@,
            headers: headers_view(self.headers@),
            body: body_view(self.body),
        }
    }
}

impl View for Response {
    type V = SpecResponse;

    open spec fn view(&self) -> SpecResponse {
        SpecResponse {
            status_code: self.status_code,
            headers: headers_view(self.headers@),
            body: body_view(self.body),
        }
    }
}

impl View for Error {
    type V = SpecError;

    open spec fn view(&self) -> SpecError {
        match self {
            Error::UnexpectedError(m) => SpecError::UnexpectedError(m@),
        }
    }
}

} // verus!
