//! Requests and responses in the `http` crate's form, and their conversion to
//! and from the records of the component interface; `fetch`, which sends a
//! request through the host, and the endpoint's request handling.

use vstd::prelude::*;
use crate::headers::{
    create_http_headers, entries_canonical, header_count_ok, headers_canonical, headers_to_wit,
    headers_valid, last_values_kept, lemma_build_last_values, lemma_entries_roundtrip,
    lemma_headers_to_wit_pairs,
    lemma_headers_roundtrip, spec_create_headers,
    spec_headers_to_wit, try_create_http_headers,
};
use crate::http_ext::{
    all_visible_ascii, ascii_chars, header_map_entries, header_map_new, invalid_method_text,
    invalid_status_code_text,
    is_method_token, parse_status_code, parse_uri, to_str_error_text, uri_parse, HeaderEntry,
};
use crate::method::{
    is_canonical_method, lemma_method_from_wit_and_back, lemma_method_to_wit_and_back,
    method_from_wit, method_to_wit, spec_method_from_wit, spec_method_to_wit, HttpMethod,
};
use crate::wit::{
    body_view, headers_view, Error, Request, Response, SpecError, SpecRequest, SpecResponse,
};

verus! {

/// A request in the `http` crate's form (`http::Request<Option<Bytes>>`).
pub struct HttpRequest {
    method: HttpMethod,
    uri: String,
    headers: http::HeaderMap,
    body: Option<Vec<u8>>,
}

/// The mathematical form of a request: its method text, the display form of
/// its URI, its header pairs and its body.
pub struct SpecHttpRequest {
    pub method: Seq<char>,
    pub uri: Seq<char>,
    pub headers: Seq<HeaderEntry>,
    pub body: Option<Seq<u8>>,
}

impl View for HttpRequest {
    type V = SpecHttpRequest;

    closed spec fn view(&self) -> SpecHttpRequest {
        SpecHttpRequest {
            method: self.method@,
            uri: self.uri@,
            headers: header_map_entries(self.headers),
            body: body_view(self.body),
        }
    }
}

/// A response in the `http` crate's form (`http::Response<Option<Bytes>>`).
pub struct HttpResponse {
    status: u16,
    headers: http::HeaderMap,
    body: Option<Vec<u8>>,
}

/// The mathematical form of a response.
pub struct SpecHttpResponse {
    pub status: u16,
    pub headers: Seq<HeaderEntry>,
    pub body: Option<Seq<u8>>,
}

impl View for HttpResponse {
    type V = SpecHttpResponse;

    closed spec fn view(&self) -> SpecHttpResponse {
        SpecHttpResponse {
            status: self.status,
            headers: header_map_entries(self.headers),
            body: body_view(self.body),
        }
    }
}

/// A status code that `StatusCode::from_u16` accepts.
pub open spec fn valid_status(code: u16) -> bool {
    100 <= code <= 999
}

impl HttpRequest {
    /// Builds a request with no headers (`request::Builder` with `uri`,
    /// `method` and `body`): fails exactly when the URI does not parse, with
    /// the parser's error text; otherwise the request holds the URI's display
    /// form, which (below the parser's length limit) parses back to itself.
    pub fn build(method: HttpMethod, uri: &str, body: Option<Vec<u8>>) -> (r: Result<
        HttpRequest,
        String,
    >)
        ensures
            r is Ok <==> uri_parse(uri@) is Ok,
            r matches Ok(req) ==> req@ == (SpecHttpRequest {
                method: method@,
                uri: uri_parse(uri@)->Ok_0,
                headers: Seq::empty(),
                body: body_view(body),
            }),
            r matches Err(m) ==> m@ == uri_parse(uri@)->Err_0,
            r matches Ok(req) ==> (req@.uri.len() <= 65534 ==> uri_parse(req@.uri) == Ok::<
                Seq<char>,
                Seq<char>,
            >(req@.uri)),
    {
        match parse_uri(uri) {
            Ok(u) => Ok(HttpRequest { method, uri: u, headers: header_map_new(), body }),
            Err(m) => Err(m),
        }
    }

    /// Replaces the request's headers (`*request.headers_mut() = headers`).
    pub fn set_headers(&mut self, headers: http::HeaderMap)
        ensures
            final(self)@ == (SpecHttpRequest { headers: header_map_entries(headers), ..old(self)@ }),
    {
        self.headers = headers;
    }

    /// The request's method.
    pub fn method(&self) -> (m: &HttpMethod)
        ensures
            m@ == self@.method,
    {
        &self.method
    }

    /// The display form of the request's URI.
    pub fn uri(&self) -> (u: &str)
        ensures
            u@ == self@.uri,
    {
        self.uri.as_str()
    }

    /// The request's headers.
    pub fn headers(&self) -> (h: &http::HeaderMap)
        ensures
            header_map_entries(*h) == self@.headers,
    {
        &self.headers
    }

    /// The request's body.
    pub fn body(&self) -> (b: &Option<Vec<u8>>)
        ensures
            body_view(*b) == self@.body,
    {
        &self.body
    }
}

impl HttpResponse {
    #[verifier::type_invariant]
    spec fn status_is_valid(&self) -> bool {
        valid_status(self.status)
    }

    /// A response with status 200 and no headers (`http::Response::new`).
    pub fn new(body: Option<Vec<u8>>) -> (r: HttpResponse)
        ensures
            r@ == (SpecHttpResponse { status: 200, headers: Seq::empty(), body: body_view(body) }),
    {
        HttpResponse { status: 200, headers: header_map_new(), body }
    }

    /// Sets the status code (`StatusCode::from_u16`, then `*status_mut()`):
    /// fails, leaving the response unchanged, unless the code is from 100 to 999.
    pub fn set_status(&mut self, code: u16) -> (r: Result<(), http::status::InvalidStatusCode>)
        ensures
            r is Ok <==> valid_status(code),
            r is Ok ==> final(self)@ == (SpecHttpResponse { status: code, ..old(self)@ }),
            r is Err ==> final(self)@ == old(self)@,
    {
        match parse_status_code(code) {
            Ok(c) => {
                self.status = c;
                Ok(())
            },
            Err(e) => Err(e),
        }
    }

    /// Replaces the response's headers (`*response.headers_mut() = headers`).
    pub fn set_headers(&mut self, headers: http::HeaderMap)
        ensures
            final(self)@ == (SpecHttpResponse { headers: header_map_entries(headers), ..old(self)@ }),
    {
        proof {
            use_type_invariant(&*self);
        }
        self.headers = headers;
    }

    /// The response's status code, always from 100 to 999.
    pub fn status(&self) -> (s: u16)
        ensures
            s == self@.status,
            valid_status(s),
    {
        proof {
            use_type_invariant(self);
        }
        self.status
    }

    /// The response's headers.
    pub fn headers(&self) -> (h: &http::HeaderMap)
        ensures
            header_map_entries(*h) == self@.headers,
    {
        &self.headers
    }

    /// The response's body.
    pub fn body(&self) -> (b: &Option<Vec<u8>>)
        ensures
            body_view(*b) == self@.body,
    {
        &self.body
    }
}

} // verus!

verus! {

// ---------------------------------------------------------------------------
// Error texts.
// ---------------------------------------------------------------------------

/// The text that a refused interface method yields.
pub open spec fn method_error_text() -> Seq<char> {
    "[taldawasm:http-endpoint-macro]: Failed to convert method. Caused by: "@
        + "invalid HTTP method"@
}

/// The text that a refused URI yields, given the parser's own text.
pub open spec fn build_error_text(cause: Seq<char>) -> Seq<char> {
    "[taldawasm:http-endpoint-macro]: Failed to build a request. Caused by: "@ + cause
}

/// The text that a header value which is not text yields.
pub open spec fn headers_error_text() -> Seq<char> {
    "[taldawasm:http-endpoint-macro]: Failed to convert headers. Caused by: "@
        + "failed to convert header to a str"@
}

/// The text that a refused status code yields.
pub open spec fn status_error_text() -> Seq<char> {
    "[taldawasm:http-endpoint-macro]: Failed to convert status code. Caused by: "@
        + "invalid status code"@
}

fn error_with_cause(prefix: &str, cause: String) -> (e: Error)
    ensures
        e@ == SpecError::UnexpectedError(prefix@ + cause@),
{
    let mut text = String::from_str(prefix);
    text.append(cause.as_str());
    Error::UnexpectedError(text)
}

// ---------------------------------------------------------------------------
// Requests.
// ---------------------------------------------------------------------------

/// What converting an interface request to the `http` form gives: the method
/// is converted first, then the URI parsed, and the headers built last.
pub open spec fn spec_request_from_wit(r: SpecRequest) -> Result<SpecHttpRequest, SpecError> {
    match spec_method_from_wit(r.method) {
        None => Err(SpecError::UnexpectedError(method_error_text())),
        Some(m) => match uri_parse(r.path) {
            Err(cause) => Err(SpecError::UnexpectedError(build_error_text(cause))),
            Ok(u) => Ok(
                SpecHttpRequest {
                    method: m,
                    uri: u,
                    headers: spec_create_headers(r.headers),
                    body: r.body,
                },
            ),
        },
    }
}

/// The interface requests that the conversion to the `http` form handles
/// without panicking: when the method and URI are accepted, every header line
/// must be accepted too (and fit one header map).
pub open spec fn request_from_wit_defined(r: SpecRequest) -> bool {
    spec_method_from_wit(r.method) is Some && uri_parse(r.path) is Ok ==> headers_valid(r.headers)
        && header_count_ok(r.headers.len())
}

/// What converting an `http` request to the interface form gives: the method
/// and the URI's display form, the headers read as text, and the body.
pub open spec fn spec_request_to_wit(r: SpecHttpRequest) -> Result<SpecRequest, SpecError> {
    match spec_headers_to_wit(r.headers) {
        None => Err(SpecError::UnexpectedError(headers_error_text())),
        Some(h) => Ok(
            SpecRequest { method: spec_method_to_wit(r.method), path: r.uri, headers: h, body: r.body },
        ),
    }
}

/// Converts an interface request to the `http` form (`TryFrom<types::Request>
/// for http::Request`). Once method and URI are accepted, a refused header
/// line would make building the header map panic, so such requests are not
/// admitted.
pub fn request_from_wit(req: Request) -> (r: Result<HttpRequest, Error>)
    requires
        request_from_wit_defined(req@),
    ensures
        match (r, spec_request_from_wit(req@)) {
            (Ok(x), Ok(y)) => x@ == y,
            (Err(x), Err(y)) => x@ == y,
            _ => false,
        },
        r is Ok <==> spec_method_from_wit(req@.method) is Some && uri_parse(req.path@) is Ok,
        r matches Ok(x) ==> {
            &&& x@.method == spec_method_from_wit(req@.method)->Some_0
            &&& x@.uri == uri_parse(req.path@)->Ok_0
            &&& x@.body == body_view(req.body)
            &&& x@.headers == spec_create_headers(headers_view(req.headers@))
            &&& last_values_kept(x@.headers, headers_view(req.headers@), false)
        },
{
    let Request { method, path, headers, body } = req;
    let method = match method_from_wit(method) {
        Ok(m) => m,
        Err(e) => {
            let cause = invalid_method_text(&e);
            return Err(
                error_with_cause(
                    "[taldawasm:http-endpoint-macro]: Failed to convert method. Caused by: ",
                    cause,
                ),
            );
        },
    };
    let mut http_req = match HttpRequest::build(method, path.as_str(), body) {
        Ok(x) => x,
        Err(cause) => {
            return Err(
                error_with_cause(
                    "[taldawasm:http-endpoint-macro]: Failed to build a request. Caused by: ",
                    cause,
                ),
            );
        },
    };
    proof {
        lemma_build_last_values(headers_view(headers@), false);
    }
    let http_headers = create_http_headers(headers);
    http_req.set_headers(http_headers);
    Ok(http_req)
}

/// Whether [`request_from_wit`] admits a request: it tests the method and the
/// URI, and, when both are accepted, the header lines.
pub fn request_admitted(req: &Request) -> (b: bool)
    ensures
        b == request_from_wit_defined(req@),
{
    let method_ok = match &req.method {
        crate::wit::Method::Other(s) => HttpMethod::from_str(s.as_str()).is_ok(),
        _ => true,
    };
    let uri_ok = parse_uri(req.path.as_str()).is_ok();
    if method_ok && uri_ok {
        if req.headers.len() >= 6553 {
            proof {
                assert(headers_view(req.headers@).len() == req.headers@.len());
            }
            false
        } else {
            try_create_http_headers(&req.headers).is_some()
        }
    } else {
        true
    }
}

/// As [`request_from_wit`], but answering `None` exactly on the requests that
/// function does not admit.
pub fn try_request_from_wit(req: Request) -> (r: Option<Result<HttpRequest, Error>>)
    ensures
        r is Some <==> request_from_wit_defined(req@),
        r matches Some(res) ==> match (res, spec_request_from_wit(req@)) {
            (Ok(x), Ok(y)) => x@ == y,
            (Err(x), Err(y)) => x@ == y,
            _ => false,
        },
{
    if !request_admitted(&req) {
        return None;
    }
    Some(request_from_wit(req))
}

/// Converts an `http` request to the interface form (`TryFrom<http::Request>
/// for types::Request`): fails when a header value is not visible ASCII text.
pub fn request_to_wit(req: &HttpRequest) -> (r: Result<Request, Error>)
    ensures
        match (r, spec_request_to_wit(req@)) {
            (Ok(x), Ok(y)) => x@ == y,
            (Err(x), Err(y)) => x@ == y,
            _ => false,
        },
        r is Ok <==> forall|i: int|
            0 <= i < req@.headers.len() ==> all_visible_ascii(#[trigger] req@.headers[i].1),
        r matches Ok(x) ==> {
            &&& x.method@ == spec_method_to_wit(req@.method)
            &&& x.path@ == req@.uri
            &&& body_view(x.body) == req@.body
            &&& x.headers@.len() == req@.headers.len()
            &&& forall|i: int|
                0 <= i < x.headers@.len() ==> (#[trigger] x.headers@[i]).0@ == req@.headers[i].0
                    && x.headers@[i].1@ == ascii_chars(req@.headers[i].1)
        },
{
    let path = String::from_str(req.uri());
    let method = method_to_wit(req.method());
    let headers = match headers_to_wit(req.headers()) {
        Ok(h) => h,
        Err(e) => {
            let cause = to_str_error_text(&e);
            return Err(
                error_with_cause(
                    "[taldawasm:http-endpoint-macro]: Failed to convert headers. Caused by: ",
                    cause,
                ),
            );
        },
    };
    let body = req.body().clone();
    Ok(Request { method, path, headers, body })
}

} // verus!

verus! {

// ---------------------------------------------------------------------------
// Responses.
// ---------------------------------------------------------------------------

/// What converting an interface response to the `http` form gives: the status
/// code is checked first, then the headers are built.
pub open spec fn spec_response_from_wit(r: SpecResponse) -> Result<SpecHttpResponse, SpecError> {
    if valid_status(r.status_code) {
        Ok(
            SpecHttpResponse {
                status: r.status_code,
                headers: spec_create_headers(r.headers),
                body: r.body,
            },
        )
    } else {
        Err(SpecError::UnexpectedError(status_error_text()))
    }
}

/// The interface responses that the conversion to the `http` form handles
/// without panicking: with an accepted status code, every header line must be
/// accepted too (and fit one header map).
pub open spec fn response_from_wit_defined(r: SpecResponse) -> bool {
    valid_status(r.status_code) ==> headers_valid(r.headers) && header_count_ok(r.headers.len())
}

/// What converting an `http` response to the interface form gives.
pub open spec fn spec_response_to_wit(r: SpecHttpResponse) -> Result<SpecResponse, SpecError> {
    match spec_headers_to_wit(r.headers) {
        None => Err(SpecError::UnexpectedError(headers_error_text())),
        Some(h) => Ok(SpecResponse { status_code: r.status, headers: h, body: r.body }),
    }
}

/// Converts an interface response to the `http` form (`TryFrom<types::Response>
/// for http::Response`): fails on a status code outside 100 to 999. Once the
/// status is accepted, a refused header line would make building the header
/// map panic, so such responses are not admitted.
pub fn response_from_wit(value: Response) -> (r: Result<HttpResponse, Error>)
    requires
        response_from_wit_defined(value@),
    ensures
        match (r, spec_response_from_wit(value@)) {
            (Ok(x), Ok(y)) => x@ == y,
            (Err(x), Err(y)) => x@ == y,
            _ => false,
        },
        r is Ok <==> valid_status(value.status_code),
        r matches Ok(x) ==> {
            &&& x@.status == value.status_code
            &&& x@.body == body_view(value.body)
            &&& x@.headers == spec_create_headers(headers_view(value.headers@))
            &&& last_values_kept(x@.headers, headers_view(value.headers@), false)
        },
        r matches Err(e) ==> e@ == SpecError::UnexpectedError(status_error_text()),
{
    let Response { status_code, headers, body } = value;
    if let Err(e) = parse_status_code(status_code) {
        let cause = invalid_status_code_text(&e);
        return Err(
            error_with_cause(
                "[taldawasm:http-endpoint-macro]: Failed to convert status code. Caused by: ",
                cause,
            ),
        );
    }
    proof {
        lemma_build_last_values(headers_view(headers@), false);
    }
    let http_headers = create_http_headers(headers);
    let mut http_res = HttpResponse::new(body);
    let _ = http_res.set_status(status_code);
    http_res.set_headers(http_headers);
    Ok(http_res)
}

/// As [`response_from_wit`], but answering `None` exactly on the responses
/// that function does not admit.
pub fn try_response_from_wit(value: Response) -> (r: Option<Result<HttpResponse, Error>>)
    ensures
        r is Some <==> response_from_wit_defined(value@),
        r matches Some(res) ==> match (res, spec_response_from_wit(value@)) {
            (Ok(x), Ok(y)) => x@ == y,
            (Err(x), Err(y)) => x@ == y,
            _ => false,
        },
{
    if 100 <= value.status_code && value.status_code <= 999 {
        if value.headers.len() >= 6553 {
            proof {
                assert(headers_view(value.headers@).len() == value.headers@.len());
            }
            return None;
        }
        if try_create_http_headers(&value.headers).is_none() {
            return None;
        }
    }
    Some(response_from_wit(value))
}

/// Converts an `http` response to the interface form (`TryFrom<http::Response>
/// for types::Response`): fails when a header value is not visible ASCII text.
pub fn response_to_wit(value: &HttpResponse) -> (r: Result<Response, Error>)
    ensures
        match (r, spec_response_to_wit(value@)) {
            (Ok(x), Ok(y)) => x@ == y,
            (Err(x), Err(y)) => x@ == y,
            _ => false,
        },
        r is Ok <==> forall|i: int|
            0 <= i < value@.headers.len() ==> all_visible_ascii(#[trigger] value@.headers[i].1),
        r matches Ok(x) ==> {
            &&& x.status_code == value@.status
            &&& body_view(x.body) == value@.body
            &&& x.headers@.len() == value@.headers.len()
            &&& forall|i: int|
                0 <= i < x.headers@.len() ==> (#[trigger] x.headers@[i]).0@ == value@.headers[i].0
                    && x.headers@[i].1@ == ascii_chars(value@.headers[i].1)
        },
{
    let headers = match headers_to_wit(value.headers()) {
        Ok(h) => h,
        Err(e) => {
            let cause = to_str_error_text(&e);
            return Err(
                error_with_cause(
                    "[taldawasm:http-endpoint-macro]: Failed to convert headers. Caused by: ",
                    cause,
                ),
            );
        },
    };
    let status_code = value.status();
    let body = value.body().clone();
    Ok(Response { status_code, headers, body })
}

} // verus!

verus! {

// ---------------------------------------------------------------------------
// Sending a request through the host, and serving one.
// ---------------------------------------------------------------------------

/// The mathematical form of what the host answers.
pub open spec fn reply_view(a: Result<Response, Error>) -> Result<SpecResponse, SpecError> {
    match a {
        Ok(x) => Ok(x@),
        Err(e) => Err(e@),
    }
}

/// What `fetch` returns for the host's answer: the host's error as it is, or
/// its response converted to the `http` form.
pub open spec fn spec_fetch_reply(a: Result<SpecResponse, SpecError>) -> Result<
    SpecHttpResponse,
    SpecError,
> {
    match a {
        Err(e) => Err(e),
        Ok(x) => spec_response_from_wit(x),
    }
}

/// Whether an `http`-form result has the given mathematical form.
pub open spec fn http_response_result_is(
    r: Result<HttpResponse, Error>,
    s: Result<SpecHttpResponse, SpecError>,
) -> bool {
    match (r, s) {
        (Ok(x), Ok(y)) => x@ == y,
        (Err(x), Err(y)) => x@ == y,
        _ => false,
    }
}

/// Whether an interface result has the given mathematical form.
pub open spec fn response_result_is(
    r: Result<Response, Error>,
    s: Result<SpecResponse, SpecError>,
) -> bool {
    match (r, s) {
        (Ok(x), Ok(y)) => x@ == y,
        (Err(x), Err(y)) => x@ == y,
        _ => false,
    }
}

/// Sends a request through the host: the request is converted to the
/// interface form, handed to `transport` (the host's `http-outgoing.fetch`
/// import), and the answer converted back. A request whose headers are not
/// text fails before anything is sent. An answer with an accepted status code
/// and a refused header line would make the conversion panic; `transport` is
/// required never to answer so.
pub fn fetch<F>(request: HttpRequest, transport: F) -> (r: Result<HttpResponse, Error>) where
    F: Fn(&Request) -> Result<Response, Error>,

    requires
        forall|q: &Request| #[trigger] transport.requires((q,)),
        forall|q: &Request, a: Result<Response, Error>|
            #[trigger] transport.ensures((q,), a) ==> (a matches Ok(x) ==> response_from_wit_defined(
                x@,
            )),
    ensures
        spec_request_to_wit(request@) matches Err(e) ==> r matches Err(x) && x@ == e,
        spec_request_to_wit(request@) matches Ok(q) ==> exists|
            wq: Request,
            a: Result<Response, Error>,
        |
            wq@ == q && #[trigger] transport.ensures((&wq,), a) && http_response_result_is(
                r,
                spec_fetch_reply(reply_view(a)),
            ) && (a matches Err(e) ==> (r matches Err(z) && z@ == e@)) && (a matches Ok(x) ==> (
            r is Ok <==> valid_status(x.status_code))) && (a matches Ok(x) ==> (r matches Ok(y)
                ==> {
                &&& y@.status == x.status_code
                &&& y@.body == body_view(x.body)
                &&& y@.headers == spec_create_headers(headers_view(x.headers@))
                &&& last_values_kept(y@.headers, headers_view(x.headers@), false)
            })),
{
    let req = match request_to_wit(&request) {
        Ok(q) => q,
        Err(e) => {
            return Err(e);
        },
    };
    let answer = transport(&req);
    let ghost a = answer;
    let r = match answer {
        Ok(res) => response_from_wit(res),
        Err(e) => Err(e),
    };
    proof {
        assert(transport.ensures((&req,), a));
        assert(http_response_result_is(r, spec_fetch_reply(reply_view(a))));
    }
    r
}

/// Serves one request as an endpoint component does (the `handle_request`
/// that the endpoint attribute generates): the interface request is converted
/// to the `http` form, given to `handler`, and the handler's response
/// converted back; a failure of any step is the result. Requests that
/// [`request_from_wit`] does not admit are not admitted here either.
pub fn handle_request<F>(req: Request, handler: F) -> (r: Result<Response, Error>) where
    F: Fn(HttpRequest) -> Result<HttpResponse, Error>,

    requires
        request_from_wit_defined(req@),
        forall|q: HttpRequest| #[trigger] handler.requires((q,)),
    ensures
        spec_request_from_wit(req@) matches Err(e) ==> r matches Err(x) && x@ == e,
        spec_request_from_wit(req@) matches Ok(q) ==> exists|
            hq: HttpRequest,
            a: Result<HttpResponse, Error>,
        |
            hq@ == q && #[trigger] handler.ensures((hq,), a) && match a {
                Err(e) => r matches Err(x) && x@ == e@,
                Ok(res) => response_result_is(r, spec_response_to_wit(res@)),
            },
{
    let http_req = match request_from_wit(req) {
        Ok(q) => q,
        Err(e) => {
            return Err(e);
        },
    };
    let ghost hq = http_req;
    let answer = handler(http_req);
    let ghost a = answer;
    let r = match answer {
        Ok(res) => response_to_wit(&res),
        Err(e) => Err(e),
    };
    proof {
        assert(handler.ensures((hq,), a));
    }
    r
}

/// As [`handle_request`], but answering `None`, without calling the handler,
/// exactly on the requests that function does not admit.
pub fn try_handle_request<F>(req: Request, handler: F) -> (r: Option<Result<Response, Error>>) where
    F: Fn(HttpRequest) -> Result<HttpResponse, Error>,

    requires
        forall|q: HttpRequest| #[trigger] handler.requires((q,)),
    ensures
        r is Some <==> request_from_wit_defined(req@),
        spec_request_from_wit(req@) matches Err(e) ==> (r is Some ==> (r->Some_0 matches Err(x)
            && x@ == e)),
        r is Some ==> (spec_request_from_wit(req@) matches Ok(q) ==> exists|
            hq: HttpRequest,
            a: Result<HttpResponse, Error>,
        |
            hq@ == q && #[trigger] handler.ensures((hq,), a) && match a {
                Err(e) => r->Some_0 matches Err(x) && x@ == e@,
                Ok(res) => response_result_is(r->Some_0, spec_response_to_wit(res@)),
            }),
{
    let defined = request_admitted(&req);
    if defined {
        Some(handle_request(req, handler))
    } else {
        None
    }
}

} // verus!

verus! {

// ---------------------------------------------------------------------------
// What a trip through the `http` form keeps.
// ---------------------------------------------------------------------------

/// An interface request that the `http` form can carry unchanged: its method
/// is accepted and canonical, its URI parses, and its headers are canonical.
pub open spec fn request_canonical(r: SpecRequest) -> bool {
    &&& spec_method_from_wit(r.method) is Some
    &&& is_canonical_method(r.method)
    &&& uri_parse(r.path) is Ok
    &&& headers_canonical(r.headers)
}

/// An interface request that goes to the `http` form and back comes back
/// unchanged, but for its path, which is the display form of the parsed URI.
pub proof fn lemma_request_roundtrip(r: SpecRequest)
    requires
        request_canonical(r),
    ensures
        header_count_ok(r.headers.len()) ==> request_from_wit_defined(r),
        spec_request_from_wit(r) is Ok,
        spec_request_to_wit(spec_request_from_wit(r)->Ok_0) == Ok::<SpecRequest, SpecError>(
            SpecRequest { path: uri_parse(r.path)->Ok_0, ..r },
        ),
{
    lemma_headers_roundtrip(r.headers);
    lemma_method_from_wit_and_back(r.method);
}

/// An interface response that the `http` form can carry unchanged: an
/// accepted status code and canonical headers.
pub open spec fn response_canonical(r: SpecResponse) -> bool {
    &&& valid_status(r.status_code)
    &&& headers_canonical(r.headers)
}

/// An interface response that goes to the `http` form and back comes back unchanged.
pub proof fn lemma_response_roundtrip(r: SpecResponse)
    requires
        response_canonical(r),
    ensures
        header_count_ok(r.headers.len()) ==> response_from_wit_defined(r),
        spec_response_from_wit(r) is Ok,
        spec_response_to_wit(spec_response_from_wit(r)->Ok_0) == Ok::<SpecResponse, SpecError>(r),
{
    lemma_headers_roundtrip(r.headers);
}

} // verus!

verus! {

/// An `http` request that the interface form can carry unchanged: its method
/// is a token, its URI text parses to itself, and its header pairs are
/// canonical (one value per name, all visible ASCII text).
pub open spec fn http_request_canonical(x: SpecHttpRequest) -> bool {
    &&& is_method_token(x.method)
    &&& uri_parse(x.uri) == Ok::<Seq<char>, Seq<char>>(x.uri)
    &&& entries_canonical(x.headers)
}

/// An `http` request that goes to the interface form and back comes back unchanged.
pub proof fn lemma_http_request_roundtrip(x: SpecHttpRequest)
    requires
        http_request_canonical(x),
    ensures
        spec_request_to_wit(x) is Ok,
        header_count_ok(x.headers.len()) ==> request_from_wit_defined(spec_request_to_wit(x)->Ok_0),
        spec_request_from_wit(spec_request_to_wit(x)->Ok_0) == Ok::<SpecHttpRequest, SpecError>(x),
{
    lemma_entries_roundtrip(x.headers);
    lemma_method_to_wit_and_back(x.method);
}

/// An `http` response that the interface form can carry unchanged: its header
/// pairs are canonical.
pub open spec fn http_response_canonical(x: SpecHttpResponse) -> bool {
    &&& valid_status(x.status)
    &&& entries_canonical(x.headers)
}

/// An `http` response that goes to the interface form and back comes back unchanged.
pub proof fn lemma_http_response_roundtrip(x: SpecHttpResponse)
    requires
        http_response_canonical(x),
    ensures
        spec_response_to_wit(x) is Ok,
        header_count_ok(x.headers.len()) ==> response_from_wit_defined(spec_response_to_wit(x)->Ok_0),
        spec_response_from_wit(spec_response_to_wit(x)->Ok_0) == Ok::<SpecHttpResponse, SpecError>(x),
{
    lemma_entries_roundtrip(x.headers);
}

} // verus!

verus! {

/// An interface request whose path is already the display form of its URI
/// goes to the `http` form and back unchanged.
pub proof fn lemma_request_roundtrip_exact(r: SpecRequest)
    requires
        request_canonical(r),
        uri_parse(r.path) == Ok::<Seq<char>, Seq<char>>(r.path),
    ensures
        spec_request_to_wit(spec_request_from_wit(r)->Ok_0) == Ok::<SpecRequest, SpecError>(r),
{
    lemma_request_roundtrip(r);
    assert((SpecRequest { path: uri_parse(r.path)->Ok_0, ..r }) == r);
}

} // verus!

verus! {

// ---------------------------------------------------------------------------
// What each conversion keeps of its input, whatever the header lines.
// ---------------------------------------------------------------------------

/// Converting an interface request to the `http` form succeeds exactly when
/// its method and URI are accepted; the request then carries the converted
/// method, the parsed URI, the body unchanged, and a header map that holds
/// every name of the header lines once, with the value of its last line
/// (lines are inserted in order, so a later line of a name replaces an earlier one).
pub proof fn lemma_request_from_wit_parts(r: SpecRequest)
    ensures
        spec_request_from_wit(r) is Ok <==> spec_method_from_wit(r.method) is Some && uri_parse(
            r.path,
        ) is Ok,
        spec_request_from_wit(r) matches Ok(x) ==> {
            &&& x.method == spec_method_from_wit(r.method)->Some_0
            &&& x.uri == uri_parse(r.path)->Ok_0
            &&& x.body == r.body
            &&& last_values_kept(x.headers, r.headers, false)
        },
{
    lemma_build_last_values(r.headers, false);
}

/// Converting an interface response to the `http` form succeeds exactly when
/// its status code is accepted; the response then carries that status, the
/// body unchanged, and a header map that holds every name of the header lines
/// once, with the value of its last line.
pub proof fn lemma_response_from_wit_parts(r: SpecResponse)
    ensures
        spec_response_from_wit(r) is Ok <==> valid_status(r.status_code),
        spec_response_from_wit(r) matches Ok(x) ==> {
            &&& x.status == r.status_code
            &&& x.body == r.body
            &&& last_values_kept(x.headers, r.headers, false)
        },
{
    lemma_build_last_values(r.headers, false);
}

/// Converting an `http` request to the interface form succeeds exactly when
/// every header value is visible ASCII or tab; the interface request then has
/// the converted method, the URI's display form as its path, the body
/// unchanged, and one header line per pair of the map, in order.
pub proof fn lemma_request_to_wit_parts(x: SpecHttpRequest)
    ensures
        spec_request_to_wit(x) is Ok <==> forall|i: int|
            0 <= i < x.headers.len() ==> all_visible_ascii(#[trigger] x.headers[i].1),
        spec_request_to_wit(x) matches Ok(r) ==> {
            &&& r.method == spec_method_to_wit(x.method)
            &&& r.path == x.uri
            &&& r.body == x.body
            &&& r.headers.len() == x.headers.len()
            &&& forall|i: int|
                0 <= i < x.headers.len() ==> #[trigger] r.headers[i] == (
                    x.headers[i].0,
                    ascii_chars(x.headers[i].1),
                )
        },
{
    lemma_headers_to_wit_pairs(x.headers);
}

/// Converting an `http` response to the interface form succeeds exactly when
/// every header value is visible ASCII or tab; the interface response then has
/// the same status, the body unchanged, and one header line per pair, in order.
pub proof fn lemma_response_to_wit_parts(x: SpecHttpResponse)
    ensures
        spec_response_to_wit(x) is Ok <==> forall|i: int|
            0 <= i < x.headers.len() ==> all_visible_ascii(#[trigger] x.headers[i].1),
        spec_response_to_wit(x) matches Ok(r) ==> {
            &&& r.status_code == x.status
            &&& r.body == x.body
            &&& r.headers.len() == x.headers.len()
            &&& forall|i: int|
                0 <= i < x.headers.len() ==> #[trigger] r.headers[i] == (
                    x.headers[i].0,
                    ascii_chars(x.headers[i].1),
                )
        },
{
    lemma_headers_to_wit_pairs(x.headers);
}

/// What `fetch` returns for the host's answer: the host's error unchanged; for
/// a response, success exactly when its status code is accepted, with that
/// status, the host's body unchanged, and for each header name the value of
/// its last line.
pub proof fn lemma_fetch_reply_parts(a: Result<SpecResponse, SpecError>)
    ensures
        a matches Err(e) ==> spec_fetch_reply(a) == Err::<SpecHttpResponse, SpecError>(e),
        a matches Ok(x) ==> (spec_fetch_reply(a) is Ok <==> valid_status(x.status_code)),
        a matches Ok(x) ==> (spec_fetch_reply(a) matches Ok(y) ==> {
            &&& y.status == x.status_code
            &&& y.body == x.body
            &&& last_values_kept(y.headers, x.headers, false)
        }),
{
    if let Ok(x) = a {
        lemma_response_from_wit_parts(x);
    }
}

} // verus!
