//! The host side: the store of WebAssembly functions behind the HTTP routes,
//! the decisions of its handlers, and the conversion between the host's HTTP
//! requests and responses and the interface records.

use vstd::prelude::*;
use vstd::hash_map::StringHashMap;
use crate::base64_ext::{base64_decode, base64_encode, decode_no_pad, encodable, encode_no_pad};
use crate::headers::{
    create_http_headers_lowercased, header_count_ok, headers_to_wit, headers_valid_lowercased,
    lemma_headers_to_wit_pairs,
    spec_create_headers_lowercased, spec_headers_to_wit, try_create_http_headers_lowercased,
};
use crate::http_ext::{
    all_visible_ascii, ascii_chars, header_map_entries, parse_status_code, HeaderEntry,
};
use crate::message::valid_status;
use crate::method::{method_to_wit, spec_method_to_wit, HttpMethod};
use crate::wit::{body_view, headers_view, Error, Request, Response, SpecRequest};

verus! {

// ---------------------------------------------------------------------------
// Status codes.
// ---------------------------------------------------------------------------

/// 200 OK.
pub const STATUS_OK: u16 = 200;

/// 400 Bad Request.
pub const STATUS_BAD_REQUEST: u16 = 400;

/// 404 Not Found.
pub const STATUS_NOT_FOUND: u16 = 404;

/// 408 Request Timeout.
pub const STATUS_REQUEST_TIMEOUT: u16 = 408;

/// 500 Internal Server Error.
pub const STATUS_INTERNAL_SERVER_ERROR: u16 = 500;

/// 503 Service Unavailable.
pub const STATUS_SERVICE_UNAVAILABLE: u16 = 503;

/// The status code the host answers for a component's status code: the code
/// itself when `StatusCode` accepts it, 500 otherwise.
pub open spec fn spec_status_code(code: u16) -> u16 {
    if valid_status(code) {
        code
    } else {
        STATUS_INTERNAL_SERVER_ERROR
    }
}

/// Turns a component's status code into the host's: unchanged from 100 to
/// 999, 500 otherwise.
pub fn create_http_status_code(status_code: u16) -> (r: u16)
    ensures
        r == spec_status_code(status_code),
{
    match parse_status_code(status_code) {
        Ok(code) => code,
        Err(_) => STATUS_INTERNAL_SERVER_ERROR,
    }
}

// ---------------------------------------------------------------------------
// Requests coming in and responses going out.
// ---------------------------------------------------------------------------

/// What the host's request reading gives for its parts: the path and query
/// (empty when absent), the method, the header lines read as text, and the
/// body; `None` when a header value is not visible ASCII text.
pub open spec fn spec_endpoint_request(
    path: Option<Seq<char>>,
    method: Seq<char>,
    headers: Seq<HeaderEntry>,
    body: Option<Seq<u8>>,
) -> Option<SpecRequest> {
    match spec_headers_to_wit(headers) {
        None => None,
        Some(h) => Some(
            SpecRequest {
                path: match path {
                    Some(p) => p,
                    None => Seq::empty(),
                },
                method: spec_method_to_wit(method),
                headers: h,
                body,
            },
        ),
    }
}

/// The interface request read from an incoming request carries the incoming
/// method as the method conversion gives it, the path and query (empty when
/// absent), the body unchanged, and one header line per pair of the header
/// map, in order, each value as text.
pub proof fn lemma_endpoint_request_parts(
    path: Option<Seq<char>>,
    method: Seq<char>,
    headers: Seq<HeaderEntry>,
    body: Option<Seq<u8>>,
)
    ensures
        spec_endpoint_request(path, method, headers, body) is Some <==> forall|i: int|
            0 <= i < headers.len() ==> all_visible_ascii(#[trigger] headers[i].1),
        spec_endpoint_request(path, method, headers, body) matches Some(r) ==> {
            &&& r.method == spec_method_to_wit(method)
            &&& r.path == match path {
                Some(p) => p,
                None => Seq::<char>::empty(),
            }
            &&& r.body == body
            &&& r.headers.len() == headers.len()
            &&& forall|i: int|
                0 <= i < headers.len() ==> #[trigger] r.headers[i] == (
                    headers[i].0,
                    ascii_chars(headers[i].1),
                )
        },
{
    lemma_headers_to_wit_pairs(headers);
}

/// Builds the interface request from the parts of an incoming HTTP request:
/// fails with the error of `HeaderValue::to_str` when a header value is not text.
pub fn create_taldawasm_http_endpoint_request(
    path: Option<String>,
    method: &HttpMethod,
    headers: &http::HeaderMap,
    body: Option<Vec<u8>>,
) -> (r: Result<Request, http::header::ToStrError>)
    ensures
        r is Ok <==> spec_endpoint_request(
            match path {
                Some(p) => Some(p@),
                None => None,
            },
            method@,
            header_map_entries(*headers),
            body_view(body),
        ) is Some,
        r matches Ok(req) ==> req@ == spec_endpoint_request(
            match path {
                Some(p) => Some(p@),
                None => None,
            },
            method@,
            header_map_entries(*headers),
            body_view(body),
        )->Some_0,
        r is Ok <==> forall|i: int|
            0 <= i < header_map_entries(*headers).len() ==> all_visible_ascii(
                #[trigger] header_map_entries(*headers)[i].1,
            ),
        r matches Ok(req) ==> {
            &&& req.method@ == spec_method_to_wit(method@)
            &&& req.path@ == match path {
                Some(p) => p@,
                None => Seq::<char>::empty(),
            }
            &&& body_view(req.body) == body_view(body)
            &&& req.headers@.len() == header_map_entries(*headers).len()
            &&& forall|i: int|
                0 <= i < req.headers@.len() ==> (#[trigger] req.headers@[i]).0@
                    == header_map_entries(*headers)[i].0 && req.headers@[i].1@ == ascii_chars(
                    header_map_entries(*headers)[i].1,
                )
        },
{
    let tw_headers = match headers_to_wit(headers) {
        Ok(h) => h,
        Err(e) => {
            return Err(e);
        },
    };
    let tw_path = match path {
        Some(p) => p,
        None => String::new(),
    };
    Ok(Request { path: tw_path, method: method_to_wit(method), headers: tw_headers, body })
}

/// Why the body of an incoming request could not be read.
#[derive(Debug, Clone, PartialEq, Eq)]
pub enum BodyRejection {
    /// The body could not be buffered; the text is the rejection's body text.
    FailedToBuffer(String),
    /// Any other rejection.
    Other,
}

/// Reads the head of an incoming request into an interface request with no
/// body (the first half of reading an incoming request): a header value that
/// is not text is answered with 500 and "Failed to read headers".
pub fn endpoint_request_head(path: Option<String>, method: &HttpMethod, headers: &http::HeaderMap)
    -> (r: Result<Request, (u16, String)>)
    ensures
        match r {
            Ok(req) => spec_endpoint_request(
                match path {
                    Some(p) => Some(p@),
                    None => None,
                },
                method@,
                header_map_entries(*headers),
                None,
            ) == Some(req@),
            Err((code, text)) => code == STATUS_INTERNAL_SERVER_ERROR && text@
                == "Failed to read headers"@ && spec_endpoint_request(
                match path {
                    Some(p) => Some(p@),
                    None => None,
                },
                method@,
                header_map_entries(*headers),
                None,
            ) is None,
        },
{
    match create_taldawasm_http_endpoint_request(path, method, headers, None) {
        Ok(req) => Ok(req),
        Err(_) => Err((STATUS_INTERNAL_SERVER_ERROR, String::from_str("Failed to read headers"))),
    }
}

/// Puts the body read from an incoming request into the interface request
/// (the second half of reading an incoming request): a body that could not be
/// buffered is answered with 500 and the rejection's text, any other rejection
/// with 500 and "Unexpected error while reading body buffer.".
pub fn endpoint_request_with_body(req: Request, body: Result<Vec<u8>, BodyRejection>) -> (r: Result<
    Request,
    (u16, String),
>)
    ensures
        match body {
            Ok(b) => r matches Ok(x) && x@ == (SpecRequest { body: Some(b@), ..req@ }),
            Err(BodyRejection::FailedToBuffer(t)) => r matches Err((code, text)) && code
                == STATUS_INTERNAL_SERVER_ERROR && text@ == t@,
            Err(BodyRejection::Other) => r matches Err((code, text)) && code
                == STATUS_INTERNAL_SERVER_ERROR && text@ == "Unexpected error while reading body buffer."@,
        },
{
    match body {
        Ok(bytes) => {
            let mut res = req;
            res.body = Some(bytes);
            Ok(res)
        },
        Err(BodyRejection::FailedToBuffer(text)) => Err((STATUS_INTERNAL_SERVER_ERROR, text)),
        Err(BodyRejection::Other) => Err(
            (
                STATUS_INTERNAL_SERVER_ERROR,
                String::from_str("Unexpected error while reading body buffer."),
            ),
        ),
    }
}

/// The component responses that the host can answer without panicking: a
/// body is present, and every header line is accepted once its name is lowercased.
pub open spec fn response_parts_defined(r: crate::wit::SpecResponse) -> bool {
    &&& r.body is Some
    &&& headers_valid_lowercased(r.headers)
    &&& header_count_ok(r.headers.len())
}

/// The parts of the host's answer for a component's response: the status code
/// as [`create_http_status_code`] turns it, the headers with lowercased names,
/// and the body. An absent body or a refused header line would make writing
/// the answer panic, so such responses are not admitted.
pub fn response_parts(res: Response) -> (r: (u16, http::HeaderMap, Vec<u8>))
    requires
        response_parts_defined(res@),
    ensures
        r.0 == spec_status_code(res.status_code),
        header_map_entries(r.1) == spec_create_headers_lowercased(headers_view(res.headers@)),
        Some(r.2@) == body_view(res.body),
{
    let Response { status_code, headers, body } = res;
    let status = create_http_status_code(status_code);
    let map = create_http_headers_lowercased(headers);
    let bytes = match body {
        Some(b) => b,
        None => Vec::new(),
    };
    (status, map, bytes)
}

/// As [`response_parts`], but answering `None` exactly on the responses that
/// function does not admit.
pub fn try_response_parts(res: Response) -> (r: Option<(u16, http::HeaderMap, Vec<u8>)>)
    ensures
        r is Some <==> response_parts_defined(res@),
        r matches Some(p) ==> {
            &&& p.0 == spec_status_code(res.status_code)
            &&& header_map_entries(p.1) == spec_create_headers_lowercased(
                headers_view(res.headers@),
            )
            &&& Some(p.2@) == body_view(res.body)
        },
{
    if res.body.is_none() {
        return None;
    }
    if res.headers.len() >= 6553 {
        proof {
            assert(headers_view(res.headers@).len() == res.headers@.len());
        }
        return None;
    }
    if try_create_http_headers_lowercased(&res.headers).is_none() {
        return None;
    }
    Some(response_parts(res))
}

// ---------------------------------------------------------------------------
// Errors of the service layers.
// ---------------------------------------------------------------------------

/// An error that the service layers around the routes report.
#[derive(Debug, Clone, PartialEq, Eq)]
pub enum ServiceError {
    /// The request took longer than the time limit.
    Timeout,
    /// The service had too many requests in flight.
    Overloaded,
    /// Any other error, with its display text.
    Other(String),
}

/// The answer to a service-layer error: 408 for a timeout, 503 for overload, 500 with the error's text otherwise.
pub fn handle_error(error: ServiceError) -> (r: (u16, String))
    ensures
        match error {
            ServiceError::Timeout => r.0 == STATUS_REQUEST_TIMEOUT && r.1@ == "request timed out"@,
            ServiceError::Overloaded => r.0 == STATUS_SERVICE_UNAVAILABLE && r.1@
                == "service is overloaded, try again later"@,
            ServiceError::Other(t) => r.0 == STATUS_INTERNAL_SERVER_ERROR && r.1@
                == "Unhandled internal error: "@ + t@,
        },
{
    match error {
        ServiceError::Timeout => (STATUS_REQUEST_TIMEOUT, String::from_str("request timed out")),
        ServiceError::Overloaded => (
            STATUS_SERVICE_UNAVAILABLE,
            String::from_str("service is overloaded, try again later"),
        ),
        ServiceError::Other(text) => {
            let mut message = String::from_str("Unhandled internal error: ");
            message.append(text.as_str());
            (STATUS_INTERNAL_SERVER_ERROR, message)
        },
    }
}

} // verus!

verus! {

// ---------------------------------------------------------------------------
// The store of WebAssembly functions.
// ---------------------------------------------------------------------------

/// How a stored function is to be run.
#[derive(Debug, Clone, PartialEq, Eq)]
pub struct WasmFunctionOptions {
    pub wasi: bool,
}

/// A stored WebAssembly component.
pub struct WasmFunction {
    pub wasm_bytecode: Vec<u8>,
    pub options: Option<WasmFunctionOptions>,
}

/// The host's state: the stored functions by name.
pub struct AppState {
    pub wasm_functions: StringHashMap<WasmFunction>,
}

/// What a client sends to store a function: its bytecode in unpadded base64.
pub struct SetWasmFunctionParams {
    pub wasm_bytecode: String,
    pub options: Option<WasmFunctionOptions>,
}

impl AppState {
    /// A store with no functions.
    pub fn new() -> (s: AppState)
        ensures
            s.wasm_functions@ == Map::<Seq<char>, WasmFunction>::empty(),
    {
        AppState { wasm_functions: StringHashMap::new() }
    }
}

/// Whether the store holds a function under `key` whose bytecode can be encoded.
pub open spec fn stored_encodable(m: Map<Seq<char>, WasmFunction>, key: Seq<char>) -> bool {
    m.contains_key(key) ==> encodable(m[key].wasm_bytecode@.len())
}

/// What reading a stored function gives: its bytecode in unpadded base64, or 404.
pub open spec fn spec_get_wasm_function(m: Map<Seq<char>, WasmFunction>, key: Seq<char>) -> Result<
    Seq<char>,
    u16,
> {
    if m.contains_key(key) {
        Ok(base64_encode(m[key].wasm_bytecode@))
    } else {
        Err(STATUS_NOT_FOUND)
    }
}

/// Answers a read of a stored function: its bytecode in unpadded base64, or
/// 404 when nothing is stored under the key. The encoder panics when the
/// encoding cannot be allocated, so such a bytecode is not admitted.
pub fn get_wasm_function(state: &AppState, key: &str) -> (r: Result<String, u16>)
    requires
        stored_encodable(state.wasm_functions@, key@),
    ensures
        match (r, spec_get_wasm_function(state.wasm_functions@, key@)) {
            (Ok(s), Ok(t)) => s@ == t,
            (Err(c), Err(d)) => c == d,
            _ => false,
        },
{
    match state.wasm_functions.get(key) {
        Some(value) => Ok(encode_no_pad(value.wasm_bytecode.as_slice())),
        None => Err(STATUS_NOT_FOUND),
    }
}

/// What storing a function does: text that does not decode as unpadded
/// base64 (and so is the encoding of no bytes) is answered with 400 and
/// "Invalid base64" and changes nothing;
/// otherwise the decoded bytecode (the only bytes whose encoding is the text) and the
/// options are stored under the key, every other key keeps its function, and
/// the answer is 200 and "OK".
pub open spec fn set_effect(
    before: Map<Seq<char>, WasmFunction>,
    after: Map<Seq<char>, WasmFunction>,
    key: Seq<char>,
    text: Seq<char>,
    options: Option<WasmFunctionOptions>,
    status: u16,
    answer: Seq<char>,
) -> bool {
    match base64_decode(text) {
        None => {
            &&& status == STATUS_BAD_REQUEST
            &&& answer == "Invalid base64"@
            &&& after == before
            &&& forall|b: Seq<u8>| #[trigger] base64_encode(b) != text
        },
        Some(bytes) => {
            &&& status == STATUS_OK
            &&& answer == "OK"@
            &&& after.dom() == before.dom().insert(key)
            &&& after[key].wasm_bytecode@ == bytes
            &&& after[key].options == options
            &&& base64_encode(bytes) == text
            &&& forall|b: Seq<u8>| #[trigger] base64_encode(b) == text ==> b == bytes
            &&& forall|k: Seq<char>| k != key && before.contains_key(k) ==> #[trigger] after[k] == before[k]
        },
    }
}

/// Stores a function: text that does not
/// decode as unpadded base64 is answered with 400 and "Invalid base64" and
/// changes nothing; otherwise the decoded bytecode and the options are stored
/// under the key, replacing what was there, and the answer is 200 and "OK".
pub fn set_wasm_function(state: &mut AppState, key: String, params: SetWasmFunctionParams) -> (r: (
    u16,
    String,
))
    ensures
        set_effect(
            old(state).wasm_functions@,
            final(state).wasm_functions@,
            key@,
            params.wasm_bytecode@,
            params.options,
            r.0,
            r.1@,
        ),
{
    let SetWasmFunctionParams { wasm_bytecode, options } = params;
    match decode_no_pad(wasm_bytecode) {
        Err(_) => (STATUS_BAD_REQUEST, String::from_str("Invalid base64")),
        Ok(bytes) => {
            state.wasm_functions.insert(key, WasmFunction { wasm_bytecode: bytes, options });
            (STATUS_OK, String::from_str("OK"))
        },
    }
}

/// The first step of running a stored function: the bytecode to instantiate, or 404 when nothing is
/// stored under the key.
pub fn exec_wasm_function(state: &AppState, key: &str) -> (r: Result<Vec<u8>, u16>)
    ensures
        match r {
            Ok(code) => state.wasm_functions@.contains_key(key@) && code@
                == state.wasm_functions@[key@].wasm_bytecode@,
            Err(c) => !state.wasm_functions@.contains_key(key@) && c == STATUS_NOT_FOUND,
        },
{
    match state.wasm_functions.get(key) {
        Some(value) => Ok(value.wasm_bytecode.clone()),
        None => Err(STATUS_NOT_FOUND),
    }
}

/// A step of running a component that failed before it answered.
#[derive(Debug, Clone, PartialEq, Eq)]
pub enum EngineFailure {
    /// The engine could not be configured.
    Engine,
    /// The bytecode is not a valid component.
    Component,
    /// The host functions could not be linked.
    Bindings,
    /// The component could not be instantiated.
    Instantiate,
    /// The call into the component trapped.
    Call,
}

/// The last step of running a stored function: the component's response, or
/// 500 when a step failed or the component answered with an error.
pub fn exec_wasm_result(outcome: Result<Result<Response, Error>, EngineFailure>) -> (r: Result<
    Response,
    u16,
>)
    ensures
        match outcome {
            Ok(Ok(res)) => r matches Ok(x) && x@ == res@,
            _ => r matches Err(c) && c == STATUS_INTERNAL_SERVER_ERROR,
        },
{
    match outcome {
        Ok(Ok(res)) => Ok(res),
        _ => Err(STATUS_INTERNAL_SERVER_ERROR),
    }
}

} // verus!

verus! {

/// A function stored under a key is read back as the very text it was stored
/// with; a refused text changes no read; reads of other keys are unchanged
/// either way.
pub proof fn lemma_get_after_set(
    before: Map<Seq<char>, WasmFunction>,
    after: Map<Seq<char>, WasmFunction>,
    key: Seq<char>,
    text: Seq<char>,
    options: Option<WasmFunctionOptions>,
    status: u16,
    answer: Seq<char>,
)
    requires
        set_effect(before, after, key, text, options, status, answer),
    ensures
        base64_decode(text) is Some ==> spec_get_wasm_function(after, key) == Ok::<Seq<char>, u16>(
            text,
        ),
        base64_decode(text) is None ==> spec_get_wasm_function(after, key)
            == spec_get_wasm_function(before, key),
        forall|k: Seq<char>|
            k != key ==> #[trigger] spec_get_wasm_function(after, k) == spec_get_wasm_function(
                before,
                k,
            ),
{
    if base64_decode(text) is Some {
        assert(after.dom().contains(key));
        assert forall|k: Seq<char>| k != key implies #[trigger] spec_get_wasm_function(after, k)
            == spec_get_wasm_function(before, k) by {
            if before.contains_key(k) {
                assert(after[k] == before[k]);
            }
        }
    }
}

/// Reading a key of an empty store finds nothing.
pub proof fn lemma_get_from_empty(key: Seq<char>)
    ensures
        spec_get_wasm_function(Map::<Seq<char>, WasmFunction>::empty(), key) == Err::<Seq<char>, u16>(
            STATUS_NOT_FOUND,
        ),
{
}

} // verus!

verus! {

/// The host always answers with a status code that `StatusCode` accepts, and
/// passes an accepted code through unchanged.
pub proof fn lemma_status_code_valid(code: u16)
    ensures
        valid_status(spec_status_code(code)),
        valid_status(code) ==> spec_status_code(code) == code,
        spec_status_code(spec_status_code(code)) == spec_status_code(code),
{
}

} // verus!

verus! {

/// Storing the base64 encoding of some bytes is always accepted: the bytes
/// themselves are stored, and reading the key gives the encoding back.
pub proof fn lemma_store_encoding(
    before: Map<Seq<char>, WasmFunction>,
    after: Map<Seq<char>, WasmFunction>,
    key: Seq<char>,
    bytes: Seq<u8>,
    options: Option<WasmFunctionOptions>,
    status: u16,
    answer: Seq<char>,
)
    requires
        set_effect(before, after, key, base64_encode(bytes), options, status, answer),
    ensures
        status == STATUS_OK,
        answer == "OK"@,
        after[key].wasm_bytecode@ == bytes,
        spec_get_wasm_function(after, key) == Ok::<Seq<char>, u16>(base64_encode(bytes)),
{
    let text = base64_encode(bytes);
    if base64_decode(text) is None {
        assert(base64_encode(bytes) != text);
    }
    lemma_get_after_set(before, after, key, text, options, status, answer);
}

} // verus!
