//! The plain request and response of the first, string-based endpoint
//! interface, and the decision the endpoint glue makes about a handler's result.

use vstd::prelude::*;

verus! {

/// A request of the string-based endpoint interface.
#[derive(Debug, Clone, PartialEq, Eq)]
pub struct Request {
    pub method: String,
    pub path: String,
    pub body: String,
}

/// A response of the string-based endpoint interface.
#[derive(Debug, Clone, PartialEq, Eq)]
pub struct Response {
    pub status: u16,
    pub body: String,
}

/// An endpoint of the string-based interface, which its users implement.
pub trait WasmHttpEndpoint {
    fn handle_request(&self, request: Request) -> Response;
}

/// The response that the endpoint glue reports for a handler's result (what
/// the `run` export generated by the `http_endpoint` attribute reports): the
/// handler's response, or status 500 with an empty body when the handler failed.
pub fn run_response<E>(result: Result<Response, E>) -> (r: Response)
    ensures
        match result {
            Ok(res) => r.status == res.status && r.body@ == res.body@,
            Err(_) => r.status == 500 && r.body@ == Seq::<char>::empty(),
        },
{
    match result {
        Ok(response) => response,
        Err(_) => Response { status: 500, body: String::new() },
    }
}

} // verus!
