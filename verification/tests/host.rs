use taldawasm::headers::create_http_headers;
use taldawasm::host::{
    create_http_status_code, create_taldawasm_http_endpoint_request, endpoint_request_head,
    endpoint_request_with_body, exec_wasm_function, exec_wasm_result, get_wasm_function,
    handle_error, response_parts, set_wasm_function, try_response_parts, AppState, BodyRejection,
    EngineFailure, ServiceError, SetWasmFunctionParams, WasmFunctionOptions,
};
use taldawasm::method::HttpMethod;
use taldawasm::structs::{run_response, Response as PlainResponse};
use taldawasm::wit::{Error, Method, Request, Response};

fn pairs(list: &[(&str, &str)]) -> Vec<(String, String)> {
    list.iter().map(|(n, v)| (n.to_string(), v.to_string())).collect()
}

#[test]
fn status_codes_pass_or_become_500() {
    assert_eq!(create_http_status_code(200), 200);
    assert_eq!(create_http_status_code(100), 100);
    assert_eq!(create_http_status_code(999), 999);
    assert_eq!(create_http_status_code(99), 500);
    assert_eq!(create_http_status_code(1000), 500);
    assert_eq!(create_http_status_code(0), 500);
}

#[test]
fn service_errors_are_answered() {
    assert_eq!(handle_error(ServiceError::Timeout), (408, "request timed out".to_string()));
    assert_eq!(
        handle_error(ServiceError::Overloaded),
        (503, "service is overloaded, try again later".to_string())
    );
    assert_eq!(
        handle_error(ServiceError::Other("boom".to_string())),
        (500, "Unhandled internal error: boom".to_string())
    );
}

#[test]
fn stored_function_reads_back_as_the_same_base64() {
    let mut state = AppState::new();
    assert_eq!(get_wasm_function(&state, "echo"), Err(404));
    let text = "AGFzbQEAAAA".to_string();
    let answer = set_wasm_function(
        &mut state,
        "echo".to_string(),
        SetWasmFunctionParams {
            wasm_bytecode: text.clone(),
            options: Some(WasmFunctionOptions { wasi: false }),
        },
    );
    assert_eq!(answer, (200, "OK".to_string()));
    assert_eq!(get_wasm_function(&state, "echo"), Ok(text));
    assert_eq!(exec_wasm_function(&state, "echo"), Ok(vec![0, 97, 115, 109, 1, 0, 0, 0]));
    assert_eq!(exec_wasm_function(&state, "other"), Err(404));
}

#[test]
fn invalid_base64_is_refused_and_changes_nothing() {
    let mut state = AppState::new();
    set_wasm_function(
        &mut state,
        "f".to_string(),
        SetWasmFunctionParams { wasm_bytecode: "AAAA".to_string(), options: None },
    );
    let answer = set_wasm_function(
        &mut state,
        "f".to_string(),
        SetWasmFunctionParams { wasm_bytecode: "AAAA====".to_string(), options: None },
    );
    assert_eq!(answer, (400, "Invalid base64".to_string()));
    assert_eq!(get_wasm_function(&state, "f"), Ok("AAAA".to_string()));
    let answer = set_wasm_function(
        &mut state,
        "g".to_string(),
        SetWasmFunctionParams { wasm_bytecode: "not base64!".to_string(), options: None },
    );
    assert_eq!(answer.0, 400);
    assert_eq!(get_wasm_function(&state, "g"), Err(404));
}

#[test]
fn storing_again_replaces_only_that_key() {
    let mut state = AppState::new();
    for (key, text) in [("a", "AQID"), ("b", "BAUG"), ("a", "BwgJ")] {
        set_wasm_function(
            &mut state,
            key.to_string(),
            SetWasmFunctionParams { wasm_bytecode: text.to_string(), options: None },
        );
    }
    assert_eq!(get_wasm_function(&state, "a"), Ok("BwgJ".to_string()));
    assert_eq!(get_wasm_function(&state, "b"), Ok("BAUG".to_string()));
}

#[test]
fn engine_outcomes_map_to_responses_or_500() {
    let res = Response { status_code: 200, headers: vec![], body: Some(b"200".to_vec()) };
    assert_eq!(exec_wasm_result(Ok(Ok(res.clone()))), Ok(res));
    assert_eq!(exec_wasm_result(Ok(Err(Error::UnexpectedError("x".to_string())))), Err(500));
    for f in [
        EngineFailure::Engine,
        EngineFailure::Component,
        EngineFailure::Bindings,
        EngineFailure::Instantiate,
        EngineFailure::Call,
    ] {
        assert_eq!(exec_wasm_result(Err(f)), Err(500));
    }
}

#[test]
fn incoming_request_parts_become_the_interface_request() {
    let method = HttpMethod::from_str("DELETE").ok().unwrap();
    let headers = create_http_headers(pairs(&[("Host", "localhost")]));
    let req = create_taldawasm_http_endpoint_request(
        Some("/function/echo/execute?x=1".to_string()),
        &method,
        &headers,
        Some(vec![7]),
    )
    .ok()
    .unwrap();
    assert_eq!(
        req,
        Request {
            method: Method::Delete,
            path: "/function/echo/execute?x=1".to_string(),
            headers: pairs(&[("host", "localhost")]),
            body: Some(vec![7]),
        }
    );
    let no_path = create_taldawasm_http_endpoint_request(None, &method, &headers, None).ok().unwrap();
    assert_eq!(no_path.path, "");
}

#[test]
fn incoming_request_with_non_text_header_is_500() {
    let method = HttpMethod::from_str("GET").ok().unwrap();
    let headers = create_http_headers(pairs(&[("x", "ß")]));
    assert!(create_taldawasm_http_endpoint_request(None, &method, &headers, None).is_err());
    assert_eq!(
        endpoint_request_head(None, &method, &headers).err().unwrap(),
        (500, "Failed to read headers".to_string())
    );
}

#[test]
fn incoming_body_is_attached_or_answered() {
    let method = HttpMethod::from_str("POST").ok().unwrap();
    let headers = create_http_headers(vec![]);
    let head = endpoint_request_head(Some("/".to_string()), &method, &headers).ok().unwrap();
    assert_eq!(head.body, None);
    let full = endpoint_request_with_body(head.clone(), Ok(b"abc".to_vec())).ok().unwrap();
    assert_eq!(full.body, Some(b"abc".to_vec()));
    assert_eq!(
        endpoint_request_with_body(head.clone(), Err(BodyRejection::FailedToBuffer("too big".to_string()))),
        Err((500, "too big".to_string()))
    );
    assert_eq!(
        endpoint_request_with_body(head, Err(BodyRejection::Other)),
        Err((500, "Unexpected error while reading body buffer.".to_string()))
    );
}

#[test]
fn component_response_becomes_host_answer() {
    let (status, headers, body) = response_parts(Response {
        status_code: 42,
        headers: pairs(&[("X-Reply", "yes")]),
        body: Some(b"done".to_vec()),
    });
    assert_eq!(status, 500);
    assert_eq!(headers.get("x-reply").unwrap(), "yes");
    assert_eq!(body, b"done".to_vec());
    assert!(try_response_parts(Response { status_code: 200, headers: vec![], body: None }).is_none());
}

#[test]
fn endpoint_glue_reports_500_for_a_failed_handler() {
    let ok: Result<PlainResponse, ()> = Ok(PlainResponse { status: 201, body: "made".to_string() });
    assert_eq!(run_response(ok), PlainResponse { status: 201, body: "made".to_string() });
    let failed: Result<PlainResponse, String> = Err("no".to_string());
    assert_eq!(run_response(failed), PlainResponse { status: 500, body: String::new() });
}
