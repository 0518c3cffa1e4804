use taldawasm::headers::{
    create_http_headers, create_http_headers_lowercased, headers_to_wit, try_create_http_headers,
    try_create_http_headers_lowercased,
};
use taldawasm::message::{
    fetch, request_from_wit, request_to_wit, response_from_wit, response_to_wit,
    try_handle_request, try_request_from_wit, try_response_from_wit, HttpRequest, HttpResponse,
};
use taldawasm::method::{method_from_wit, method_to_wit, HttpMethod};
use taldawasm::wit::{Error, Method, Request, Response};

fn pairs(list: &[(&str, &str)]) -> Vec<(String, String)> {
    list.iter().map(|(n, v)| (n.to_string(), v.to_string())).collect()
}

fn map_pairs(map: &http::HeaderMap) -> Vec<(String, Vec<u8>)> {
    map.iter().map(|(k, v)| (k.as_str().to_string(), v.as_bytes().to_vec())).collect()
}

fn message(e: &Error) -> &str {
    match e {
        Error::UnexpectedError(m) => m.as_str(),
    }
}

#[test]
fn standard_methods_convert_both_ways() {
    let all = [
        (Method::Get, "GET"),
        (Method::Post, "POST"),
        (Method::Put, "PUT"),
        (Method::Delete, "DELETE"),
        (Method::Head, "HEAD"),
        (Method::Options, "OPTIONS"),
        (Method::Connect, "CONNECT"),
        (Method::Patch, "PATCH"),
        (Method::Trace, "TRACE"),
    ];
    for (m, text) in all.iter() {
        let h = method_from_wit(m.clone()).ok().unwrap();
        assert_eq!(h.as_str(), *text);
        assert_eq!(method_to_wit(&h), *m);
    }
}

#[test]
fn extension_method_converts_both_ways() {
    let h = method_from_wit(Method::Other("PROPFIND".to_string())).ok().unwrap();
    assert_eq!(h.as_str(), "PROPFIND");
    assert_eq!(method_to_wit(&h), Method::Other("PROPFIND".to_string()));
}

#[test]
fn other_naming_a_standard_method_becomes_that_method() {
    let h = method_from_wit(Method::Other("GET".to_string())).ok().unwrap();
    assert_eq!(method_to_wit(&h), Method::Get);
}

#[test]
fn invalid_methods_are_refused() {
    assert!(method_from_wit(Method::Other(String::new())).is_err());
    assert!(method_from_wit(Method::Other("GE T".to_string())).is_err());
    assert!(method_from_wit(Method::Other("G#T".to_string())).is_err());
    assert!(HttpMethod::from_str("wOw!!").is_ok());
    assert!(HttpMethod::from_str("ÄÖ").is_err());
}

#[test]
fn headers_are_lowercased_and_last_value_wins() {
    let map = create_http_headers(pairs(&[
        ("Content-Type", "text/plain"),
        ("X-Custom", "one"),
        ("content-type", "text/html"),
    ]));
    assert_eq!(
        map_pairs(&map),
        vec![
            ("content-type".to_string(), b"text/html".to_vec()),
            ("x-custom".to_string(), b"one".to_vec()),
        ]
    );
}

#[test]
fn invalid_header_lines_are_reported() {
    assert!(try_create_http_headers(&pairs(&[("bad name", "v")])).is_none());
    assert!(try_create_http_headers(&pairs(&[("name", "line\nbreak")])).is_none());
    assert!(try_create_http_headers(&pairs(&[("", "v")])).is_none());
    assert!(try_create_http_headers(&pairs(&[("ok", "v")])).is_some());
}

#[test]
fn lowercased_headers_take_unicode_lowercase() {
    let map = create_http_headers_lowercased(pairs(&[("X-Up", "1")]));
    assert_eq!(map_pairs(&map), vec![("x-up".to_string(), b"1".to_vec())]);
    assert!(try_create_http_headers_lowercased(&pairs(&[("Bad Name", "1")])).is_none());
}

#[test]
fn header_values_beyond_ascii_do_not_read_back() {
    let map = create_http_headers(pairs(&[("x-name", "é")]));
    assert!(headers_to_wit(&map).is_err());
    let map = create_http_headers(pairs(&[("x-name", "plain\tvalue")]));
    assert_eq!(headers_to_wit(&map).ok().unwrap(), pairs(&[("x-name", "plain\tvalue")]));
}

#[test]
fn request_goes_to_http_and_back() {
    let req = Request {
        method: Method::Post,
        path: "/items?id=7".to_string(),
        headers: pairs(&[("accept", "*/*"), ("x-trace", "abc")]),
        body: Some(vec![1, 2, 3]),
    };
    let http_req = request_from_wit(req.clone()).ok().unwrap();
    assert_eq!(http_req.method().as_str(), "POST");
    assert_eq!(http_req.uri(), "/items?id=7");
    assert_eq!(http_req.body(), &Some(vec![1, 2, 3]));
    let back = request_to_wit(&http_req).ok().unwrap();
    assert_eq!(back, req);
}

#[test]
fn request_with_bad_method_is_refused() {
    let req = Request {
        method: Method::Other("BAD METHOD".to_string()),
        path: "/".to_string(),
        headers: vec![],
        body: None,
    };
    let err = request_from_wit(req).err().unwrap();
    assert_eq!(
        message(&err),
        "[taldawasm:http-endpoint-macro]: Failed to convert method. Caused by: invalid HTTP method"
    );
}

#[test]
fn request_with_bad_uri_is_refused() {
    let req = Request {
        method: Method::Get,
        path: "/a b".to_string(),
        headers: vec![],
        body: None,
    };
    let err = request_from_wit(req).err().unwrap();
    assert_eq!(
        message(&err),
        "[taldawasm:http-endpoint-macro]: Failed to build a request. Caused by: invalid uri character"
    );
}

#[test]
fn request_with_bad_header_is_reported_where_it_would_panic() {
    let req = Request {
        method: Method::Get,
        path: "/".to_string(),
        headers: pairs(&[("bad name", "v")]),
        body: None,
    };
    assert!(try_request_from_wit(req.clone()).is_none());
    let refused_first = Request { method: Method::Other(String::new()), ..req };
    assert!(try_request_from_wit(refused_first).unwrap().is_err());
}

#[test]
fn request_with_non_text_header_does_not_convert_back() {
    let mut http_req =
        HttpRequest::build(HttpMethod::from_str("GET").ok().unwrap(), "/", None).ok().unwrap();
    http_req.set_headers(create_http_headers(pairs(&[("x", "ü")])));
    let err = request_to_wit(&http_req).err().unwrap();
    assert_eq!(
        message(&err),
        "[taldawasm:http-endpoint-macro]: Failed to convert headers. Caused by: failed to convert header to a str"
    );
}

#[test]
fn response_goes_to_http_and_back() {
    let res = Response {
        status_code: 404,
        headers: pairs(&[("content-length", "0")]),
        body: None,
    };
    let http_res = response_from_wit(res.clone()).ok().unwrap();
    assert_eq!(http_res.status(), 404);
    assert_eq!(response_to_wit(&http_res).ok().unwrap(), res);
}

#[test]
fn response_with_bad_status_is_refused() {
    for code in [0u16, 99, 1000, 65535] {
        let res = Response { status_code: code, headers: vec![], body: None };
        let err = response_from_wit(res).err().unwrap();
        assert_eq!(
            message(&err),
            "[taldawasm:http-endpoint-macro]: Failed to convert status code. Caused by: invalid status code"
        );
    }
    let bad = Response { status_code: 200, headers: pairs(&[("a b", "c")]), body: None };
    assert!(try_response_from_wit(bad).is_none());
}

#[test]
fn new_response_is_ok_without_headers() {
    let mut res = HttpResponse::new(Some(b"hi".to_vec()));
    assert_eq!(res.status(), 200);
    assert!(res.headers().is_empty());
    assert!(res.set_status(1000).is_err());
    assert_eq!(res.status(), 200);
    assert!(res.set_status(999).is_ok());
    assert_eq!(res.status(), 999);
}

#[test]
fn fetch_sends_the_converted_request_and_converts_the_answer() {
    let mut req =
        HttpRequest::build(HttpMethod::from_str("PUT").ok().unwrap(), "/store", Some(vec![9]))
            .ok()
            .unwrap();
    req.set_headers(create_http_headers(pairs(&[("X-Key", "k")])));
    let res = fetch(req, |sent: &Request| {
        assert_eq!(sent.method, Method::Put);
        assert_eq!(sent.path, "/store");
        assert_eq!(sent.headers, pairs(&[("x-key", "k")]));
        Ok(Response { status_code: 201, headers: pairs(&[("Location", "/store/1")]), body: None })
    })
    .ok()
    .unwrap();
    assert_eq!(res.status(), 201);
    assert_eq!(map_pairs(res.headers()), vec![("location".to_string(), b"/store/1".to_vec())]);
}

#[test]
fn fetch_passes_the_host_error_through() {
    let req = HttpRequest::build(HttpMethod::from_str("GET").ok().unwrap(), "/", None).ok().unwrap();
    let err = fetch(req, |_sent: &Request| Err(Error::UnexpectedError("offline".to_string())))
        .err()
        .unwrap();
    assert_eq!(message(&err), "offline");
}

#[test]
fn serving_echoes_through_the_handler() {
    let req = Request {
        method: Method::Patch,
        path: "/echo".to_string(),
        headers: pairs(&[("x-a", "1")]),
        body: Some(b"payload".to_vec()),
    };
    let served = try_handle_request(req, |r: HttpRequest| {
        let mut res = HttpResponse::new(r.body().clone());
        res.set_headers(create_http_headers(pairs(&[("x-method", r.method().as_str())])));
        Ok(res)
    })
    .unwrap()
    .ok()
    .unwrap();
    assert_eq!(served.status_code, 200);
    assert_eq!(served.headers, pairs(&[("x-method", "PATCH")]));
    assert_eq!(served.body, Some(b"payload".to_vec()));
}

#[test]
fn request_uri_takes_its_display_form() {
    let req = Request {
        method: Method::Get,
        path: "HTTP://example.com".to_string(),
        headers: vec![],
        body: None,
    };
    let http_req = request_from_wit(req).ok().unwrap();
    assert_eq!(http_req.uri(), "http://example.com/");
    assert_eq!(request_to_wit(&http_req).ok().unwrap().path, "http://example.com/");
}

#[test]
fn empty_request_path_is_refused() {
    let req = Request { method: Method::Get, path: String::new(), headers: vec![], body: None };
    let err = request_from_wit(req).err().unwrap();
    assert_eq!(
        message(&err),
        "[taldawasm:http-endpoint-macro]: Failed to build a request. Caused by: empty string"
    );
}

#[test]
fn http_request_goes_to_interface_and_back() {
    let mut first =
        HttpRequest::build(HttpMethod::from_str("MKCOL").ok().unwrap(), "/dav/new?x=y", Some(vec![5]))
            .ok()
            .unwrap();
    first.set_headers(create_http_headers(pairs(&[("depth", "1"), ("x-b", "two words")])));
    let wit_req = request_to_wit(&first).ok().unwrap();
    assert_eq!(wit_req.method, Method::Other("MKCOL".to_string()));
    let back = request_from_wit(wit_req).ok().unwrap();
    assert_eq!(back.method().as_str(), first.method().as_str());
    assert_eq!(back.uri(), first.uri());
    assert_eq!(map_pairs(back.headers()), map_pairs(first.headers()));
    assert_eq!(back.body(), first.body());
}

#[test]
fn reordered_distinct_lines_build_the_same_pairs_reordered() {
    let a = map_pairs(&create_http_headers(pairs(&[("A", "1"), ("b", "2"), ("C", "3")])));
    let b = map_pairs(&create_http_headers(pairs(&[("C", "3"), ("A", "1"), ("b", "2")])));
    assert_eq!(b, vec![a[2].clone(), a[0].clone(), a[1].clone()]);
}

#[test]
fn each_name_is_held_once_with_its_last_value() {
    let map = create_http_headers(pairs(&[("a", "1"), ("B", "2"), ("A", "3"), ("b", "4"), ("a", "5")]));
    assert_eq!(
        map_pairs(&map),
        vec![("a".to_string(), b"5".to_vec()), ("b".to_string(), b"4".to_vec())]
    );
}
