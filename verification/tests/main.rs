use taldawasm::message::{handle_request, HttpRequest, HttpResponse};
use taldawasm::wit::{Error, Method, Request};

fn handler(_request: HttpRequest) -> Result<HttpResponse, Error> {
    Ok(HttpResponse::new(Some("Hello, World!".into())))
}

#[test]
fn test() {
    assert_eq!(1, 1);
}

#[test]
fn handler_answers_hello_world() {
    let req = Request {
        method: Method::Get,
        path: "/".to_string(),
        headers: vec![],
        body: None,
    };
    let res = handle_request(req, handler).ok().unwrap();
    assert_eq!(res.status_code, 200);
    assert!(res.headers.is_empty());
    assert_eq!(res.body, Some(b"Hello, World!".to_vec()));
}
