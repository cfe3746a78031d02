use rapace::http::{HttpRequest, HttpResponse};

fn headers(h: &[(String, String)]) -> Vec<(&str, &str)> {
    h.iter().map(|(k, v)| (k.as_str(), v.as_str())).collect()
}

#[test]
fn get_and_post_requests() {
    let get = HttpRequest::get("/api/users/123".to_string());
    assert_eq!(get.method, "GET");
    assert_eq!(get.path, "/api/users/123");
    assert!(get.query.is_none());
    assert!(get.headers.is_empty());
    assert!(get.body.is_empty());

    let post = HttpRequest::post("/api/users".to_string(), b"{}".to_vec());
    assert_eq!(post.method, "POST");
    assert_eq!(post.body, b"{}".to_vec());
}

#[test]
fn request_builders() {
    let req = HttpRequest::get("/search".to_string())
        .with_query("q=rust".to_string())
        .with_header("accept".to_string(), "text/html".to_string())
        .with_header("x-id".to_string(), "7".to_string())
        .with_body(b"payload".to_vec());
    assert_eq!(req.query.as_deref(), Some("q=rust"));
    assert_eq!(headers(&req.headers), vec![("accept", "text/html"), ("x-id", "7")]);
    assert_eq!(req.body, b"payload".to_vec());
    assert_eq!(req.method, "GET");
}

#[test]
fn response_constructors() {
    let ok = HttpResponse::ok(b"hi".to_vec());
    assert_eq!(ok.status, 200);
    assert_eq!(headers(&ok.headers), vec![("content-type", "text/plain")]);
    let json = HttpResponse::json(b"{}".to_vec());
    assert_eq!(headers(&json.headers), vec![("content-type", "application/json")]);
    let nf = HttpResponse::not_found();
    assert_eq!(nf.status, 404);
    assert_eq!(nf.body, b"Not Found".to_vec());
    let err = HttpResponse::internal_error(b"oops".to_vec());
    assert_eq!(err.status, 500);
    assert_eq!(err.body, b"oops".to_vec());
}

#[test]
fn response_builders() {
    let r = HttpResponse::ok(Vec::new())
        .with_status(201)
        .with_header("location".to_string(), "/x".to_string());
    assert_eq!(r.status, 201);
    assert_eq!(
        headers(&r.headers),
        vec![("content-type", "text/plain"), ("location", "/x")]
    );
}
