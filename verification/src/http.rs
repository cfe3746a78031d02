//! HTTP requests and responses in a transport-agnostic form, for carrying
//! HTTP over rapace RPC.

use vstd::prelude::*;

verus! {

/// The text of each header: name and value.
pub open spec fn headers_view(h: Seq<(String, String)>) -> Seq<(Seq<char>, Seq<char>)> {
    h.map_values(|p: (String, String)| (p.0@, p.1@))
}

/// An HTTP request.
#[derive(Clone, Debug)]
pub struct HttpRequest {
    /// HTTP method (GET, POST, PUT, DELETE, ...).
    pub method: String,
    /// Request path.
    pub path: String,
    /// Query string without the leading `?`, if present.
    pub query: Option<String>,
    /// Headers as name-value pairs, in order.
    pub headers: Vec<(String, String)>,
    /// Request body.
    pub body: Vec<u8>,
}

/// An HTTP response.
#[derive(Clone, Debug)]
pub struct HttpResponse {
    /// Status code.
    pub status: u16,
    /// Headers as name-value pairs, in order.
    pub headers: Vec<(String, String)>,
    /// Response body.
    pub body: Vec<u8>,
}

/// `Not Found`, as bytes.
pub open spec fn not_found_body() -> Seq<u8> {
    seq![78u8, 111, 116, 32, 70, 111, 117, 110, 100]
}

impl HttpRequest {
    /// A GET request for `path`: no query, headers or body.
    pub fn get(path: String) -> (r: Self)
        ensures
            r.method@ == "GET"@,
            r.path@ == path@,
            r.query is None,
            r.headers@.len() == 0,
            r.body@.len() == 0,
    {
        HttpRequest {
            method: String::from_str("GET"),
            path,
            query: None,
            headers: Vec::new(),
            body: Vec::new(),
        }
    }

    /// A POST request for `path` with `body`: no query or headers.
    pub fn post(path: String, body: Vec<u8>) -> (r: Self)
        ensures
            r.method@ == "POST"@,
            r.path@ == path@,
            r.query is None,
            r.headers@.len() == 0,
            r.body@ == body@,
    {
        HttpRequest {
            method: String::from_str("POST"),
            path,
            query: None,
            headers: Vec::new(),
            body,
        }
    }

    /// The request with its query string set to `query`.
    pub fn with_query(self, query: String) -> (r: Self)
        ensures
            r.method@ == self.method@,
            r.path@ == self.path@,
            r.query matches Some(q) && q@ == query@,
            headers_view(r.headers@) == headers_view(self.headers@),
            r.body@ == self.body@,
    {
        let mut r = self;
        r.query = Some(query);
        r
    }

    /// The request with the header `key: value` added after the others.
    pub fn with_header(self, key: String, value: String) -> (r: Self)
        ensures
            r.method@ == self.method@,
            r.path@ == self.path@,
            r.query == self.query,
            headers_view(r.headers@) == headers_view(self.headers@).push((key@, value@)),
            r.body@ == self.body@,
    {
        let mut r = self;
        let ghost kv = (key@, value@);
        r.headers.push((key, value));
        assert(headers_view(r.headers@) =~= headers_view(self.headers@).push(kv));
        r
    }

    /// The request with its body replaced by `body`.
    pub fn with_body(self, body: Vec<u8>) -> (r: Self)
        ensures
            r.method@ == self.method@,
            r.path@ == self.path@,
            r.query == self.query,
            headers_view(r.headers@) == headers_view(self.headers@),
            r.body@ == body@,
    {
        let mut r = self;
        r.body = body;
        r
    }
}

fn content_type(value: &str) -> (r: Vec<(String, String)>)
    ensures
        headers_view(r@) == seq![("content-type"@, value@)],
{
    let mut v = Vec::new();
    v.push((String::from_str("content-type"), String::from_str(value)));
    assert(headers_view(v@) =~= seq![("content-type"@, value@)]);
    v
}

impl HttpResponse {
    /// 200 with a plain-text body.
    pub fn ok(body: Vec<u8>) -> (r: Self)
        ensures
            r.status == 200,
            headers_view(r.headers@) == seq![("content-type"@, "text/plain"@)],
            r.body@ == body@,
    {
        HttpResponse { status: 200, headers: content_type("text/plain"), body }
    }

    /// 200 with a JSON body.
    pub fn json(body: Vec<u8>) -> (r: Self)
        ensures
            r.status == 200,
            headers_view(r.headers@) == seq![("content-type"@, "application/json"@)],
            r.body@ == body@,
    {
        HttpResponse { status: 200, headers: content_type("application/json"), body }
    }

    /// 404 with the plain-text body `Not Found`.
    pub fn not_found() -> (r: Self)
        ensures
            r.status == 404,
            headers_view(r.headers@) == seq![("content-type"@, "text/plain"@)],
            r.body@ == not_found_body(),
    {
        let body = vec![78u8, 111, 116, 32, 70, 111, 117, 110, 100];
        assert(body@ =~= not_found_body());
        HttpResponse { status: 404, headers: content_type("text/plain"), body }
    }

    /// 500 with `message` as the plain-text body.
    pub fn internal_error(message: Vec<u8>) -> (r: Self)
        ensures
            r.status == 500,
            headers_view(r.headers@) == seq![("content-type"@, "text/plain"@)],
            r.body@ == message@,
    {
        HttpResponse { status: 500, headers: content_type("text/plain"), body: message }
    }

    /// The response with the header `key: value` added after the others.
    pub fn with_header(self, key: String, value: String) -> (r: Self)
        ensures
            r.status == self.status,
            headers_view(r.headers@) == headers_view(self.headers@).push((key@, value@)),
            r.body@ == self.body@,
    {
        let mut r = self;
        let ghost kv = (key@, value@);
        r.headers.push((key, value));
        assert(headers_view(r.headers@) =~= headers_view(self.headers@).push(kv));
        r
    }

    /// The response with its status code replaced by `status`.
    pub fn with_status(self, status: u16) -> (r: Self)
        ensures
            r.status == status,
            headers_view(r.headers@) == headers_view(self.headers@),
            r.body@ == self.body@,
    {
        let mut r = self;
        r.status = status;
        r
    }
}

} // verus!
