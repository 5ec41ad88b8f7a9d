//! Requests to the web interfaces of the platforms.
use vstd::prelude::*;

use crate::json;
use crate::json::Json;

verus! {

/// What a request does.
#[derive(Clone, Copy, Debug, PartialEq, Eq, Structural)]
pub enum Method {
    Get,
    Post,
    Put,
    Patch,
}

/// A request, ready to be sent.
#[derive(Debug)]
pub struct HttpRequest {
    pub method: Method,
    pub url: String,
    pub query: Vec<(String, String)>,
    pub headers: Vec<(String, String)>,
    pub body: Option<Json>,
}

/// What a request holds.
#[verifier::ext_equal]
pub struct RequestView {
    pub method: Method,
    pub url: Seq<char>,
    pub query: Seq<(Seq<char>, Seq<char>)>,
    pub headers: Seq<(Seq<char>, Seq<char>)>,
    pub body: Option<json::JsonView>,
}

impl View for HttpRequest {
    type V = RequestView;

    open spec fn view(&self) -> RequestView {
        RequestView {
            method: self.method,
            url: self.url@,
            query: json::text_pairs(self.query@),
            headers: json::text_pairs(self.headers@),
            body: match self.body {
                Some(j) => Some(j@),
                None => None,
            },
        }
    }
}

/// Whether a reply asks to try again later.
pub fn is_rate_limited(status: u16) -> (r: bool)
    ensures
        r == (status == 429),
{
    status == 429
}

/// A request without parameters, a header or a body.
pub fn request(method: Method, url: String) -> (r: HttpRequest)
    ensures
        r@ == (RequestView { method, url: url@, query: Seq::empty(), headers: Seq::empty(), body: None }),
{
    let headers: Vec<(String, String)> = Vec::new();
    assert(json::text_pairs(headers@) =~= Seq::empty());
    let query: Vec<(String, String)> = Vec::new();
    assert(json::text_pairs(query@) =~= Seq::empty());
    HttpRequest { method, url, query, headers, body: None }
}

impl HttpRequest {
    /// The request with one more parameter.
    pub fn param(self, name: &str, value: &str) -> (r: HttpRequest)
        ensures
            r@ == (RequestView { query: self@.query.push((name@, value@)), ..self@ }),
    {
        let ghost before = self@;
        let mut query = self.query;
        query.push((name.to_owned(), value.to_owned()));
        assert(json::text_pairs(query@) =~= before.query.push((name@, value@)));
        HttpRequest { method: self.method, url: self.url, query, headers: self.headers, body: self.body }
    }

    /// The request with one more header.
    pub fn header(self, name: &str, value: &str) -> (r: HttpRequest)
        ensures
            r@ == (RequestView { headers: self@.headers.push((name@, value@)), ..self@ }),
    {
        let ghost before = self@;
        let mut headers = self.headers;
        headers.push((name.to_owned(), value.to_owned()));
        assert(json::text_pairs(headers@) =~= before.headers.push((name@, value@)));
        HttpRequest { method: self.method, url: self.url, query: self.query, headers, body: self.body }
    }

    /// The request with a body.
    pub fn json(self, body: Json) -> (r: HttpRequest)
        ensures
            r@ == (RequestView { body: Some(body@), ..self@ }),
    {
        HttpRequest {
            method: self.method,
            url: self.url,
            query: self.query,
            headers: self.headers,
            body: Some(body),
        }
    }
}

} // verus!
