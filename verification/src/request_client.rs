//! A request client: a base endpoint and default headers, from which single
//! requests are built.
//!
//! Building a request performs no network I/O. What comes out is a plain
//! description of the exchange, which the caller hands to the runtime that
//! performs it.

use vstd::prelude::*;
use vstd::string::*;
use crate::headers::Headers;
use crate::method::Method;

verus! {

/// Why no request came about.
#[derive(Clone, Copy, Debug, PartialEq, Eq, Structural)]
pub enum RequestError {
    /// The client handle stands for no live client.
    UnknownClient,
    /// The endpoint and path do not make a URL.
    InvalidRequest,
    /// No identifier or handle is left to issue.
    ResourceExhaustion,
}

/// Whether the URL parser of the HTTP library accepts `url`. The grammar is
/// the parser's own and is not restated here.
pub uninterp spec fn url_parses(url: Seq<char>) -> bool;

/// Calls `Url::parse` of the HTTP library on `url` and tells whether it
/// succeeded.
///
/// Trusted: the outcome depends on the text of `url` alone.
#[verifier::external_body]
fn parse_url(url: &str) -> (accepted: bool)
    ensures
        accepted == url_parses(url@),
{
    reqwest::Url::parse(url).is_ok()
}

/// The mathematical model of a request client.
pub struct RequestClientView {
    pub endpoint: Seq<char>,
    pub headers: Map<Seq<char>, Seq<char>>,
}

/// The mathematical model of a built request.
pub struct RequestView {
    pub id: i32,
    pub method: Method,
    pub url: Seq<char>,
    pub headers: Map<Seq<char>, Seq<char>>,
    pub body: Seq<char>,
}

impl RequestClientView {
    /// The address that `path` names on this client: the endpoint with the
    /// path behind it.
    pub open spec fn target(self, path: Seq<char>) -> Seq<char> {
        self.endpoint + path
    }

    /// The request that this client builds for `url`: the per-request
    /// headers laid over the client's own, everything else as given.
    pub open spec fn plan(
        self,
        id: i32,
        url: Seq<char>,
        method: Method,
        extra: Map<Seq<char>, Seq<char>>,
        body: Seq<char>,
    ) -> RequestView {
        RequestView { id, method, url, headers: self.headers.union_prefer_right(extra), body }
    }
}

/// A request that was built and not yet started.
#[derive(Debug)]
pub struct Request {
    /// The identifier under which the outcome will be reported.
    pub id: i32,
    pub method: Method,
    /// The full address: endpoint and path.
    pub url: String,
    /// The client's default headers with the per-request headers laid over
    /// them.
    pub headers: Headers,
    pub body: String,
}

impl View for Request {
    type V = RequestView;

    open spec fn view(&self) -> RequestView {
        RequestView {
            id: self.id,
            method: self.method,
            url: self.url@,
            headers: self.headers@,
            body: self.body@,
        }
    }
}

/// A named HTTP configuration. Endpoint and default headers are fixed when
/// the client is made.
#[derive(Debug)]
pub struct RequestClient {
    endpoint: String,
    headers: Headers,
}

impl View for RequestClient {
    type V = RequestClientView;

    closed spec fn view(&self) -> RequestClientView {
        RequestClientView { endpoint: self.endpoint@, headers: self.headers@ }
    }
}

impl RequestClient {
    /// A client for `endpoint` that sends `headers` with every request.
    pub fn new(endpoint: String, headers: Headers) -> (client: Self)
        ensures
            client@ == (RequestClientView { endpoint: endpoint@, headers: headers@ }),
    {
        RequestClient { endpoint, headers }
    }

    /// The base endpoint.
    pub fn endpoint(&self) -> (endpoint: &str)
        ensures
            endpoint@ == self@.endpoint,
    {
        self.endpoint.as_str()
    }

    /// The default headers.
    pub fn headers(&self) -> (headers: &Headers)
        ensures
            headers@ == self@.headers,
    {
        &self.headers
    }

    /// The address that `path` names on this client.
    pub fn target(&self, path: &str) -> (url: String)
        ensures
            url@ == self@.target(path@),
    {
        let mut url = self.endpoint.clone();
        url.append(path);
        url
    }

    /// Whether the address that `path` names on this client is a URL.
    pub fn accepts(&self, path: &str) -> (accepted: bool)
        ensures
            accepted == url_parses(self@.target(path@)),
    {
        let url = self.target(path);
        parse_url(url.as_str())
    }

    /// Builds the request for `url`, given whether the URL parser accepted
    /// it. A URL that was not accepted gives `InvalidRequest`.
    pub fn assemble(
        &self,
        id: i32,
        url: String,
        url_accepted: bool,
        method: Method,
        extra: &Headers,
        body: String,
    ) -> (outcome: Result<Request, RequestError>)
        ensures
            match outcome {
                Ok(request) => url_accepted && request@ == self@.plan(
                    id,
                    url@,
                    method,
                    extra@,
                    body@,
                ),
                Err(error) => !url_accepted && error == RequestError::InvalidRequest,
            },
    {
        if !url_accepted {
            return Err(RequestError::InvalidRequest);
        }
        let headers = self.headers.merged(extra);
        Ok(Request { id, method, url, headers, body })
    }

    /// Builds the request for `path` under the identifier `id`: against the
    /// endpoint with `path` behind it, with `extra` laid over the default
    /// headers. Fails with `InvalidRequest` exactly when that address is no
    /// URL.
    pub fn request(
        &self,
        id: i32,
        path: &str,
        method: Method,
        extra: &Headers,
        body: String,
    ) -> (outcome: Result<Request, RequestError>)
        ensures
            match outcome {
                Ok(request) => url_parses(self@.target(path@)) && request@ == self@.plan(
                    id,
                    self@.target(path@),
                    method,
                    extra@,
                    body@,
                ),
                Err(error) => !url_parses(self@.target(path@)) && error
                    == RequestError::InvalidRequest,
            },
    {
        let url = self.target(path);
        let url_accepted = parse_url(url.as_str());
        self.assemble(id, url, url_accepted, method, extra, body)
    }
}

} // verus!
