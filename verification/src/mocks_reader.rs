//! Canned answers: a table of mocks that is looked up before a request is
//! forwarded. A request that a mock matches is answered from the mock, and
//! no connection is made for it.
use regex::Regex;
use serde_json::Value;
use std::collections::HashMap;
use std::str::FromStr;
use vstd::prelude::*;

verus! {

/// `serde_json::Value`: a JSON value. The values of a mock are carried
/// along and written out, never looked into.
#[verifier::external_type_specification]
#[verifier::external_body]
pub struct ExValue(serde_json::Value);

/// `serde_json::Error`: why a value could not be written as JSON.
#[verifier::external_type_specification]
#[verifier::external_body]
pub struct ExJsonError(serde_json::Error);

/// Whether `http::Method::from_str` accepts the text as a method.
pub uninterp spec fn method_is_valid(text: Seq<char>) -> bool;

/// Whether `regex::Regex::new` compiles the pattern.
pub uninterp spec fn regex_compiles(pattern: Seq<char>) -> bool;

/// Whether `regex::Regex::is_match` finds a match of the compiled pattern
/// anywhere in the text.
pub uninterp spec fn regex_matches(pattern: Seq<char>, haystack: Seq<char>) -> bool;

/// `http::Method::from_str`: whether the text is a method. The answer
/// depends on the text alone.
#[verifier::external_body]
fn is_method(text: &str) -> (valid: bool)
    ensures
        valid == method_is_valid(text@),
{
    http::Method::from_str(text).is_ok()
}

/// `regex::Regex::new`, then `regex::Regex::is_match` on what it compiled:
/// `None` where the pattern does not compile, else whether it matches
/// anywhere in the text. Both answers depend on the two texts alone.
#[verifier::external_body]
fn regex_is_match(pattern: &str, haystack: &str) -> (found: Option<bool>)
    ensures
        found == if regex_compiles(pattern@) {
            Some(regex_matches(pattern@, haystack@))
        } else {
            None
        },
{
    match Regex::new(pattern) {
        Ok(regex) => Some(regex.is_match(haystack)),
        Err(_) => None,
    }
}

/// `serde_json::to_string` on a map of JSON values: the map as JSON text.
/// The order of its members is the order in which the map is walked, so
/// nothing is promised of the text.
#[verifier::external_body]
fn json_to_string(value: &HashMap<String, Value>) -> Result<String, serde_json::Error> {
    serde_json::to_string(value)
}

/// A canned answer and the requests that it is for.
pub struct Mock {
    host: String,
    method: String,
    match_uri_regex: String,
    status: u16,
    mocked_response: HashMap<String, Value>,
    headers: Vec<(String, String)>,
}

/// What a `Mock` holds, but for the JSON of its answer.
pub ghost struct MockView {
    /// The host of the requests that the mock is for.
    pub host: Seq<char>,
    /// Their method.
    pub method: Seq<char>,
    /// The pattern that their path matches.
    pub match_uri_regex: Seq<char>,
    /// The status of the answer.
    pub status: u16,
    /// The headers of the answer, as names and values.
    pub headers: Seq<(Seq<char>, Seq<char>)>,
}

/// The names and values of a list of headers.
pub open spec fn header_texts(headers: Seq<(String, String)>) -> Seq<(Seq<char>, Seq<char>)> {
    headers.map_values(|header: (String, String)| (header.0@, header.1@))
}

impl View for Mock {
    type V = MockView;

    closed spec fn view(&self) -> MockView {
        MockView {
            host: self.host@,
            method: self.method@,
            match_uri_regex: self.match_uri_regex@,
            status: self.status,
            headers: header_texts(self.headers@),
        }
    }
}

impl MockView {
    /// Whether the mock is for requests with this method and path: its
    /// method is a method and the request's own, and its pattern compiles
    /// and matches somewhere in the path.
    pub open spec fn request_match(self, method: Seq<char>, path: Seq<char>) -> bool {
        &&& method_is_valid(self.method)
        &&& self.method == method
        &&& regex_compiles(self.match_uri_regex)
        &&& regex_matches(self.match_uri_regex, path)
    }

    /// Whether the mock answers this request: it is for the request's host,
    /// method and path.
    pub open spec fn answers(self, host: Seq<char>, method: Seq<char>, path: Seq<char>) -> bool {
        self.host == host && self.request_match(method, path)
    }
}

/// An answer made from a mock.
pub struct MockResponse {
    pub status: u16,
    pub body: String,
    pub headers: Vec<(String, String)>,
}

/// A mock whose answer could not be written as JSON.
#[derive(Debug)]
pub struct Unserializable;

impl Mock {
    /// A mock for the requests to `host` with the given method whose path
    /// matches the pattern, and the answer to them.
    pub fn new(
        host: String,
        method: String,
        match_uri_regex: String,
        status: u16,
        mocked_response: HashMap<String, Value>,
        headers: Vec<(String, String)>,
    ) -> (mock: Mock)
        ensures
            mock@ == (MockView {
                host: host@,
                method: method@,
                match_uri_regex: match_uri_regex@,
                status,
                headers: header_texts(headers@),
            }),
    {
        Mock { host, method, match_uri_regex, status, mocked_response, headers }
    }

    /// Whether the mock is for requests with this method, given what became
    /// of its own method and of its pattern: whether the method is one, and
    /// whether the pattern was found in the path of the request, if it
    /// compiles at all.
    pub fn request_match_with(&self, method: &str, is_method: bool, found: Option<bool>) -> (matched:
        bool)
        ensures
            matched == (is_method && self@.method == method@ && found == Some(true)),
    {
        if !is_method {
            return false;
        }
        let wanted = method.to_string();
        if self.method != wanted {
            return false;
        }
        match found {
            Some(found) => found,
            None => false,
        }
    }

    /// Whether the mock is for requests with this method and path.
    pub fn request_match(&self, method: &str, path: &str) -> (matched: bool)
        ensures
            matched == self@.request_match(method@, path@),
    {
        let is_method = is_method(self.method.as_str());
        if !self.request_match_with(method, is_method, Some(true)) {
            // The method rules the mock out, whatever its pattern finds.
            return false;
        }
        let found = regex_is_match(self.match_uri_regex.as_str(), path);
        self.request_match_with(method, is_method, found)
    }

    /// Whether the mock is for requests to this host.
    pub fn host_match(&self, host: &str) -> (matched: bool)
        ensures
            matched == (self@.host == host@),
    {
        let wanted = host.to_string();
        self.host == wanted
    }

    /// The answer of the mock, given the JSON text of its body or the lack
    /// of one: the status and the headers of the mock, in their order, around
    /// that text.
    pub fn respond_with(&self, body: Option<String>) -> (made: Result<MockResponse, Unserializable>)
        ensures
            match made {
                Ok(response) => {
                    &&& body == Some(response.body)
                    &&& response.status == self@.status
                    &&& header_texts(response.headers@) == self@.headers
                },
                Err(_) => body is None,
            },
    {
        let body = match body {
            Some(body) => body,
            None => {
                return Err(Unserializable);
            },
        };
        let count = self.headers.len();
        let mut headers: Vec<(String, String)> = Vec::new();
        let mut i: usize = 0;
        while i < count
            invariant
                count == self.headers@.len(),
                i <= count,
                header_texts(headers@) == header_texts(self.headers@).take(i as int),
            decreases count - i,
        {
            let name = self.headers[i].0.clone();
            let value = self.headers[i].1.clone();
            proof {
                assert(header_texts(headers@.push((name, value))) =~= header_texts(
                    headers@,
                ).push((name@, value@)));
            }
            headers.push((name, value));
            i = i + 1;
        }
        Ok(MockResponse { status: self.status, body, headers })
    }

    /// The answer of the mock: its status and headers around its JSON, as
    /// the JSON encoder writes it.
    pub fn construct_response_from_mock(&self) -> (made: Result<MockResponse, Unserializable>)
        ensures
            made matches Ok(response) ==> response.status == self@.status && header_texts(
                response.headers@,
            ) == self@.headers,
    {
        let body = match json_to_string(&self.mocked_response) {
            Ok(text) => Some(text),
            Err(_) => None,
        };
        self.respond_with(body)
    }
}

/// Whether no mock among the first `count` of the table answers the request.
pub open spec fn none_answers(
    mocks: Seq<Mock>,
    count: int,
    host: Seq<char>,
    method: Seq<char>,
    path: Seq<char>,
) -> bool {
    forall|i: int| 0 <= i < count ==> !(#[trigger] mocks[i])@.answers(host, method, path)
}

/// The mock that answers a request: the first of the table that is for it,
/// if there is one.
pub open spec fn spec_first_match(
    mocks: Seq<Mock>,
    host: Seq<char>,
    method: Seq<char>,
    path: Seq<char>,
    found: Option<usize>,
) -> bool {
    match found {
        Some(at) => {
            &&& at < mocks.len()
            &&& mocks[at as int]@.answers(host, method, path)
            &&& none_answers(mocks, at as int, host, method, path)
        },
        None => none_answers(mocks, mocks.len() as int, host, method, path),
    }
}

/// The first mock of the table that answers the request, if any does.
pub fn first_match(mocks: &Vec<Mock>, host: &str, method: &str, path: &str) -> (found: Option<usize>)
    ensures
        spec_first_match(mocks@, host@, method@, path@, found),
{
    let count = mocks.len();
    let mut i: usize = 0;
    while i < count
        invariant
            count == mocks@.len(),
            i <= count,
            none_answers(mocks@, i as int, host@, method@, path@),
        decreases count - i,
    {
        if mocks[i].host_match(host) && mocks[i].request_match(method, path) {
            return Some(i);
        }
        i = i + 1;
    }
    None
}

} // verus!
