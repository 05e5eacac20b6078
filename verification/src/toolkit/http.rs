//! HTTP requests as data: the method, the address, the headers (each name at
//! most once, a later value replacing an earlier one) and the body. Sending
//! them is left to the caller.

use crate::text::eq_str;
use vstd::prelude::*;

verus! {

/// An HTTP method.
#[derive(Debug, Clone, Copy, PartialEq, Eq, Structural)]
pub enum HttpMethod {
    Get,
    Post,
    Put,
    Delete,
    Patch,
    Head,
    Options,
}

/// No header name occurs twice.
pub open spec fn names_unique(hs: Seq<(String, String)>) -> bool {
    forall|i: int, j: int| 0 <= i < j < hs.len() ==> hs[i].0@ != hs[j].0@
}

/// The value of header `name`, if it is set.
pub open spec fn header_value(hs: Seq<(String, String)>, name: Seq<char>) -> Option<Seq<char>> {
    if exists|i: int| 0 <= i < hs.len() && hs[i].0@ == name {
        Some(hs[choose|i: int| 0 <= i < hs.len() && hs[i].0@ == name].1@)
    } else {
        None
    }
}

/// The header names, in the order they were first set.
pub open spec fn header_names(hs: Seq<(String, String)>) -> Seq<Seq<char>> {
    hs.map_values(|h: (String, String)| h.0@)
}

/// The names after setting `name`: unchanged when it was set, else with it at the end.
pub open spec fn names_after_set(hs: Seq<(String, String)>, name: Seq<char>) -> Seq<Seq<char>> {
    if header_value(hs, name) is Some {
        header_names(hs)
    } else {
        header_names(hs).push(name)
    }
}

/// With unique names, the value of the header at position `i` is its entry's value.
proof fn lemma_value_at(hs: Seq<(String, String)>, i: int)
    requires
        names_unique(hs),
        0 <= i < hs.len(),
    ensures
        header_value(hs, hs[i].0@) == Some(hs[i].1@),
{
    let name = hs[i].0@;
    let k = choose|k: int| 0 <= k < hs.len() && hs[k].0@ == name;
    assert(0 <= k < hs.len() && hs[k].0@ == name);
    if k != i {
        if k < i {
            assert(hs[k].0@ != hs[i].0@);
        } else {
            assert(hs[i].0@ != hs[k].0@);
        }
    }
}

/// Sets header `name` to `value`: replaces its value when it is set, else
/// adds it after the others.
fn set_header(hs: &mut Vec<(String, String)>, name: &str, value: &str)
    requires
        names_unique(old(hs)@),
    ensures
        names_unique(final(hs)@),
        header_value(final(hs)@, name@) == Some(value@),
        forall|other: Seq<char>|
            other != name@ ==> #[trigger] header_value(final(hs)@, other) == header_value(
                old(hs)@,
                other,
            ),
        header_names(final(hs)@) == names_after_set(old(hs)@, name@),
{
    let ghost before = hs@;
    let mut i: usize = 0;
    while i < hs.len()
        invariant
            hs@ == before,
            old(hs)@ == before,
            names_unique(before),
            i <= hs@.len(),
            forall|j: int| 0 <= j < i ==> hs@[j].0@ != name@,
        decreases hs@.len() - i,
    {
        if eq_str(hs[i].0.as_str(), name) {
            let entry = (name.to_owned(), value.to_owned());
            hs.set(i, entry);
            proof {
                let after = hs@;
                assert forall|a: int, b: int| 0 <= a < b < after.len() implies after[a].0@
                    != after[b].0@ by {
                    assert(after[a].0@ == before[a].0@);
                    assert(after[b].0@ == before[b].0@);
                }
                lemma_value_at(after, i as int);
                assert forall|other: Seq<char>| other != name@ implies #[trigger] header_value(
                    after,
                    other,
                ) == header_value(before, other) by {
                    if exists|k: int| 0 <= k < before.len() && before[k].0@ == other {
                        let k = choose|k: int| 0 <= k < before.len() && before[k].0@ == other;
                        lemma_value_at(before, k);
                        assert(k != i);
                        assert(after[k] == before[k]);
                        lemma_value_at(after, k);
                    } else {
                        assert forall|k: int| 0 <= k < after.len() implies after[k].0@ != other by {
                            assert(after[k].0@ == before[k].0@);
                        }
                    }
                }
                lemma_value_at(before, i as int);
                assert(header_names(after) =~= header_names(before));
            }
            return;
        }
        i = i + 1;
    }
    hs.push((name.to_owned(), value.to_owned()));
    proof {
        let after = hs@;
        let n = before.len() as int;
        assert forall|a: int, b: int| 0 <= a < b < after.len() implies after[a].0@ != after[b].0@ by {
            if b < n {
                assert(after[a] == before[a]);
                assert(after[b] == before[b]);
            } else {
                assert(after[a] == before[a]);
            }
        }
        lemma_value_at(after, n);
        assert forall|other: Seq<char>| other != name@ implies #[trigger] header_value(after, other)
            == header_value(before, other) by {
            if exists|k: int| 0 <= k < before.len() && before[k].0@ == other {
                let k = choose|k: int| 0 <= k < before.len() && before[k].0@ == other;
                lemma_value_at(before, k);
                assert(after[k] == before[k]);
                lemma_value_at(after, k);
            } else {
                assert forall|k: int| 0 <= k < after.len() implies after[k].0@ != other by {
                    if k < n {
                        assert(after[k] == before[k]);
                    }
                }
            }
        }
        assert(header_value(before, name@) is None);
        assert(header_names(after) =~= header_names(before).push(name@));
    }
}

/// A request: method, address, headers and body.
#[derive(Debug)]
pub struct Request {
    method: HttpMethod,
    url: String,
    headers: Vec<(String, String)>,
    body: Option<String>,
}

impl Request {
    #[verifier::type_invariant]
    spec fn inv(self) -> bool {
        names_unique(self.headers@)
    }

    /// The method.
    pub closed spec fn spec_method(&self) -> HttpMethod {
        self.method
    }

    /// The address.
    pub closed spec fn spec_url(&self) -> Seq<char> {
        self.url@
    }

    /// The headers, in the order their names were first set.
    pub closed spec fn spec_headers(&self) -> Seq<(String, String)> {
        self.headers@
    }

    /// The body, if one was set.
    pub closed spec fn spec_body(&self) -> Option<Seq<char>> {
        match self.body {
            Some(b) => Some(b@),
            None => None,
        }
    }

    /// A request with no headers and no body.
    pub fn new(method: HttpMethod, url: String) -> (r: Self)
        ensures
            r.spec_method() == method,
            r.spec_url() == url@,
            r.spec_headers().len() == 0,
            r.spec_body() is None,
    {
        Request { method, url, headers: Vec::new(), body: None }
    }

    /// The request with header `key` set to `value`.
    pub fn header(self, key: &str, value: &str) -> (r: Self)
        ensures
            r.spec_method() == self.spec_method(),
            r.spec_url() == self.spec_url(),
            r.spec_body() == self.spec_body(),
            names_unique(r.spec_headers()),
            header_value(r.spec_headers(), key@) == Some(value@),
            forall|other: Seq<char>|
                other != key@ ==> #[trigger] header_value(r.spec_headers(), other) == header_value(
                    self.spec_headers(),
                    other,
                ),
            header_names(r.spec_headers()) == names_after_set(self.spec_headers(), key@),
    {
        proof {
            use_type_invariant(&self);
        }
        let Request { method, url, mut headers, body } = self;
        set_header(&mut headers, key, value);
        Request { method, url, headers, body }
    }

    /// The request with the given body.
    pub fn body(self, body: String) -> (r: Self)
        ensures
            r.spec_method() == self.spec_method(),
            r.spec_url() == self.spec_url(),
            r.spec_headers() == self.spec_headers(),
            r.spec_body() == Some(body@),
    {
        proof {
            use_type_invariant(&self);
        }
        let Request { method, url, headers, body: _ } = self;
        Request { method, url, headers, body: Some(body) }
    }

    /// The method.
    pub fn method(&self) -> (r: HttpMethod)
        ensures
            r == self.spec_method(),
    {
        self.method
    }

    /// The address.
    pub fn url(&self) -> (r: &str)
        ensures
            r@ == self.spec_url(),
    {
        self.url.as_str()
    }

    /// The headers, in the order their names were first set.
    pub fn headers(&self) -> (r: &Vec<(String, String)>)
        ensures
            r@ == self.spec_headers(),
            names_unique(r@),
    {
        proof {
            use_type_invariant(self);
        }
        &self.headers
    }

    /// The body, if one was set.
    pub fn body_text(&self) -> (r: Option<&str>)
        ensures
            match r {
                Some(b) => self.spec_body() == Some(b@),
                None => self.spec_body() is None,
            },
    {
        match &self.body {
            Some(b) => Some(b.as_str()),
            None => None,
        }
    }
}

/// A request under construction: the address may still be missing.
#[derive(Debug)]
pub struct RequestBuilderWrapper {
    method: HttpMethod,
    url: Option<String>,
    headers: Vec<(String, String)>,
    body: Option<String>,
}

/// A new `GET` request with no address, headers or body.
pub fn basic_request() -> (r: RequestBuilderWrapper)
    ensures
        r.spec_method() == HttpMethod::Get,
        r.spec_url() is None,
        r.spec_headers().len() == 0,
        r.spec_body() is None,
{
    RequestBuilderWrapper { method: HttpMethod::Get, url: None, headers: Vec::new(), body: None }
}

impl RequestBuilderWrapper {
    #[verifier::type_invariant]
    spec fn inv(self) -> bool {
        names_unique(self.headers@)
    }

    /// The method.
    pub closed spec fn spec_method(&self) -> HttpMethod {
        self.method
    }

    /// The address, once set.
    pub closed spec fn spec_url(&self) -> Option<Seq<char>> {
        match self.url {
            Some(u) => Some(u@),
            None => None,
        }
    }

    /// The headers, in the order their names were first set.
    pub closed spec fn spec_headers(&self) -> Seq<(String, String)> {
        self.headers@
    }

    /// The body, if one was set.
    pub closed spec fn spec_body(&self) -> Option<Seq<char>> {
        match self.body {
            Some(b) => Some(b@),
            None => None,
        }
    }

    /// A `GET` request to `url`.
    pub fn get(self, url: &str) -> (r: Self)
        ensures
            r.spec_method() == HttpMethod::Get,
            r.spec_url() == Some(url@),
            r.spec_headers() == self.spec_headers(),
            r.spec_body() == self.spec_body(),
    {
        proof {
            use_type_invariant(&self);
        }
        let RequestBuilderWrapper { method: _, url: _, headers, body } = self;
        RequestBuilderWrapper { method: HttpMethod::Get, url: Some(url.to_owned()), headers, body }
    }

    /// A `POST` request to `url`.
    pub fn post(self, url: &str) -> (r: Self)
        ensures
            r.spec_method() == HttpMethod::Post,
            r.spec_url() == Some(url@),
            r.spec_headers() == self.spec_headers(),
            r.spec_body() == self.spec_body(),
    {
        proof {
            use_type_invariant(&self);
        }
        let RequestBuilderWrapper { method: _, url: _, headers, body } = self;
        RequestBuilderWrapper { method: HttpMethod::Post, url: Some(url.to_owned()), headers, body }
    }

    /// The request with header `key` set to `value`.
    pub fn header(self, key: &str, value: &str) -> (r: Self)
        ensures
            r.spec_method() == self.spec_method(),
            r.spec_url() == self.spec_url(),
            r.spec_body() == self.spec_body(),
            names_unique(r.spec_headers()),
            header_value(r.spec_headers(), key@) == Some(value@),
            forall|other: Seq<char>|
                other != key@ ==> #[trigger] header_value(r.spec_headers(), other) == header_value(
                    self.spec_headers(),
                    other,
                ),
            header_names(r.spec_headers()) == names_after_set(self.spec_headers(), key@),
    {
        proof {
            use_type_invariant(&self);
        }
        let RequestBuilderWrapper { method, url, mut headers, body } = self;
        set_header(&mut headers, key, value);
        RequestBuilderWrapper { method, url, headers, body }
    }

    /// The request with the given body.
    pub fn body(self, body: String) -> (r: Self)
        ensures
            r.spec_method() == self.spec_method(),
            r.spec_url() == self.spec_url(),
            r.spec_headers() == self.spec_headers(),
            r.spec_body() == Some(body@),
    {
        proof {
            use_type_invariant(&self);
        }
        let RequestBuilderWrapper { method, url, headers, body: _ } = self;
        RequestBuilderWrapper { method, url, headers, body: Some(body) }
    }

    /// The finished request, once the address is set.
    pub fn build(self) -> (r: Option<Request>)
        ensures
            r is Some <==> self.spec_url() is Some,
            r matches Some(req) ==> req.spec_method() == self.spec_method() && Some(req.spec_url())
                == self.spec_url() && req.spec_headers() == self.spec_headers()
                && req.spec_body() == self.spec_body(),
    {
        proof {
            use_type_invariant(&self);
        }
        let RequestBuilderWrapper { method, url, headers, body } = self;
        match url {
            Some(u) => Some(Request { method, url: u, headers, body }),
            None => None,
        }
    }
}

} // verus!
