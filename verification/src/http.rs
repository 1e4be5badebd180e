//! The HTTP exchanges of the control point as plain values. The control
//! point says which request to send and reads the response that came back;
//! sending is left to the caller.

use crate::text::{chars_of, lower, matches_name};
use vstd::prelude::*;

verus! {

/// A request for the caller to send.
#[derive(Debug, Clone, PartialEq)]
pub struct HttpRequest {
    pub method: String,
    pub url: String,
    pub headers: Vec<(String, String)>,
    pub body: String,
}

/// The mathematical value of an [`HttpRequest`].
pub ghost struct HttpRequestView {
    pub method: Seq<char>,
    pub url: Seq<char>,
    pub headers: Seq<(Seq<char>, Seq<char>)>,
    pub body: Seq<char>,
}

impl View for HttpRequest {
    type V = HttpRequestView;

    open spec fn view(&self) -> HttpRequestView {
        HttpRequestView {
            method: self.method@,
            url: self.url@,
            headers: self.headers.deep_view(),
            body: self.body@,
        }
    }
}

/// The response that the device gave.
#[derive(Debug, Clone, PartialEq)]
pub struct HttpResponse {
    pub status: u16,
    pub headers: Vec<(String, String)>,
    pub body: String,
}

/// The mathematical value of an [`HttpResponse`].
pub ghost struct HttpResponseView {
    pub status: u16,
    pub headers: Seq<(Seq<char>, Seq<char>)>,
    pub body: Seq<char>,
}

impl View for HttpResponse {
    type V = HttpResponseView;

    open spec fn view(&self) -> HttpResponseView {
        HttpResponseView {
            status: self.status,
            headers: self.headers.deep_view(),
            body: self.body@,
        }
    }
}

/// Whether `status` reports success: the codes from 200 to 299.
pub open spec fn is_success(status: u16) -> bool {
    200 <= status <= 299
}

/// The value of the first header called `name`, read without regard to the
/// case of ASCII letters.
pub open spec fn first_header(headers: Seq<(Seq<char>, Seq<char>)>, name: Seq<char>) -> Option<
    Seq<char>,
>
    decreases headers.len(),
{
    if headers.len() == 0 {
        None
    } else if lower(headers.first().0) == lower(name) {
        Some(headers.first().1)
    } else {
        first_header(headers.drop_first(), name)
    }
}

/// Makes one header.
pub fn header(name: &str, value: String) -> (h: (String, String))
    ensures
        h.deep_view() == (name@, value@),
{
    (name.to_owned(), value)
}

impl HttpResponse {
    /// Decides whether the response reports success.
    pub fn succeeded(&self) -> (b: bool)
        ensures
            b == is_success(self.status),
    {
        200 <= self.status && self.status <= 299
    }

    /// Looks up the first header called `name`, whatever the case of its
    /// ASCII letters.
    pub fn header(&self, name: &str) -> (value: Option<String>)
        ensures
            value.deep_view() == first_header(self@.headers, name@),
    {
        let wanted = chars_of(name);
        let ghost all = self.headers.deep_view();
        let mut i: usize = 0;
        assert(all.subrange(0, all.len() as int) =~= all);
        while i < self.headers.len()
            invariant
                0 <= i <= self.headers.len(),
                wanted@ == name@,
                all == self.headers.deep_view(),
                first_header(all, name@) == first_header(
                    all.subrange(i as int, all.len() as int),
                    name@,
                ),
            decreases self.headers.len() - i,
        {
            let ghost rest = all.subrange(i as int, all.len() as int);
            let key = chars_of(self.headers[i].0.as_str());
            assert(key@.subrange(0, key.len() as int) =~= key@);
            if matches_name(&key, 0, key.len(), &wanted) {
                return Some(self.headers[i].1.clone());
            }
            assert(rest.drop_first() =~= all.subrange(i + 1, all.len() as int));
            i += 1;
        }
        None
    }
}

} // verus!
