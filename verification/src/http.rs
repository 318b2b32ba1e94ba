//! Requests that the library asks its caller to send.
use vstd::prelude::*;

verus! {

/// A GET request: its URL and its headers, in order.
pub struct HttpRequest {
    pub url: String,
    pub headers: Vec<(String, String)>,
}

pub struct SpecHttpRequest {
    pub url: Seq<char>,
    pub headers: Seq<(Seq<char>, Seq<char>)>,
}

pub open spec fn headers_view(headers: Seq<(String, String)>) -> Seq<(Seq<char>, Seq<char>)> {
    headers.map_values(|h: (String, String)| (h.0@, h.1@))
}

impl View for HttpRequest {
    type V = SpecHttpRequest;

    open spec fn view(&self) -> SpecHttpRequest {
        SpecHttpRequest { url: self.url@, headers: headers_view(self.headers@) }
    }
}

/// Appends the header `name: value`.
pub fn push_header(headers: &mut Vec<(String, String)>, name: &str, value: &str)
    ensures
        headers_view(final(headers)@) == headers_view(old(headers)@).push((name@, value@)),
{
    let ghost before = headers@;
    headers.push((name.to_owned(), value.to_owned()));
    assert(headers_view(headers@) =~= headers_view(before).push((name@, value@)));
}

} // verus!
