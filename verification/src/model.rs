//! Plain models of HTTP requests and responses.
//!
//! The gRPC stack speaks in HTTP requests and responses whose bodies have
//! been read to their end. These types hold what the tunnel reads of them:
//! the method as text, the URI as text, headers in order, and the body's bytes
//! with the trailers that followed them.

use vstd::prelude::*;

verus! {

/// One HTTP header: a name and the bytes of its value.
#[derive(Clone, Debug, PartialEq, Eq, Default)]
pub struct HttpHeader {
    pub name: String,
    pub value: Vec<u8>,
}

/// What an `HttpHeader` stands for.
pub ghost struct HttpHeaderView {
    pub name: Seq<char>,
    pub value: Seq<u8>,
}

impl View for HttpHeader {
    type V = HttpHeaderView;

    open spec fn view(&self) -> HttpHeaderView {
        HttpHeaderView { name: self.name@, value: self.value@ }
    }
}

impl HttpHeader {
    /// A header from its two parts.
    pub fn new(name: String, value: Vec<u8>) -> (header: HttpHeader)
        ensures
            header.name == name,
            header.value == value,
    {
        HttpHeader { name, value }
    }
}

/// The views of a list of headers, in order.
pub open spec fn http_headers_view(headers: Seq<HttpHeader>) -> Seq<HttpHeaderView> {
    headers.map_values(|h: HttpHeader| h@)
}

/// A body that was read to its end: its bytes, and the trailers after them.
#[derive(Clone, Debug, PartialEq, Eq, Default)]
pub struct HttpBody {
    pub data: Vec<u8>,
    pub trailers: Vec<HttpHeader>,
}

/// What an `HttpBody` stands for.
pub ghost struct HttpBodyView {
    pub data: Seq<u8>,
    pub trailers: Seq<HttpHeaderView>,
}

impl View for HttpBody {
    type V = HttpBodyView;

    open spec fn view(&self) -> HttpBodyView {
        HttpBodyView { data: self.data@, trailers: http_headers_view(self.trailers@) }
    }
}

/// The view of a body that may be absent.
pub open spec fn http_body_view(body: Option<HttpBody>) -> Option<HttpBodyView> {
    match body {
        Some(b) => Some(b@),
        None => None,
    }
}

/// What reading a body gave, as a body or as none: no body where neither a
/// data frame nor trailers came; otherwise a body with what came, and
/// nothing in place of what did not.
pub open spec fn body_of_parts(
    data: Option<Seq<u8>>,
    trailers: Option<Seq<HttpHeaderView>>,
) -> Option<HttpBodyView> {
    match (data, trailers) {
        (None, None) => None,
        (Some(d), None) => Some(HttpBodyView { data: d, trailers: Seq::empty() }),
        (None, Some(t)) => Some(HttpBodyView { data: Seq::empty(), trailers: t }),
        (Some(d), Some(t)) => Some(HttpBodyView { data: d, trailers: t }),
    }
}

/// The bytes of a list of chunks, one after the other.
pub open spec fn joined(chunks: Seq<Seq<u8>>) -> Seq<u8>
    decreases chunks.len(),
{
    if chunks.len() == 0 {
        Seq::empty()
    } else {
        joined(chunks.drop_last()) + chunks.last()
    }
}

/// The views of a list of chunks, in order.
pub open spec fn chunks_view(chunks: Seq<Vec<u8>>) -> Seq<Seq<u8>> {
    chunks.map_values(|c: Vec<u8>| c@)
}

impl HttpBody {
    /// Puts together what reading a body gave: the data, if a data frame
    /// came, and the trailers, if any came.
    pub fn from_parts(data: Option<Vec<u8>>, trailers: Option<Vec<HttpHeader>>) -> (body: Option<
        HttpBody,
    >)
        ensures
            http_body_view(body) == body_of_parts(
                match data {
                    Some(d) => Some(d@),
                    None => None,
                },
                match trailers {
                    Some(t) => Some(http_headers_view(t@)),
                    None => None,
                },
            ),
    {
        match (data, trailers) {
            (None, None) => None,
            (Some(d), None) => {
                let body = HttpBody { data: d, trailers: Vec::new() };
                proof {
                    assert(body@.trailers =~= Seq::empty());
                }
                Some(body)
            },
            (None, Some(t)) => Some(HttpBody { data: Vec::new(), trailers: t }),
            (Some(d), Some(t)) => Some(HttpBody { data: d, trailers: t }),
        }
    }

    /// Joins the data frames of a body into one buffer: `None` where no
    /// frame came, else all their bytes in order.
    pub fn join_chunks(chunks: &Vec<Vec<u8>>) -> (data: Option<Vec<u8>>)
        ensures
            chunks@.len() == 0 <==> data.is_none(),
            data is Some ==> data.unwrap()@ == joined(chunks_view(chunks@)),
    {
        if chunks.len() == 0 {
            return None;
        }
        let mut out: Vec<u8> = Vec::new();
        let mut i: usize = 0;
        let ghost all = chunks_view(chunks@);
        while i < chunks.len()
            invariant
                i <= chunks.len(),
                all == chunks_view(chunks@),
                out@ == joined(all.take(i as int)),
            decreases chunks.len() - i,
        {
            out.extend_from_slice(chunks[i].as_slice());
            proof {
                let next = all.take(i + 1);
                assert(next.drop_last() =~= all.take(i as int));
                assert(next.last() == chunks@[i as int]@);
                assert(out@ =~= joined(next.drop_last()) + next.last());
            }
            i = i + 1;
        }
        proof {
            assert(all.take(chunks.len() as int) =~= all);
        }
        Some(out)
    }
}

/// An HTTP request whose body was read to its end.
#[derive(Clone, Debug, PartialEq, Eq, Default)]
pub struct HttpRequest {
    /// The method, as HTTP writes it: `GET`, `POST`, ...
    pub method: String,
    /// The URI, as text.
    pub uri: String,
    pub headers: Vec<HttpHeader>,
    pub body: Option<HttpBody>,
}

/// What an `HttpRequest` stands for.
pub ghost struct HttpRequestView {
    pub method: Seq<char>,
    pub uri: Seq<char>,
    pub headers: Seq<HttpHeaderView>,
    pub body: Option<HttpBodyView>,
}

impl View for HttpRequest {
    type V = HttpRequestView;

    open spec fn view(&self) -> HttpRequestView {
        HttpRequestView {
            method: self.method@,
            uri: self.uri@,
            headers: http_headers_view(self.headers@),
            body: http_body_view(self.body),
        }
    }
}

/// An HTTP response whose body was read to its end.
#[derive(Clone, Debug, PartialEq, Eq, Default)]
pub struct HttpResponse {
    pub status: u16,
    pub headers: Vec<HttpHeader>,
    pub body: Option<HttpBody>,
}

/// What an `HttpResponse` stands for.
pub ghost struct HttpResponseView {
    pub status: u16,
    pub headers: Seq<HttpHeaderView>,
    pub body: Option<HttpBodyView>,
}

impl View for HttpResponse {
    type V = HttpResponseView;

    open spec fn view(&self) -> HttpResponseView {
        HttpResponseView {
            status: self.status,
            headers: http_headers_view(self.headers@),
            body: http_body_view(self.body),
        }
    }
}

} // verus!
