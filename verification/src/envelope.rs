//! Envelopes on the wire: what a request and a response are apart from
//! their bodies.

use crate::header::{
    encode_headers, headers_encoding, headers_view, headers_wire_sized, lemma_headers_fit,
    lemma_headers_wire_sized_tail, lemma_payload_header, payload_header, read_header, Header,
    HeaderView,
};
use crate::number::{
    int32_field, int32_wire, lemma_int32_wire, payload_int32, payload_uint32, read_int32,
    read_uint32, uint32_field,
};
use crate::text::{payload_text, read_text, string_field};
use crate::wire::{
    lemma_next_field_len, lemma_next_field_varint, lemma_parse_fields_step, len_field, next_field,
    parse_fields, read_field, write_len_field, write_varint_field, Field, Payload, RawValue,
    PART_BUDGET,
};
use vstd::prelude::*;
use vstd::slice::slice_subrange;
use vstd::utf8::{encode_utf8, encode_utf8_decode_utf8, encode_utf8_valid_utf8};

verus! {

/// The HTTP methods that a call can carry.
#[derive(Clone, Copy, Debug, PartialEq, Eq, Structural)]
pub enum Method {
    Get,
    Head,
    Post,
    Put,
    Delete,
    Connect,
    Options,
    Trace,
    Patch,
}

impl Method {
    /// The number that stands for the method on the wire.
    pub open spec fn number(self) -> i32 {
        match self {
            Method::Get => 0,
            Method::Head => 1,
            Method::Post => 2,
            Method::Put => 3,
            Method::Delete => 4,
            Method::Connect => 5,
            Method::Options => 6,
            Method::Trace => 7,
            Method::Patch => 8,
        }
    }

    /// The method that a number stands for, if any.
    pub open spec fn of_number(number: i32) -> Option<Method> {
        if number == 0 {
            Some(Method::Get)
        } else if number == 1 {
            Some(Method::Head)
        } else if number == 2 {
            Some(Method::Post)
        } else if number == 3 {
            Some(Method::Put)
        } else if number == 4 {
            Some(Method::Delete)
        } else if number == 5 {
            Some(Method::Connect)
        } else if number == 6 {
            Some(Method::Options)
        } else if number == 7 {
            Some(Method::Trace)
        } else if number == 8 {
            Some(Method::Patch)
        } else {
            None
        }
    }

    /// The number that stands for the method on the wire.
    pub fn to_i32(self) -> (number: i32)
        ensures
            number == self.number(),
            Method::of_number(number) == Some(self),
    {
        match self {
            Method::Get => 0,
            Method::Head => 1,
            Method::Post => 2,
            Method::Put => 3,
            Method::Delete => 4,
            Method::Connect => 5,
            Method::Options => 6,
            Method::Trace => 7,
            Method::Patch => 8,
        }
    }

    /// The method that a number stands for; `None` for a number outside
    /// zero to eight.
    pub fn from_i32(number: i32) -> (method: Option<Method>)
        ensures
            method == Method::of_number(number),
            method is Some <==> 0 <= number <= 8,
    {
        match number {
            0 => Some(Method::Get),
            1 => Some(Method::Head),
            2 => Some(Method::Post),
            3 => Some(Method::Put),
            4 => Some(Method::Delete),
            5 => Some(Method::Connect),
            6 => Some(Method::Options),
            7 => Some(Method::Trace),
            8 => Some(Method::Patch),
            _ => None,
        }
    }
}

/// The envelope of a request: where it goes, how, and its headers.
#[derive(Clone, Debug, PartialEq, Eq, Default)]
pub struct Request {
    /// Field 1.
    pub uri: String,
    /// Field 2: the number of a `Method`.
    pub method: i32,
    /// Field 3, repeated.
    pub headers: Vec<Header>,
}

impl View for Request {
    type V = RequestView;

    open spec fn view(&self) -> RequestView {
        RequestView { uri: self.uri@, method: self.method, headers: headers_view(self.headers@) }
    }
}

impl Request {
    /// The envelope with nothing in it.
    pub fn empty() -> (request: Request)
        ensures
            request@ == RequestView::empty(),
    {
        let request = Request { uri: String::new(), method: 0, headers: Vec::new() };
        proof {
            assert(request@.headers =~= Seq::empty());
        }
        request
    }

    /// Appends the envelope's wire form to `out`.
    pub fn encode_into(&self, out: &mut Vec<u8>)
        ensures
            final(out)@ == old(out)@ + self@.encoding(),
    {
        if !self.uri.as_str().is_empty() {
            write_len_field(1, self.uri.as_str().as_bytes(), out);
        }
        if self.method != 0 {
            let wire: u64 = if self.method >= 0 {
                self.method as u64
            } else {
                (self.method as i128 + 0x1_0000_0000_0000_0000i128) as u64
            };
            write_varint_field(2, wire, out);
        }
        encode_headers(3, &self.headers, out);
        proof {
            assert(out@ =~= old(out)@ + self@.encoding());
        }
    }

    /// Reads the fields in `buf` onto this envelope.
    pub fn merge_from(self, buf: &[u8]) -> (r: Option<Request>)
        ensures
            match r {
                Some(request) => self@.parse_onto(buf@) == Some(request@),
                None => self@.parse_onto(buf@).is_none(),
            },
    {
        let mut acc = self;
        let mut rest = buf;
        while rest.len() > 0
            invariant
                self@.parse_onto(buf@) == acc@.parse_onto(rest@),
            decreases rest@.len(),
        {
            match read_field(rest, PART_BUDGET) {
                Some(field) => {
                    if field.number == 1 {
                        match read_text(&field.value) {
                            Some(text) => {
                                acc.uri = text;
                            },
                            None => {
                                return None;
                            },
                        }
                    } else if field.number == 2 {
                        match read_int32(&field.value) {
                            Some(method) => {
                                acc.method = method;
                            },
                            None => {
                                return None;
                            },
                        }
                    } else if field.number == 3 {
                        match read_header(&field.value) {
                            Some(header) => {
                                let ghost before = acc.headers@;
                                acc.headers.push(header);
                                proof {
                                    assert(headers_view(acc.headers@) =~= headers_view(
                                        before,
                                    ).push(header@));
                                }
                            },
                            None => {
                                return None;
                            },
                        }
                    }
                    rest = slice_subrange(rest, field.size, rest.len());
                },
                None => {
                    return None;
                },
            }
        }
        Some(acc)
    }
}

/// What a `Request` stands for.
pub ghost struct RequestView {
    pub uri: Seq<char>,
    pub method: i32,
    pub headers: Seq<HeaderView>,
}

impl RequestView {
    /// The envelope with nothing in it.
    pub open spec fn empty() -> RequestView {
        RequestView { uri: Seq::empty(), method: 0, headers: Seq::empty() }
    }

    /// The envelope on the wire.
    pub open spec fn encoding(self) -> Seq<u8> {
        string_field(1, self.uri) + int32_field(2, self.method) + headers_encoding(
            3,
            self.headers,
        )
    }

    /// Every length that is written for this envelope fits in 64 bits.
    pub open spec fn wire_sized(self) -> bool {
        encode_utf8(self.uri).len() <= u64::MAX && headers_wire_sized(self.headers)
    }

    /// What one field does to an envelope: field 1 replaces the URI, field 2
    /// the method, field 3 adds a header, any other field is stepped over.
    pub open spec fn merge(self, field: Field) -> Option<RequestView> {
        if field.number == 1 {
            match payload_text(field.payload) {
                Some(text) => Some(RequestView { uri: text, ..self }),
                None => None,
            }
        } else if field.number == 2 {
            match payload_int32(field.payload) {
                Some(method) => Some(RequestView { method, ..self }),
                None => None,
            }
        } else if field.number == 3 {
            match payload_header(field.payload) {
                Some(header) => Some(RequestView { headers: self.headers.push(header), ..self }),
                None => None,
            }
        } else {
            Some(self)
        }
    }

    /// `merge` as a value.
    pub open spec fn merger() -> spec_fn(RequestView, Field) -> Option<RequestView> {
        |r: RequestView, f: Field| r.merge(f)
    }

    /// Reads the fields in `bytes` onto this envelope.
    pub open spec fn parse_onto(self, bytes: Seq<u8>) -> Option<RequestView> {
        parse_fields(bytes, PART_BUDGET as nat, self, RequestView::merger())
    }

    /// Reads an envelope.
    pub open spec fn parse(bytes: Seq<u8>) -> Option<RequestView> {
        RequestView::empty().parse_onto(bytes)
    }

    /// This envelope laid over `under`: a part that is empty or zero here
    /// shows what `under` has, and the headers follow those of `under`.
    pub open spec fn over(self, under: RequestView) -> RequestView {
        RequestView {
            uri: if self.uri.len() == 0 {
                under.uri
            } else {
                self.uri
            },
            method: if self.method == 0 {
                under.method
            } else {
                self.method
            },
            headers: under.headers + self.headers,
        }
    }

    /// Reading written headers adds them, in order.
    pub proof fn lemma_parse_headers(self, headers: Seq<HeaderView>)
        requires
            headers_wire_sized(headers),
        ensures
            self.parse_onto(headers_encoding(3, headers)) == Some(
                RequestView { headers: self.headers + headers, ..self },
            ),
        decreases headers.len(),
    {
        let budget = PART_BUDGET as nat;
        if headers.len() == 0 {
            assert(self.headers + headers =~= self.headers);
        } else {
            let first = headers[0];
            let tail = headers.drop_first();
            let rest = headers_encoding(3, tail);
            let bytes = len_field(3, first.encoding());
            lemma_headers_wire_sized_tail(headers);
            lemma_payload_header(first);
            lemma_next_field_len(3, first.encoding(), rest, budget);
            let field = next_field(bytes + rest, budget).unwrap();
            lemma_parse_fields_step(bytes, rest, budget, self, RequestView::merger(), field);
            let next = RequestView { headers: self.headers.push(first), ..self };
            next.lemma_parse_headers(tail);
            assert(next.headers + tail =~= self.headers + headers);
        }
    }

    /// An envelope whose wire form fits in 64 bits has every length in it
    /// fit.
    pub proof fn lemma_fits(self)
        requires
            self.encoding().len() <= u64::MAX,
        ensures
            self.wire_sized(),
    {
        lemma_headers_fit(3, self.headers);
    }

    /// Reading a written envelope onto another lays it over that one.
    pub proof fn lemma_parse_encoding(self, under: RequestView)
        requires
            self.wire_sized(),
        ensures
            under.parse_onto(self.encoding()) == Some(self.over(under)),
    {
        broadcast use encode_utf8_decode_utf8, encode_utf8_valid_utf8;

        let budget = PART_BUDGET as nat;
        let merge = RequestView::merger();
        let third = headers_encoding(3, self.headers);
        let second = int32_field(2, self.method);
        let first = string_field(1, self.uri);
        let with_uri = RequestView { uri: self.over(under).uri, ..under };
        let with_method = RequestView { method: self.over(under).method, ..with_uri };
        with_method.lemma_parse_headers(self.headers);
        assert(with_uri.parse_onto(second + third) == Some(self.over(under))) by {
            if self.method != 0 {
                lemma_int32_wire(self.method);
                lemma_next_field_varint(2, int32_wire(self.method), third, budget);
                let field = next_field(second + third, budget).unwrap();
                lemma_parse_fields_step(second, third, budget, with_uri, merge, field);
            } else {
                assert(second + third =~= third);
            }
        }
        if self.uri.len() > 0 {
            lemma_next_field_len(1, encode_utf8(self.uri), second + third, budget);
            let field = next_field(first + (second + third), budget).unwrap();
            lemma_parse_fields_step(first, second + third, budget, under, merge, field);
            assert(self.encoding() =~= first + (second + third));
        } else {
            assert(self.encoding() =~= second + third);
        }
    }
}

/// The view of a request envelope that may be absent.
pub open spec fn request_view(request: Option<Request>) -> Option<RequestView> {
    match request {
        Some(r) => Some(r@),
        None => None,
    }
}

/// The request that a field carries, read onto the one that is there already.
pub open spec fn payload_request(payload: Payload, under: Option<RequestView>) -> Option<
    RequestView,
> {
    match payload {
        Payload::Bytes(bytes) => (match under {
            Some(r) => r,
            None => RequestView::empty(),
        }).parse_onto(bytes),
        _ => None,
    }
}

/// A written request envelope, read where there was none, is itself.
pub proof fn lemma_payload_request(request: RequestView)
    requires
        request.wire_sized(),
    ensures
        payload_request(Payload::Bytes(request.encoding()), None) == Some(request),
{
    request.lemma_parse_encoding(RequestView::empty());
    let read = request.over(RequestView::empty());
    assert(read.headers =~= request.headers);
    assert(read.uri =~= request.uri);
    assert(read =~= request);
}

/// Takes the request envelope out of a field's value, reading it onto `under`.
pub fn read_request(value: &RawValue<'_>, under: Option<Request>) -> (request: Option<Request>)
    ensures
        match request {
            Some(r) => payload_request(value@, request_view(under)) == Some(r@),
            None => payload_request(value@, request_view(under)).is_none(),
        },
{
    match value {
        RawValue::Bytes(bytes) => {
            let base = match under {
                Some(r) => r,
                None => Request::empty(),
            };
            base.merge_from(bytes)
        },
        _ => None,
    }
}

/// The envelope of a response: its status and its headers.
#[derive(Clone, Debug, PartialEq, Eq, Default)]
pub struct Response {
    /// Field 1.
    pub status: u32,
    /// Field 2, repeated.
    pub headers: Vec<Header>,
}

impl View for Response {
    type V = ResponseView;

    open spec fn view(&self) -> ResponseView {
        ResponseView { status: self.status, headers: headers_view(self.headers@) }
    }
}

impl Response {
    /// The envelope with nothing in it.
    pub fn empty() -> (response: Response)
        ensures
            response@ == ResponseView::empty(),
    {
        let response = Response { status: 0, headers: Vec::new() };
        proof {
            assert(response@.headers =~= Seq::empty());
        }
        response
    }

    /// Appends the envelope's wire form to `out`.
    pub fn encode_into(&self, out: &mut Vec<u8>)
        ensures
            final(out)@ == old(out)@ + self@.encoding(),
    {
        if self.status != 0 {
            write_varint_field(1, self.status as u64, out);
        }
        encode_headers(2, &self.headers, out);
        proof {
            assert(out@ =~= old(out)@ + self@.encoding());
        }
    }

    /// Reads the fields in `buf` onto this envelope.
    pub fn merge_from(self, buf: &[u8]) -> (r: Option<Response>)
        ensures
            match r {
                Some(response) => self@.parse_onto(buf@) == Some(response@),
                None => self@.parse_onto(buf@).is_none(),
            },
    {
        let mut acc = self;
        let mut rest = buf;
        while rest.len() > 0
            invariant
                self@.parse_onto(buf@) == acc@.parse_onto(rest@),
            decreases rest@.len(),
        {
            match read_field(rest, PART_BUDGET) {
                Some(field) => {
                    if field.number == 1 {
                        match read_uint32(&field.value) {
                            Some(status) => {
                                acc.status = status;
                            },
                            None => {
                                return None;
                            },
                        }
                    } else if field.number == 2 {
                        match read_header(&field.value) {
                            Some(header) => {
                                let ghost before = acc.headers@;
                                acc.headers.push(header);
                                proof {
                                    assert(headers_view(acc.headers@) =~= headers_view(
                                        before,
                                    ).push(header@));
                                }
                            },
                            None => {
                                return None;
                            },
                        }
                    }
                    rest = slice_subrange(rest, field.size, rest.len());
                },
                None => {
                    return None;
                },
            }
        }
        Some(acc)
    }
}

/// What a `Response` stands for.
pub ghost struct ResponseView {
    pub status: u32,
    pub headers: Seq<HeaderView>,
}

impl ResponseView {
    /// The envelope with nothing in it.
    pub open spec fn empty() -> ResponseView {
        ResponseView { status: 0, headers: Seq::empty() }
    }

    /// The envelope on the wire.
    pub open spec fn encoding(self) -> Seq<u8> {
        uint32_field(1, self.status) + headers_encoding(2, self.headers)
    }

    /// Every length that is written for this envelope fits in 64 bits.
    pub open spec fn wire_sized(self) -> bool {
        headers_wire_sized(self.headers)
    }

    /// What one field does to an envelope: field 1 replaces the status,
    /// field 2 adds a header, any other field is stepped over.
    pub open spec fn merge(self, field: Field) -> Option<ResponseView> {
        if field.number == 1 {
            match payload_uint32(field.payload) {
                Some(status) => Some(ResponseView { status, ..self }),
                None => None,
            }
        } else if field.number == 2 {
            match payload_header(field.payload) {
                Some(header) => Some(ResponseView { headers: self.headers.push(header), ..self }),
                None => None,
            }
        } else {
            Some(self)
        }
    }

    /// `merge` as a value.
    pub open spec fn merger() -> spec_fn(ResponseView, Field) -> Option<ResponseView> {
        |r: ResponseView, f: Field| r.merge(f)
    }

    /// Reads the fields in `bytes` onto this envelope.
    pub open spec fn parse_onto(self, bytes: Seq<u8>) -> Option<ResponseView> {
        parse_fields(bytes, PART_BUDGET as nat, self, ResponseView::merger())
    }

    /// Reads an envelope.
    pub open spec fn parse(bytes: Seq<u8>) -> Option<ResponseView> {
        ResponseView::empty().parse_onto(bytes)
    }

    /// This envelope laid over `under`: a status that is zero here shows
    /// what `under` has, and the headers follow those of `under`.
    pub open spec fn over(self, under: ResponseView) -> ResponseView {
        ResponseView {
            status: if self.status == 0 {
                under.status
            } else {
                self.status
            },
            headers: under.headers + self.headers,
        }
    }

    /// Reading written headers adds them, in order.
    pub proof fn lemma_parse_headers(self, headers: Seq<HeaderView>)
        requires
            headers_wire_sized(headers),
        ensures
            self.parse_onto(headers_encoding(2, headers)) == Some(
                ResponseView { headers: self.headers + headers, ..self },
            ),
        decreases headers.len(),
    {
        let budget = PART_BUDGET as nat;
        if headers.len() == 0 {
            assert(self.headers + headers =~= self.headers);
        } else {
            let first = headers[0];
            let tail = headers.drop_first();
            let rest = headers_encoding(2, tail);
            let bytes = len_field(2, first.encoding());
            lemma_headers_wire_sized_tail(headers);
            lemma_payload_header(first);
            lemma_next_field_len(2, first.encoding(), rest, budget);
            let field = next_field(bytes + rest, budget).unwrap();
            lemma_parse_fields_step(bytes, rest, budget, self, ResponseView::merger(), field);
            let next = ResponseView { headers: self.headers.push(first), ..self };
            next.lemma_parse_headers(tail);
            assert(next.headers + tail =~= self.headers + headers);
        }
    }

    /// An envelope whose wire form fits in 64 bits has every length in it
    /// fit.
    pub proof fn lemma_fits(self)
        requires
            self.encoding().len() <= u64::MAX,
        ensures
            self.wire_sized(),
    {
        lemma_headers_fit(2, self.headers);
    }

    /// Reading a written envelope onto another lays it over that one.
    pub proof fn lemma_parse_encoding(self, under: ResponseView)
        requires
            self.wire_sized(),
        ensures
            under.parse_onto(self.encoding()) == Some(self.over(under)),
    {
        let budget = PART_BUDGET as nat;
        let rest = headers_encoding(2, self.headers);
        let first = uint32_field(1, self.status);
        let with_status = ResponseView { status: self.over(under).status, ..under };
        with_status.lemma_parse_headers(self.headers);
        if self.status != 0 {
            lemma_next_field_varint(1, self.status as u64, rest, budget);
            let field = next_field(first + rest, budget).unwrap();
            lemma_parse_fields_step(first, rest, budget, under, ResponseView::merger(), field);
        } else {
            assert(self.encoding() =~= rest);
        }
    }
}

/// The view of a response envelope that may be absent.
pub open spec fn response_view(response: Option<Response>) -> Option<ResponseView> {
    match response {
        Some(r) => Some(r@),
        None => None,
    }
}

/// The response that a field carries, read onto the one that is there already.
pub open spec fn payload_response(payload: Payload, under: Option<ResponseView>) -> Option<
    ResponseView,
> {
    match payload {
        Payload::Bytes(bytes) => (match under {
            Some(r) => r,
            None => ResponseView::empty(),
        }).parse_onto(bytes),
        _ => None,
    }
}

/// A written response envelope, read where there was none, is itself.
pub proof fn lemma_payload_response(response: ResponseView)
    requires
        response.wire_sized(),
    ensures
        payload_response(Payload::Bytes(response.encoding()), None) == Some(response),
{
    response.lemma_parse_encoding(ResponseView::empty());
    let read = response.over(ResponseView::empty());
    assert(read.headers =~= response.headers);
    assert(read =~= response);
}

/// Takes the response envelope out of a field's value, reading it onto `under`.
pub fn read_response(value: &RawValue<'_>, under: Option<Response>) -> (response: Option<Response>)
    ensures
        match response {
            Some(r) => payload_response(value@, response_view(under)) == Some(r@),
            None => payload_response(value@, response_view(under)).is_none(),
        },
{
    match value {
        RawValue::Bytes(bytes) => {
            let base = match under {
                Some(r) => r,
                None => Response::empty(),
            };
            base.merge_from(bytes)
        },
        _ => None,
    }
}

} // verus!
