//! Between HTTP and the framing messages.
//!
//! Outbound, a request becomes a `Call` and a response a `Reply`; inbound,
//! the other way round. Outbound the only things that can fail are a method
//! that the wire has no number for and a header value that is not visible
//! ASCII; inbound every part is checked against what the `http` crate
//! accepts.

use crate::body::{body_view, Body, BodyView};
use crate::envelope::{Method, Request, RequestView, Response, ResponseView};
use crate::error::WebTonicError;
use crate::header::{headers_view, Header, HeaderView};
use crate::message::{Call, CallView, Reply, ReplyView};
use crate::model::{
    http_body_view, http_headers_view, HttpBody, HttpBodyView, HttpHeader, HttpHeaderView,
    HttpRequest, HttpRequestView, HttpResponse, HttpResponseView,
};
use crate::validate::{
    bytes_text, header_name_accepted, header_name_from_bytes, header_name_text,
    header_value_accepted, header_value_from_str, header_value_to_str, header_value_visible,
    status_accepted, status_code_accepted, uri_path, uri_path_of,
};
use vstd::prelude::*;
use vstd::string::StringExecFns;
use vstd::utf8::{encode_utf8, is_ascii_chars, is_ascii_chars_encode_utf8};

verus! {

/// The name of a method, as HTTP writes it.
pub open spec fn method_name(method: Method) -> Seq<char> {
    match method {
        Method::Get => "GET"@,
        Method::Head => "HEAD"@,
        Method::Post => "POST"@,
        Method::Put => "PUT"@,
        Method::Delete => "DELETE"@,
        Method::Connect => "CONNECT"@,
        Method::Options => "OPTIONS"@,
        Method::Trace => "TRACE"@,
        Method::Patch => "PATCH"@,
    }
}

/// The method that a name stands for, if it is one of the nine.
pub open spec fn method_of_name(name: Seq<char>) -> Option<Method> {
    if name == "GET"@ {
        Some(Method::Get)
    } else if name == "HEAD"@ {
        Some(Method::Head)
    } else if name == "POST"@ {
        Some(Method::Post)
    } else if name == "PUT"@ {
        Some(Method::Put)
    } else if name == "DELETE"@ {
        Some(Method::Delete)
    } else if name == "CONNECT"@ {
        Some(Method::Connect)
    } else if name == "OPTIONS"@ {
        Some(Method::Options)
    } else if name == "TRACE"@ {
        Some(Method::Trace)
    } else if name == "PATCH"@ {
        Some(Method::Patch)
    } else {
        None
    }
}

/// The nine names are nine different texts.
pub proof fn lemma_method_names_differ(method: Method)
    ensures
        method_of_name(method_name(method)) == Some(method),
{
    reveal_strlit("GET");
    reveal_strlit("HEAD");
    reveal_strlit("POST");
    reveal_strlit("PUT");
    reveal_strlit("DELETE");
    reveal_strlit("CONNECT");
    reveal_strlit("OPTIONS");
    reveal_strlit("TRACE");
    reveal_strlit("PATCH");
    let name = method_name(method);
    match method {
        Method::Get => {
            assert(name.len() == 3 && name[0] == 'G');
        },
        Method::Head => {
            assert(name.len() == 4 && name[0] == 'H');
        },
        Method::Post => {
            assert(name.len() == 4 && name[0] == 'P');
        },
        Method::Put => {
            assert(name.len() == 3 && name[0] == 'P');
        },
        Method::Delete => {
            assert(name.len() == 6);
        },
        Method::Connect => {
            assert(name.len() == 7 && name[0] == 'C');
        },
        Method::Options => {
            assert(name.len() == 7 && name[0] == 'O');
        },
        Method::Trace => {
            assert(name.len() == 5 && name[0] == 'T');
        },
        Method::Patch => {
            assert(name.len() == 5 && name[0] == 'P');
        },
    }
}

/// The method that the text of an HTTP method stands for; `None` for a
/// method outside the nine that a call can carry.
pub fn http_method_to_method(method: &String) -> (r: Option<Method>)
    ensures
        r == method_of_name(method@),
{
    if *method == String::from_str("GET") {
        Some(Method::Get)
    } else if *method == String::from_str("HEAD") {
        Some(Method::Head)
    } else if *method == String::from_str("POST") {
        Some(Method::Post)
    } else if *method == String::from_str("PUT") {
        Some(Method::Put)
    } else if *method == String::from_str("DELETE") {
        Some(Method::Delete)
    } else if *method == String::from_str("CONNECT") {
        Some(Method::Connect)
    } else if *method == String::from_str("OPTIONS") {
        Some(Method::Options)
    } else if *method == String::from_str("TRACE") {
        Some(Method::Trace)
    } else if *method == String::from_str("PATCH") {
        Some(Method::Patch)
    } else {
        None
    }
}

/// The text of a method, as HTTP writes it.
pub fn method_to_http_method(method: Method) -> (name: String)
    ensures
        name@ == method_name(method),
{
    match method {
        Method::Get => String::from_str("GET"),
        Method::Head => String::from_str("HEAD"),
        Method::Post => String::from_str("POST"),
        Method::Put => String::from_str("PUT"),
        Method::Delete => String::from_str("DELETE"),
        Method::Connect => String::from_str("CONNECT"),
        Method::Options => String::from_str("OPTIONS"),
        Method::Trace => String::from_str("TRACE"),
        Method::Patch => String::from_str("PATCH"),
    }
}

/// An HTTP header as it is framed: the name as it is, the value as text.
pub open spec fn header_to_wire(header: HttpHeaderView) -> HeaderView {
    HeaderView { name: header.name, value: bytes_text(header.value) }
}

/// HTTP headers as they are framed, in order; `None` where a value is not
/// visible ASCII.
pub open spec fn headers_to_wire(headers: Seq<HttpHeaderView>) -> Option<Seq<HeaderView>> {
    if forall|i: int|
        0 <= i < headers.len() ==> header_value_visible((#[trigger] headers[i]).value) {
        Some(headers.map_values(|h: HttpHeaderView| header_to_wire(h)))
    } else {
        None
    }
}

/// A framed header as HTTP has it; `None` where the name or the value is
/// not accepted. The name is read as `header_name_text` has it, so an
/// upper-case letter comes out in lower case.
pub open spec fn header_from_wire(header: HeaderView) -> Option<HttpHeaderView> {
    let name = encode_utf8(header.name);
    let value = encode_utf8(header.value);
    if header_name_accepted(name) && header_value_accepted(value) {
        Some(HttpHeaderView { name: header_name_text(name), value })
    } else {
        None
    }
}

/// Framed headers as HTTP has them, in order; `None` where one of them is
/// not accepted.
pub open spec fn headers_from_wire(headers: Seq<HeaderView>) -> Option<Seq<HttpHeaderView>> {
    if forall|i: int| 0 <= i < headers.len() ==> header_from_wire(#[trigger] headers[i]).is_some() {
        Some(headers.map_values(|h: HeaderView| header_from_wire(h).unwrap()))
    } else {
        None
    }
}

/// An HTTP body as it is framed; the outer `None` where a trailer's value
/// is not visible ASCII, the inner one where there is no body.
pub open spec fn body_to_wire(body: Option<HttpBodyView>) -> Option<Option<BodyView>> {
    match body {
        Some(b) => match headers_to_wire(b.trailers) {
            Some(trailers) => Some(Some(BodyView { body: b.data, trailers })),
            None => None,
        },
        None => Some(None),
    }
}

/// A framed body as HTTP has it; the outer `None` where a trailer is not
/// accepted, the inner one where there is no body.
pub open spec fn body_from_wire(body: Option<BodyView>) -> Option<Option<HttpBodyView>> {
    match body {
        Some(b) => match headers_from_wire(b.trailers) {
            Some(trailers) => Some(Some(HttpBodyView { data: b.body, trailers })),
            None => None,
        },
        None => Some(None),
    }
}

/// The call that carries a request; `None` where the method is not one of
/// the nine or a header or trailer value is not visible ASCII.
pub open spec fn request_to_call(request: HttpRequestView) -> Option<CallView> {
    match (
        method_of_name(request.method),
        headers_to_wire(request.headers),
        body_to_wire(request.body),
    ) {
        (Some(method), Some(headers), Some(body)) => Some(
            CallView {
                request: Some(RequestView { uri: request.uri, method: method.number(), headers }),
                body,
            },
        ),
        _ => None,
    }
}

/// The request that a call carries; `None` where the call has no envelope,
/// the method's number stands for no method, the URI is not read as one, or
/// a header or trailer is not accepted.
pub open spec fn call_to_request(call: CallView) -> Option<HttpRequestView> {
    match call.request {
        Some(envelope) => match (
            Method::of_number(envelope.method),
            uri_path_of(envelope.uri),
            headers_from_wire(envelope.headers),
            body_from_wire(call.body),
        ) {
            (Some(method), Some(_), Some(headers), Some(body)) => Some(
                HttpRequestView { method: method_name(method), uri: envelope.uri, headers, body },
            ),
            _ => None,
        },
        None => None,
    }
}

/// The reply that carries a response; `None` where a header or trailer
/// value is not visible ASCII.
pub open spec fn response_to_reply(response: HttpResponseView) -> Option<ReplyView> {
    match (headers_to_wire(response.headers), body_to_wire(response.body)) {
        (Some(headers), Some(body)) => Some(
            ReplyView {
                response: Some(ResponseView { status: response.status as u32, headers }),
                body,
            },
        ),
        _ => None,
    }
}

/// The status that a framed status stands for; `None` where it does not
/// fit the 16 bits of a status or is not accepted as one.
pub open spec fn status_of_wire(status: u32) -> Option<u16> {
    if status <= u16::MAX && status_accepted(status as u16) {
        Some(status as u16)
    } else {
        None
    }
}

/// The response that a reply carries; `None` where the reply has no
/// envelope, the status does not fit 16 bits or is not accepted, or a header
/// or trailer is not accepted.
pub open spec fn reply_to_response(reply: ReplyView) -> Option<HttpResponseView> {
    match reply.response {
        Some(envelope) => match (
            status_of_wire(envelope.status),
            headers_from_wire(envelope.headers),
            body_from_wire(reply.body),
        ) {
            (Some(status), Some(headers), Some(body)) => Some(
                HttpResponseView { status, headers, body },
            ),
            _ => None,
        },
        None => None,
    }
}

/// Frames HTTP headers, in order. Fails with `EncodingError` exactly where
/// a value is not visible ASCII.
pub fn http_headers_to_headers(headers: &Vec<HttpHeader>) -> (r: Result<Vec<Header>, WebTonicError>)
    ensures
        match r {
            Ok(framed) => headers_to_wire(http_headers_view(headers@)) == Some(
                headers_view(framed@),
            ),
            Err(e) => e == WebTonicError::EncodingError && headers_to_wire(
                http_headers_view(headers@),
            ).is_none(),
        },
{
    let ghost all = http_headers_view(headers@);
    let mut out: Vec<Header> = Vec::new();
    let mut i: usize = 0;
    while i < headers.len()
        invariant
            i <= headers.len(),
            all == http_headers_view(headers@),
            out@.len() == i,
            forall|j: int| 0 <= j < i ==> header_value_visible((#[trigger] all[j]).value),
            forall|j: int| 0 <= j < i ==> (#[trigger] out@[j])@ == header_to_wire(all[j]),
        decreases headers.len() - i,
    {
        let header = &headers[i];
        proof {
            assert(all[i as int] == header@);
        }
        match header_value_to_str(header.value.as_slice()) {
            Some(value) => {
                out.push(Header::new(header.name.clone(), value));
            },
            None => {
                return Err(WebTonicError::EncodingError);
            },
        }
        i = i + 1;
    }
    proof {
        assert(headers_view(out@) =~= all.map_values(|h: HttpHeaderView| header_to_wire(h)));
    }
    Ok(out)
}

/// Reads framed headers as HTTP headers, in order. Fails with
/// `DecodingError` exactly where a name or a value is not accepted.
pub fn headers_to_http_headers(headers: &Vec<Header>) -> (r: Result<
    Vec<HttpHeader>,
    WebTonicError,
>)
    ensures
        match r {
            Ok(read) => headers_from_wire(headers_view(headers@)) == Some(
                http_headers_view(read@),
            ),
            Err(e) => e == WebTonicError::DecodingError && headers_from_wire(
                headers_view(headers@),
            ).is_none(),
        },
{
    let ghost all = headers_view(headers@);
    let mut out: Vec<HttpHeader> = Vec::new();
    let mut i: usize = 0;
    while i < headers.len()
        invariant
            i <= headers.len(),
            all == headers_view(headers@),
            out@.len() == i,
            forall|j: int| 0 <= j < i ==> header_from_wire(#[trigger] all[j]).is_some(),
            forall|j: int| 0 <= j < i ==> Some((#[trigger] out@[j])@) == header_from_wire(all[j]),
        decreases headers.len() - i,
    {
        let header = &headers[i];
        proof {
            assert(all[i as int] == header@);
        }
        let name = header_name_from_bytes(header.name.as_str().as_bytes());
        let value = header_value_from_str(header.value.as_str());
        match (name, value) {
            (Some(name), Some(value)) => {
                out.push(HttpHeader::new(name, value));
            },
            _ => {
                return Err(WebTonicError::DecodingError);
            },
        }
        i = i + 1;
    }
    proof {
        assert(http_headers_view(out@) =~= all.map_values(
            |h: HeaderView| header_from_wire(h).unwrap(),
        ));
    }
    Ok(out)
}

/// Frames a body that was read to its end. Fails with `EncodingError`
/// exactly where a trailer's value is not visible ASCII.
pub fn http_body_to_body(body: &Option<HttpBody>) -> (r: Result<Option<Body>, WebTonicError>)
    ensures
        match r {
            Ok(framed) => body_to_wire(http_body_view(*body)) == Some(
                body_view(framed),
            ),
            Err(e) => e == WebTonicError::EncodingError && body_to_wire(
                http_body_view(*body),
            ).is_none(),
        },
{
    match body {
        Some(b) => match http_headers_to_headers(&b.trailers) {
            Ok(trailers) => Ok(Some(Body { body: b.data.clone(), trailers })),
            Err(e) => Err(e),
        },
        None => Ok(None),
    }
}

/// Reads a framed body as HTTP has it. Fails with `DecodingError` exactly
/// where a trailer is not accepted.
pub fn body_to_http_body(body: Option<Body>) -> (r: Result<Option<HttpBody>, WebTonicError>)
    ensures
        match r {
            Ok(read) => body_from_wire(body_view(body)) == Some(
                http_body_view(read),
            ),
            Err(e) => e == WebTonicError::DecodingError && body_from_wire(
                body_view(body),
            ).is_none(),
        },
{
    match body {
        Some(b) => match headers_to_http_headers(&b.trailers) {
            Ok(trailers) => Ok(Some(HttpBody { data: b.body, trailers })),
            Err(e) => Err(e),
        },
        None => Ok(None),
    }
}

/// Turns a request into the call that carries it. Fails with
/// `EncodingError` exactly where the method is not one of the nine that a
/// call can carry, or the value of a header or trailer is not visible ASCII.
pub fn http_request_to_call(request: &HttpRequest) -> (r: Result<Call, WebTonicError>)
    ensures
        match r {
            Ok(call) => request_to_call(request@) == Some(call@),
            Err(e) => e == WebTonicError::EncodingError && request_to_call(request@).is_none(),
        },
{
    let method = match http_method_to_method(&request.method) {
        Some(m) => m,
        None => {
            return Err(WebTonicError::EncodingError);
        },
    };
    let headers = match http_headers_to_headers(&request.headers) {
        Ok(h) => h,
        Err(e) => {
            return Err(e);
        },
    };
    let body = match http_body_to_body(&request.body) {
        Ok(b) => b,
        Err(e) => {
            return Err(e);
        },
    };
    Ok(
        Call {
            request: Some(Request { uri: request.uri.clone(), method: method.to_i32(), headers }),
            body,
        },
    )
}

/// Turns a call into the request that it carries. Fails with
/// `DecodingError` exactly where the call has no envelope, the method's
/// number stands for no method, the URI is not read as one, or a header or
/// trailer is not accepted.
pub fn call_to_http_request(call: Call) -> (r: Result<HttpRequest, WebTonicError>)
    ensures
        match r {
            Ok(request) => call_to_request(call@) == Some(request@),
            Err(e) => e == WebTonicError::DecodingError && call_to_request(call@).is_none(),
        },
{
    let Call { request, body } = call;
    let envelope = match request {
        Some(r) => r,
        None => {
            return Err(WebTonicError::DecodingError);
        },
    };
    let method = match Method::from_i32(envelope.method) {
        Some(m) => m,
        None => {
            return Err(WebTonicError::DecodingError);
        },
    };
    if uri_path(envelope.uri.as_str()).is_none() {
        return Err(WebTonicError::DecodingError);
    }
    let headers = match headers_to_http_headers(&envelope.headers) {
        Ok(h) => h,
        Err(e) => {
            return Err(e);
        },
    };
    let body = match body_to_http_body(body) {
        Ok(b) => b,
        Err(e) => {
            return Err(e);
        },
    };
    Ok(HttpRequest { method: method_to_http_method(method), uri: envelope.uri, headers, body })
}

/// Turns a response into the reply that carries it. Fails with
/// `EncodingError` exactly where the value of a header or trailer is not
/// visible ASCII.
pub fn http_response_to_reply(response: &HttpResponse) -> (r: Result<Reply, WebTonicError>)
    ensures
        match r {
            Ok(reply) => response_to_reply(response@) == Some(reply@),
            Err(e) => e == WebTonicError::EncodingError && response_to_reply(response@).is_none(),
        },
{
    let headers = match http_headers_to_headers(&response.headers) {
        Ok(h) => h,
        Err(e) => {
            return Err(e);
        },
    };
    let body = match http_body_to_body(&response.body) {
        Ok(b) => b,
        Err(e) => {
            return Err(e);
        },
    };
    Ok(Reply { response: Some(Response { status: response.status as u32, headers }), body })
}

/// Turns a reply into the response that it carries. Fails with
/// `DecodingError` exactly where the reply has no envelope, the status does
/// not fit 16 bits or is not an accepted status, or a header or trailer is
/// not accepted.
pub fn reply_to_http_response(reply: Reply) -> (r: Result<HttpResponse, WebTonicError>)
    ensures
        match r {
            Ok(response) => reply_to_response(reply@) == Some(response@),
            Err(e) => e == WebTonicError::DecodingError && reply_to_response(reply@).is_none(),
        },
{
    let Reply { response, body } = reply;
    let envelope = match response {
        Some(r) => r,
        None => {
            return Err(WebTonicError::DecodingError);
        },
    };
    if envelope.status > 0xFFFF {
        return Err(WebTonicError::DecodingError);
    }
    let status: u16 = envelope.status as u16;
    if !status_code_accepted(status) {
        return Err(WebTonicError::DecodingError);
    }
    let headers = match headers_to_http_headers(&envelope.headers) {
        Ok(h) => h,
        Err(e) => {
            return Err(e);
        },
    };
    let body = match body_to_http_body(body) {
        Ok(b) => b,
        Err(e) => {
            return Err(e);
        },
    };
    Ok(HttpResponse { status, headers, body })
}

/// Whether a character may stand in a header name as HTTP hands names out:
/// ASCII, accepted in a name, and not an upper-case letter.
pub open spec fn is_name_char(c: char) -> bool {
    '\0' < c <= '\u{7f}' && crate::validate::header_name_byte(c as u8) == c as u8
}

/// Whether a header is one that an HTTP request or response hands out and
/// that can be framed: the name is one to 65535 name characters, the value
/// is visible ASCII.
pub open spec fn header_is_framable(header: HttpHeaderView) -> bool {
    &&& 1 <= header.name.len() <= crate::validate::MAX_HEADER_NAME_LEN
    &&& forall|i: int| 0 <= i < header.name.len() ==> is_name_char(#[trigger] header.name[i])
    &&& header_value_visible(header.value)
}

/// Whether every header of a list is framable.
pub open spec fn headers_are_framable(headers: Seq<HttpHeaderView>) -> bool {
    forall|i: int| 0 <= i < headers.len() ==> header_is_framable(#[trigger] headers[i])
}

/// Whether a body's trailers, if there is a body, are framable.
pub open spec fn body_is_framable(body: Option<HttpBodyView>) -> bool {
    match body {
        Some(b) => headers_are_framable(b.trailers),
        None => true,
    }
}

/// Whether a request can be framed and read back: its method is one of the
/// nine, its URI is read as one, its headers and trailers are framable.
pub open spec fn request_is_framable(request: HttpRequestView) -> bool {
    &&& method_of_name(request.method).is_some()
    &&& uri_path_of(request.uri).is_some()
    &&& headers_are_framable(request.headers)
    &&& body_is_framable(request.body)
}

/// Whether a response can be framed and read back: its status has three
/// digits, its headers and trailers are framable.
pub open spec fn response_is_framable(response: HttpResponseView) -> bool {
    &&& status_accepted(response.status)
    &&& headers_are_framable(response.headers)
    &&& body_is_framable(response.body)
}

/// ASCII text written as bytes has one byte for each character.
pub proof fn lemma_ascii_bytes(text: Seq<char>)
    requires
        is_ascii_chars(text),
    ensures
        encode_utf8(text) == Seq::new(text.len(), |i: int| text[i] as u8),
{
    is_ascii_chars_encode_utf8(text);
    assert(encode_utf8(text) =~= Seq::new(text.len(), |i: int| text[i] as u8));
}

/// A framable header, framed and read back, is itself.
pub proof fn lemma_header_round_trip(header: HttpHeaderView)
    requires
        header_is_framable(header),
    ensures
        header_from_wire(header_to_wire(header)) == Some(header),
{
    let framed = header_to_wire(header);
    assert forall|i: int| 0 <= i < header.name.len() implies '\0' <= #[trigger] header.name[i]
        <= '\u{7f}' by {
        assert(is_name_char(header.name[i]));
    }
    lemma_ascii_bytes(header.name);
    let name = encode_utf8(header.name);
    assert forall|i: int| 0 <= i < name.len() implies crate::validate::header_name_byte(
        #[trigger] name[i],
    ) != 0 by {
        assert(is_name_char(header.name[i]));
    }
    assert(header_name_text(name) =~= header.name);
    assert(is_ascii_chars(framed.value));
    lemma_ascii_bytes(framed.value);
    assert(encode_utf8(framed.value) =~= header.value);
}

/// Framable headers, framed and read back, are themselves, in order.
pub proof fn lemma_headers_round_trip(headers: Seq<HttpHeaderView>)
    requires
        headers_are_framable(headers),
    ensures
        headers_to_wire(headers).is_some(),
        headers_from_wire(headers_to_wire(headers).unwrap()) == Some(headers),
{
    let framed = headers.map_values(|h: HttpHeaderView| header_to_wire(h));
    assert forall|i: int| 0 <= i < headers.len() implies header_value_visible(
        (#[trigger] headers[i]).value,
    ) by {
        assert(header_is_framable(headers[i]));
    }
    assert forall|i: int| 0 <= i < framed.len() implies header_from_wire(#[trigger] framed[i])
        == Some(headers[i]) by {
        assert(header_is_framable(headers[i]));
        lemma_header_round_trip(headers[i]);
    }
    assert(framed.map_values(|h: HeaderView| header_from_wire(h).unwrap()) =~= headers);
}

/// A body with framable trailers, framed and read back, is itself.
pub proof fn lemma_body_round_trip(body: Option<HttpBodyView>)
    requires
        body_is_framable(body),
    ensures
        body_to_wire(body).is_some(),
        body_from_wire(body_to_wire(body).unwrap()) == Some(body),
{
    match body {
        Some(b) => {
            lemma_headers_round_trip(b.trailers);
        },
        None => {},
    }
}

/// Reading the call that carries a request gives the request back: for
/// every request whose method is one of the nine, whose URI is read as one,
/// and whose headers and trailers have names as HTTP hands them out and
/// values of visible ASCII. Headers and trailers keep their order.
pub proof fn lemma_request_round_trip(request: HttpRequestView)
    requires
        request_is_framable(request),
    ensures
        request_to_call(request).is_some(),
        call_to_request(request_to_call(request).unwrap()) == Some(request),
{
    lemma_headers_round_trip(request.headers);
    lemma_body_round_trip(request.body);
    let method = method_of_name(request.method).unwrap();
    assert(Method::of_number(method.number()) == Some(method));
    assert(method_name(method) == request.method);
}

/// Reading the reply that carries a response gives the response back: for
/// every response with a status of three digits whose headers and trailers
/// have names as HTTP hands them out and values of visible ASCII.
pub proof fn lemma_response_round_trip(response: HttpResponseView)
    requires
        response_is_framable(response),
    ensures
        response_to_reply(response).is_some(),
        reply_to_response(response_to_reply(response).unwrap()) == Some(response),
{
    lemma_headers_round_trip(response.headers);
    lemma_body_round_trip(response.body);
}

} // verus!
