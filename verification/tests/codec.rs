use webtonic::codec::{
    body_to_http_body, headers_to_http_headers, http_body_to_body, http_headers_to_headers,
    http_method_to_method, method_to_http_method,
};
use webtonic::{
    call_to_http_request, http_request_to_call, http_response_to_reply, reply_to_http_response,
    Body, Call, Header, HttpBody, HttpHeader, HttpRequest, HttpResponse, Method, Reply, Request,
    Response, WebTonicError,
};

fn http_header(name: &str, value: &[u8]) -> HttpHeader {
    HttpHeader::new(name.to_string(), value.to_vec())
}

fn wire_header(name: &str, value: &str) -> Header {
    Header::new(name.to_string(), value.to_string())
}

fn greeter_request() -> HttpRequest {
    HttpRequest {
        method: "POST".to_string(),
        uri: "/helloworld.Greeter/SayHello".to_string(),
        headers: vec![
            http_header("content-type", b"application/grpc"),
            http_header("te", b"trailers"),
        ],
        body: Some(HttpBody { data: vec![0, 0, 0, 0, 10, 10, 8, 87], trailers: vec![] }),
    }
}

fn call_with(envelope: Request) -> Call {
    Call { request: Some(envelope), body: None }
}

fn envelope(uri: &str, method: i32, headers: Vec<Header>) -> Request {
    Request { uri: uri.to_string(), method, headers }
}

#[test]
fn method_names_and_back() {
    let all = [
        (Method::Get, "GET"),
        (Method::Head, "HEAD"),
        (Method::Post, "POST"),
        (Method::Put, "PUT"),
        (Method::Delete, "DELETE"),
        (Method::Connect, "CONNECT"),
        (Method::Options, "OPTIONS"),
        (Method::Trace, "TRACE"),
        (Method::Patch, "PATCH"),
    ];
    for (method, name) in all {
        assert_eq!(method_to_http_method(method), name);
        assert_eq!(http_method_to_method(&name.to_string()), Some(method));
    }
}

#[test]
fn methods_outside_the_set_have_no_number() {
    for name in ["PROPFIND", "get", "Get", "", "POST ", "GETS"] {
        assert_eq!(http_method_to_method(&name.to_string()), None, "{:?}", name);
    }
}

#[test]
fn request_becomes_call() {
    let call = http_request_to_call(&greeter_request()).unwrap();
    assert_eq!(
        call,
        Call {
            request: Some(Request {
                uri: "/helloworld.Greeter/SayHello".to_string(),
                method: 2,
                headers: vec![
                    wire_header("content-type", "application/grpc"),
                    wire_header("te", "trailers"),
                ],
            }),
            body: Some(Body { body: vec![0, 0, 0, 0, 10, 10, 8, 87], trailers: vec![] }),
        }
    );
}

#[test]
fn request_round_trip() {
    let request = greeter_request();
    let call = http_request_to_call(&request).unwrap();
    assert_eq!(call_to_http_request(call), Ok(request));
}

#[test]
fn request_round_trip_for_every_method() {
    for name in ["GET", "HEAD", "POST", "PUT", "DELETE", "CONNECT", "OPTIONS", "TRACE", "PATCH"] {
        let mut request = greeter_request();
        request.method = name.to_string();
        let call = http_request_to_call(&request).unwrap();
        assert_eq!(call_to_http_request(call), Ok(request));
    }
}

#[test]
fn headers_of_one_name_keep_their_order() {
    let mut request = greeter_request();
    request.headers = vec![
        http_header("x-tag", b"one"),
        http_header("accept", b"a"),
        http_header("x-tag", b"two"),
        http_header("x-tag", b"three"),
    ];
    let call = http_request_to_call(&request).unwrap();
    let names: Vec<String> =
        call.request.clone().unwrap().headers.into_iter().map(|h| h.value).collect();
    assert_eq!(names, vec!["one", "a", "two", "three"]);
    assert_eq!(call_to_http_request(call), Ok(request));
}

#[test]
fn unknown_method_is_an_encoding_error() {
    let mut request = greeter_request();
    request.method = "PROPFIND".to_string();
    assert_eq!(http_request_to_call(&request), Err(WebTonicError::EncodingError));
}

#[test]
fn value_that_is_not_visible_ascii_is_an_encoding_error() {
    for value in [&b"caf\xc3\xa9"[..], &b"a\x7fb"[..], &b"a\nb"[..], &b"\x00"[..], &b"\xff"[..]] {
        let mut request = greeter_request();
        request.headers.push(http_header("x-bin", value));
        assert_eq!(http_request_to_call(&request), Err(WebTonicError::EncodingError));
        let response = HttpResponse {
            status: 200,
            headers: vec![http_header("x-bin", value)],
            body: None,
        };
        assert_eq!(http_response_to_reply(&response), Err(WebTonicError::EncodingError));
    }
}

#[test]
fn tab_and_space_are_visible() {
    let framed = http_headers_to_headers(&vec![http_header("x", b"a\tb c~")]).unwrap();
    assert_eq!(framed, vec![wire_header("x", "a\tb c~")]);
}

#[test]
fn trailer_value_that_is_not_visible_is_an_encoding_error() {
    let body = Some(HttpBody { data: vec![1], trailers: vec![http_header("t", b"\x01")] });
    assert_eq!(http_body_to_body(&body), Err(WebTonicError::EncodingError));
    let mut request = greeter_request();
    request.body = body;
    assert_eq!(http_request_to_call(&request), Err(WebTonicError::EncodingError));
}

#[test]
fn names_are_not_checked_on_the_way_out() {
    let framed = http_headers_to_headers(&vec![http_header("Not A Name", b"v")]).unwrap();
    assert_eq!(framed, vec![wire_header("Not A Name", "v")]);
}

#[test]
fn call_without_envelope_is_a_decoding_error() {
    let call = Call { request: None, body: Some(Body::empty()) };
    assert_eq!(call_to_http_request(call), Err(WebTonicError::DecodingError));
    assert_eq!(call_to_http_request(Call::default()), Err(WebTonicError::DecodingError));
}

#[test]
fn method_number_outside_the_set_is_a_decoding_error() {
    for number in [9, 100, -1, i32::MAX, i32::MIN] {
        let call = call_with(envelope("/a/b", number, vec![]));
        assert_eq!(call_to_http_request(call), Err(WebTonicError::DecodingError));
    }
}

#[test]
fn uri_that_is_none_is_a_decoding_error() {
    for uri in ["", "/a b", "http://", "/\u{7f}", "a b"] {
        let call = call_with(envelope(uri, 2, vec![]));
        assert_eq!(call_to_http_request(call), Err(WebTonicError::DecodingError), "{:?}", uri);
    }
}

#[test]
fn uris_that_are_accepted_stay_as_they_are() {
    for uri in ["/", "*", "/a/b?c=d", "http://example.org/x/y", "example.org:443"] {
        let call = call_with(envelope(uri, 0, vec![]));
        let request = call_to_http_request(call).unwrap();
        assert_eq!(request.uri, uri);
        assert_eq!(request.method, "GET");
    }
}

#[test]
fn header_name_is_read_in_lower_case() {
    let call = call_with(envelope("/", 2, vec![wire_header("Content-Type", "x")]));
    let request = call_to_http_request(call).unwrap();
    assert_eq!(request.headers, vec![http_header("content-type", b"x")]);
}

#[test]
fn header_name_bytes_are_accepted_as_the_rule_says() {
    for byte in 0u8..=127 {
        let accepted_unchanged =
            matches!(byte, 33..=39 | 42 | 43 | 45 | 46 | 48..=57 | 94..=122 | 124 | 126);
        let upper = (65..=90).contains(&byte);
        let name = String::from_utf8(vec![b'x', byte]).unwrap();
        let read = headers_to_http_headers(&vec![wire_header(&name, "v")]);
        if accepted_unchanged {
            assert_eq!(read, Ok(vec![http_header(&name, b"v")]), "byte {}", byte);
        } else if upper {
            let lower = String::from_utf8(vec![b'x', byte + 32]).unwrap();
            assert_eq!(read, Ok(vec![http_header(&lower, b"v")]), "byte {}", byte);
        } else {
            assert_eq!(read, Err(WebTonicError::DecodingError), "byte {}", byte);
        }
    }
}

#[test]
fn header_name_outside_ascii_is_a_decoding_error() {
    for name in ["caf\u{e9}", "\u{80}", "x\u{1f600}"] {
        let read = headers_to_http_headers(&vec![wire_header(name, "v")]);
        assert_eq!(read, Err(WebTonicError::DecodingError));
    }
}

#[test]
fn header_name_length_limits() {
    assert_eq!(
        headers_to_http_headers(&vec![wire_header("", "v")]),
        Err(WebTonicError::DecodingError)
    );
    let longest = "a".repeat(65_535);
    assert_eq!(
        headers_to_http_headers(&vec![wire_header(&longest, "v")]),
        Ok(vec![http_header(&longest, b"v")])
    );
    let too_long = "a".repeat(65_536);
    assert_eq!(
        headers_to_http_headers(&vec![wire_header(&too_long, "v")]),
        Err(WebTonicError::DecodingError)
    );
    let mixed = "Ab".repeat(100);
    assert_eq!(
        headers_to_http_headers(&vec![wire_header(&mixed, "v")]),
        Ok(vec![http_header(&"ab".repeat(100), b"v")])
    );
    let bad_long = format!("{}{}", "a".repeat(100), " ");
    assert_eq!(
        headers_to_http_headers(&vec![wire_header(&bad_long, "v")]),
        Err(WebTonicError::DecodingError)
    );
}

#[test]
fn header_value_bytes_are_accepted_as_the_rule_says() {
    for byte in 0u8..=127 {
        let accepted = (byte >= 32 && byte != 127) || byte == 9;
        let value = String::from_utf8(vec![b'a', byte]).unwrap();
        let read = headers_to_http_headers(&vec![wire_header("x", &value)]);
        if accepted {
            assert_eq!(read, Ok(vec![http_header("x", value.as_bytes())]), "byte {}", byte);
        } else {
            assert_eq!(read, Err(WebTonicError::DecodingError), "byte {}", byte);
        }
        let visible = (32..127).contains(&byte) || byte == 9;
        let framed = http_headers_to_headers(&vec![http_header("x", &[b'a', byte])]);
        if visible {
            assert_eq!(framed, Ok(vec![wire_header("x", &value)]), "byte {}", byte);
        } else {
            assert_eq!(framed, Err(WebTonicError::EncodingError), "byte {}", byte);
        }
    }
}

#[test]
fn every_byte_of_a_value_is_visible_or_not_as_the_rule_says() {
    for byte in 0u8..=255 {
        let visible = (32..127).contains(&byte) || byte == 9;
        let framed = http_headers_to_headers(&vec![http_header("x", &[byte])]);
        assert_eq!(framed.is_ok(), visible, "byte {}", byte);
        if visible {
            assert_eq!(framed.unwrap()[0].value, (byte as char).to_string());
        }
    }
}

#[test]
fn header_value_outside_ascii_is_read_as_its_bytes() {
    let read = headers_to_http_headers(&vec![wire_header("x", "caf\u{e9}")]).unwrap();
    assert_eq!(read, vec![http_header("x", b"caf\xc3\xa9")]);
}

#[test]
fn empty_header_value_is_accepted() {
    let read = headers_to_http_headers(&vec![wire_header("x", "")]).unwrap();
    assert_eq!(read, vec![http_header("x", b"")]);
    let framed = http_headers_to_headers(&vec![http_header("x", b"")]).unwrap();
    assert_eq!(framed, vec![wire_header("x", "")]);
}

#[test]
fn trailer_that_is_not_accepted_is_a_decoding_error() {
    let body = Some(Body { body: vec![], trailers: vec![wire_header("bad name", "v")] });
    assert_eq!(body_to_http_body(body.clone()), Err(WebTonicError::DecodingError));
    let call = Call { request: Some(envelope("/", 2, vec![])), body };
    assert_eq!(call_to_http_request(call), Err(WebTonicError::DecodingError));
}

#[test]
fn absent_body_stays_absent() {
    let call = call_with(envelope("/", 2, vec![]));
    assert_eq!(call_to_http_request(call).unwrap().body, None);
    assert_eq!(http_body_to_body(&None), Ok(None));
    assert_eq!(body_to_http_body(None), Ok(None));
}

#[test]
fn empty_body_stays_a_body() {
    let call = Call { request: Some(envelope("/", 2, vec![])), body: Some(Body::empty()) };
    let request = call_to_http_request(call).unwrap();
    assert_eq!(request.body, Some(HttpBody::default()));
    assert_eq!(
        http_request_to_call(&request).unwrap().body,
        Some(Body { body: vec![], trailers: vec![] })
    );
}

#[test]
fn response_becomes_reply() {
    let response = HttpResponse {
        status: 200,
        headers: vec![http_header("content-type", b"application/grpc")],
        body: Some(HttpBody {
            data: vec![0, 0, 0, 0, 2, 10, 0],
            trailers: vec![http_header("grpc-status", b"0")],
        }),
    };
    let reply = http_response_to_reply(&response).unwrap();
    assert_eq!(
        reply,
        Reply {
            response: Some(Response {
                status: 200,
                headers: vec![wire_header("content-type", "application/grpc")],
            }),
            body: Some(Body {
                body: vec![0, 0, 0, 0, 2, 10, 0],
                trailers: vec![wire_header("grpc-status", "0")],
            }),
        }
    );
    assert_eq!(reply_to_http_response(reply), Ok(response));
}

#[test]
fn response_round_trip_for_statuses() {
    for status in [100u16, 101, 200, 204, 404, 500, 599, 600, 999] {
        let response = HttpResponse { status, headers: vec![], body: None };
        let reply = http_response_to_reply(&response).unwrap();
        assert_eq!(reply.response.as_ref().unwrap().status, status as u32);
        assert_eq!(reply_to_http_response(reply), Ok(response));
    }
}

#[test]
fn reply_without_envelope_is_a_decoding_error() {
    assert_eq!(reply_to_http_response(Reply::default()), Err(WebTonicError::DecodingError));
    let reply = Reply { response: None, body: Some(Body::empty()) };
    assert_eq!(reply_to_http_response(reply), Err(WebTonicError::DecodingError));
}

#[test]
fn status_that_is_not_three_digits_is_a_decoding_error() {
    for status in [0u32, 1, 99, 1000, 1001, 65_535] {
        let reply = Reply { response: Some(Response { status, headers: vec![] }), body: None };
        assert_eq!(reply_to_http_response(reply), Err(WebTonicError::DecodingError), "{}", status);
    }
}

#[test]
fn status_that_does_not_fit_16_bits_is_a_decoding_error() {
    for status in [65_536u32, 65_536 + 99, 65_536 + 200, 65_536 + 999, 1 << 31, u32::MAX] {
        let reply = Reply { response: Some(Response { status, headers: vec![] }), body: None };
        assert_eq!(reply_to_http_response(reply), Err(WebTonicError::DecodingError), "{}", status);
        let frame =
            Reply { response: Some(Response { status, headers: vec![] }), body: None }.encode();
        assert_eq!(webtonic::decode_response(&frame), Err(WebTonicError::DecodingError));
    }
}

#[test]
fn body_parts_are_put_together() {
    assert_eq!(HttpBody::from_parts(None, None), None);
    assert_eq!(
        HttpBody::from_parts(Some(vec![1, 2]), None),
        Some(HttpBody { data: vec![1, 2], trailers: vec![] })
    );
    assert_eq!(
        HttpBody::from_parts(None, Some(vec![http_header("t", b"v")])),
        Some(HttpBody { data: vec![], trailers: vec![http_header("t", b"v")] })
    );
    assert_eq!(
        HttpBody::from_parts(Some(vec![]), Some(vec![http_header("t", b"v")])),
        Some(HttpBody { data: vec![], trailers: vec![http_header("t", b"v")] })
    );
    assert_eq!(
        HttpBody::from_parts(Some(vec![]), None),
        Some(HttpBody { data: vec![], trailers: vec![] })
    );
}

#[test]
fn chunks_are_joined_in_order() {
    assert_eq!(HttpBody::join_chunks(&vec![]), None);
    assert_eq!(HttpBody::join_chunks(&vec![vec![]]), Some(vec![]));
    assert_eq!(
        HttpBody::join_chunks(&vec![vec![1, 2], vec![], vec![3], vec![4, 5, 6]]),
        Some(vec![1, 2, 3, 4, 5, 6])
    );
}

struct Lcg(u64);

impl Lcg {
    fn next(&mut self) -> u64 {
        self.0 = self.0.wrapping_mul(6364136223846793005).wrapping_add(1442695040888963407);
        self.0 >> 33
    }

    fn below(&mut self, bound: u64) -> u64 {
        self.next() % bound
    }

    fn name(&mut self) -> String {
        let alphabet = b"abcdefghijklmnopqrstuvwxyz0123456789-_.!#$%&'*+^`|~";
        let len = 1 + self.below(12) as usize;
        (0..len).map(|_| alphabet[self.below(alphabet.len() as u64) as usize] as char).collect()
    }

    fn value(&mut self) -> Vec<u8> {
        let len = self.below(20) as usize;
        (0..len).map(|_| 32 + self.below(95) as u8).collect()
    }

    fn headers(&mut self, most: u64) -> Vec<HttpHeader> {
        let count = self.below(most + 1);
        (0..count).map(|_| HttpHeader::new(self.name(), self.value())).collect()
    }

    fn body(&mut self) -> Option<HttpBody> {
        if self.below(4) == 0 {
            return None;
        }
        let len = self.below(64) as usize;
        let data = (0..len).map(|_| self.below(256) as u8).collect();
        Some(HttpBody { data, trailers: self.headers(3) })
    }

    fn request(&mut self) -> HttpRequest {
        let methods =
            ["GET", "HEAD", "POST", "PUT", "DELETE", "CONNECT", "OPTIONS", "TRACE", "PATCH"];
        let method = methods[self.below(9) as usize].to_string();
        let segments = 1 + self.below(3);
        let mut uri = String::new();
        for _ in 0..segments {
            uri.push('/');
            let len = self.below(10) as usize;
            for _ in 0..len {
                uri.push((b'a' + self.below(26) as u8) as char);
            }
        }
        HttpRequest { method, uri, headers: self.headers(6), body: self.body() }
    }

    fn response(&mut self) -> HttpResponse {
        HttpResponse {
            status: 100 + self.below(500) as u16,
            headers: self.headers(6),
            body: self.body(),
        }
    }
}

#[test]
fn ten_thousand_random_requests_round_trip() {
    let mut rng = Lcg(0x2545_f491_4f6c_dd1d);
    for round in 0..10_000 {
        let request = rng.request();
        let call = http_request_to_call(&request).unwrap();
        let frame = call.encode();
        let read = Call::decode(&frame).unwrap();
        assert_eq!(read, call, "round {}", round);
        assert_eq!(call_to_http_request(read), Ok(request), "round {}", round);
    }
}

#[test]
fn random_responses_round_trip() {
    let mut rng = Lcg(0x9e37_79b9_7f4a_7c15);
    for round in 0..2_000 {
        let response = rng.response();
        let reply = http_response_to_reply(&response).unwrap();
        let frame = reply.encode();
        let read = Reply::decode(&frame).unwrap();
        assert_eq!(read, reply, "round {}", round);
        assert_eq!(reply_to_http_response(read), Ok(response), "round {}", round);
    }
}
