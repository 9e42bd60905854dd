use webtonic::server::{
    bytes_equal, dispatch, path_service_key, status_step, undecodable_step, unimplemented_step,
};
use webtonic::status::status_response;
use webtonic::{
    after_send, decode_response, encode_request, handle_frame, handle_response, Body, Call, Code,
    Frame, Header, HttpBody, HttpHeader, HttpRequest, HttpResponse, Reply, Request, Response,
    Route, Router, Server, Step, Target, Unimplemented,
};

fn http_header(name: &str, value: &[u8]) -> HttpHeader {
    HttpHeader::new(name.to_string(), value.to_vec())
}

fn wire_header(name: &str, value: &str) -> Header {
    Header::new(name.to_string(), value.to_string())
}

fn two_services() -> Router {
    Server::builder().add_service("helloworld.Greeter").add_service("grpc.examples.echo.Echo")
}

fn request_to(uri: &str, payload: &[u8]) -> HttpRequest {
    HttpRequest {
        method: "POST".to_string(),
        uri: uri.to_string(),
        headers: vec![
            http_header("content-type", b"application/grpc"),
            http_header("te", b"trailers"),
        ],
        body: Some(HttpBody { data: payload.to_vec(), trailers: vec![] }),
    }
}

fn sent(step: Step) -> Reply {
    match step {
        Step::Send(frame) => Reply::decode(&frame).unwrap(),
        other => panic!("expected a frame, got {:?}", other),
    }
}

fn status_reply(grpc_status: &str, message: Option<&str>) -> Reply {
    let mut headers = vec![
        wire_header("content-type", "application/grpc"),
        wire_header("grpc-status", grpc_status),
    ];
    if let Some(m) = message {
        headers.push(wire_header("grpc-message", m));
    }
    Reply { response: Some(Response { status: 200, headers }), body: None }
}

/// Length-prefixed gRPC message holding one protobuf string in field 1.
fn grpc_message(text: &str) -> Vec<u8> {
    let mut message = vec![0x0a, text.len() as u8];
    message.extend_from_slice(text.as_bytes());
    let mut framed = vec![0u8];
    framed.extend_from_slice(&(message.len() as u32).to_be_bytes());
    framed.extend_from_slice(&message);
    framed
}

fn grpc_text(framed: &[u8]) -> String {
    assert_eq!(framed[0], 0);
    assert_eq!(framed[5], 0x0a);
    let len = framed[6] as usize;
    String::from_utf8(framed[7..7 + len].to_vec()).unwrap()
}

fn serve(service: usize, request: &HttpRequest) -> HttpResponse {
    let input = grpc_text(&request.body.as_ref().unwrap().data);
    let output = match service {
        0 => format!("Hello {}!", input),
        1 => input,
        _ => unreachable!(),
    };
    HttpResponse {
        status: 200,
        headers: vec![http_header("content-type", b"application/grpc")],
        body: Some(HttpBody {
            data: grpc_message(&output),
            trailers: vec![http_header("grpc-status", b"0")],
        }),
    }
}

/// One call through both ends, with the services of `serve` behind the router.
fn tunnel(router: &Router, request: &HttpRequest) -> HttpResponse {
    let frame = encode_request(request).unwrap();
    let back = match handle_frame(router, Frame::Binary(frame)) {
        Step::Invoke { service, request } => match handle_response(&serve(service, &request)) {
            Step::Send(frame) => frame,
            other => panic!("expected a frame, got {:?}", other),
        },
        Step::Send(frame) => frame,
        other => panic!("expected a frame or an invocation, got {:?}", other),
    };
    decode_response(&back).unwrap()
}

#[test]
fn service_key_is_the_first_segment() {
    assert_eq!(path_service_key(b"/helloworld.Greeter/SayHello"), b"helloworld.Greeter");
    assert_eq!(path_service_key(b"/a"), b"a");
    assert_eq!(path_service_key(b"/a/"), b"a");
    assert_eq!(path_service_key(b"/a/b/c"), b"a");
}

#[test]
fn service_key_edge_cases() {
    assert_eq!(path_service_key(b""), b"/");
    assert_eq!(path_service_key(b"*"), b"/");
    assert_eq!(path_service_key(b"abc"), b"/");
    assert_eq!(path_service_key(b"/"), b"");
    assert_eq!(path_service_key(b"//a/b"), b"");
    assert_eq!(path_service_key(b"a/b/c"), b"b");
    assert_eq!(path_service_key(b"a/"), b"");
}

#[test]
fn bytes_equal_compares_all_bytes() {
    assert!(bytes_equal(b"", b""));
    assert!(bytes_equal(b"abc", b"abc"));
    assert!(!bytes_equal(b"abc", b"abd"));
    assert!(!bytes_equal(b"abc", b"ab"));
    assert!(!bytes_equal(b"", b"a"));
}

#[test]
fn route_matches_its_own_name_only() {
    let route = Route { name: "helloworld.Greeter".to_string() };
    assert!(route.matches(b"helloworld.Greeter"));
    assert!(!route.matches(b"helloworld.Greete"));
    assert!(!route.matches(b"helloworld.Greeter/"));
    assert!(!route.matches(b""));
}

#[test]
fn router_finds_services_by_name() {
    let router = two_services();
    assert_eq!(router.len(), 2);
    assert_eq!(router.route(b"helloworld.Greeter"), Target::Service(0));
    assert_eq!(router.route(b"grpc.examples.echo.Echo"), Target::Service(1));
    assert_eq!(router.route(b"unknown.Service"), Target::Unimplemented);
    assert_eq!(router.route(b"helloworld.greeter"), Target::Unimplemented);
    assert_eq!(router.route(b"helloworld.Greeter "), Target::Unimplemented);
    assert_eq!(router.route(b""), Target::Unimplemented);
    assert_eq!(router.route(b"/"), Target::Unimplemented);
}

#[test]
fn a_name_added_again_reaches_the_later_service() {
    let router = Server::builder().add_service("a.A").add_service("b.B").add_service("a.A");
    assert_eq!(router.len(), 3);
    assert_eq!(router.route(b"a.A"), Target::Service(2));
    assert_eq!(router.route(b"b.B"), Target::Service(1));
}

#[test]
fn dispatch_goes_by_the_first_segment() {
    let router = Server::builder().add_service("A").add_service("B");
    for (uri, service) in [("/A/x", 0), ("/B/y", 1), ("/A", 0), ("/B/y/z?q=1", 1)] {
        let request = request_to(uri, b"");
        match dispatch(&router, request.clone()) {
            Step::Invoke { service: found, request: handed } => {
                assert_eq!(found, service);
                assert_eq!(handed, request);
            },
            other => panic!("expected an invocation, got {:?}", other),
        }
    }
    let reply = sent(dispatch(&router, request_to("/C/z", b"")));
    assert_eq!(
        reply,
        Reply {
            response: Some(Response {
                status: 200,
                headers: vec![
                    wire_header("grpc-status", "12"),
                    wire_header("content-type", "application/grpc"),
                ],
            }),
            body: None,
        }
    );
}

#[test]
fn dispatch_reads_the_path_of_a_full_uri() {
    let router = Server::builder().add_service("A");
    let step = dispatch(&router, request_to("http://example.org/A/x?y=/B/", b""));
    assert!(matches!(step, Step::Invoke { service: 0, .. }));
    let step = dispatch(&router, request_to("example.org:80", b""));
    assert!(matches!(step, Step::Send(_)));
    let step = dispatch(&router, request_to("not a uri", b""));
    assert!(matches!(step, Step::Send(_)));
}

#[test]
fn unimplemented_answers_with_status_twelve() {
    let response = Unimplemented.call();
    assert_eq!(
        response,
        HttpResponse {
            status: 200,
            headers: vec![
                http_header("grpc-status", b"12"),
                http_header("content-type", b"application/grpc"),
            ],
            body: None,
        }
    );
}

#[test]
fn a_frame_that_was_not_sent_ends_the_connection() {
    assert_eq!(after_send(true), Step::Next);
    assert_eq!(after_send(false), Step::Stop);
}

#[test]
fn steps_that_answer_without_a_service() {
    assert_eq!(sent(undecodable_step()), status_reply("13", Some("failed%20to%20decode%20call")));
    let reply = sent(unimplemented_step());
    assert_eq!(
        reply.response.unwrap().headers,
        vec![wire_header("grpc-status", "12"), wire_header("content-type", "application/grpc")]
    );
}

#[test]
fn close_frame_ends_the_connection() {
    assert_eq!(handle_frame(&two_services(), Frame::Close), Step::Stop);
}

#[test]
fn ping_and_pong_are_passed_over() {
    assert_eq!(handle_frame(&two_services(), Frame::Control), Step::Next);
}

#[test]
fn frame_that_is_not_binary_is_answered_with_status_three() {
    let reply = sent(handle_frame(&two_services(), Frame::Text));
    assert_eq!(
        reply,
        status_reply("3", Some("websocket%20messages%20must%20be%20sent%20in%20binary"))
    );
}

#[test]
fn socket_failure_is_answered_with_status_thirteen() {
    let reply = sent(handle_frame(&two_services(), Frame::Failed("reset by peer".to_string())));
    assert_eq!(
        reply,
        status_reply("13", Some("error%20on%20the%20websocket%20channel%20reset%20by%20peer"))
    );
}

#[test]
fn bytes_that_are_no_call_are_answered_with_status_thirteen() {
    for garbage in [&b"hello"[..], &[0xff, 0xff][..], &[0x0a, 0x05, 1][..]] {
        let reply = sent(handle_frame(&two_services(), Frame::Binary(garbage.to_vec())));
        assert_eq!(reply, status_reply("13", Some("failed%20to%20decode%20call")));
    }
}

#[test]
fn call_without_envelope_is_answered_with_status_thirteen() {
    let frame = Call { request: None, body: Some(Body::empty()) }.encode();
    let reply = sent(handle_frame(&two_services(), Frame::Binary(frame)));
    assert_eq!(reply, status_reply("13", Some("failed%20to%20decode%20call")));
    let reply = sent(handle_frame(&two_services(), Frame::Binary(vec![])));
    assert_eq!(reply, status_reply("13", Some("failed%20to%20decode%20call")));
}

#[test]
fn call_that_is_no_request_is_answered_with_status_thirteen() {
    let envelope = Request { uri: "/A/x".to_string(), method: 42, headers: vec![] };
    let frame = Call { request: Some(envelope), body: None }.encode();
    let reply = sent(handle_frame(&two_services(), Frame::Binary(frame)));
    assert_eq!(reply, status_reply("13", Some("failed%20to%20decode%20call")));
}

#[test]
fn unknown_service() {
    let request = request_to("/unknown.Service/Method", b"");
    let frame = encode_request(&request).unwrap();
    let reply = sent(handle_frame(&two_services(), Frame::Binary(frame)));
    let response = reply.response.unwrap();
    assert_eq!(response.status, 200);
    assert!(response.headers.contains(&wire_header("grpc-status", "12")));
    assert_eq!(reply.body, None);
}

#[test]
fn known_service_is_invoked_with_the_request() {
    let request = request_to("/grpc.examples.echo.Echo/UnaryEcho", &grpc_message("Echo Test"));
    let frame = encode_request(&request).unwrap();
    match handle_frame(&two_services(), Frame::Binary(frame)) {
        Step::Invoke { service, request: handed } => {
            assert_eq!(service, 1);
            assert_eq!(handed, request);
        },
        other => panic!("expected an invocation, got {:?}", other),
    }
}

#[test]
fn response_is_sent_as_its_frame() {
    let response = serve(0, &request_to("/x", &grpc_message("WebTonic")));
    let reply = sent(handle_response(&response));
    assert_eq!(
        reply,
        Reply {
            response: Some(Response {
                status: 200,
                headers: vec![wire_header("content-type", "application/grpc")],
            }),
            body: Some(Body {
                body: grpc_message("Hello WebTonic!"),
                trailers: vec![wire_header("grpc-status", "0")],
            }),
        }
    );
}

#[test]
fn response_that_cannot_be_framed_is_answered_with_status_thirteen() {
    let response =
        HttpResponse { status: 200, headers: vec![http_header("x", b"\xff")], body: None };
    let reply = sent(handle_response(&response));
    assert_eq!(reply, status_reply("13", Some("failed%20to%20encode%20reply")));
}

#[test]
fn status_without_message_has_no_message_header() {
    let response = status_response(Code::Unimplemented, "");
    assert_eq!(
        response,
        HttpResponse {
            status: 200,
            headers: vec![
                http_header("content-type", b"application/grpc"),
                http_header("grpc-status", b"12"),
            ],
            body: None,
        }
    );
    assert_eq!(sent(status_step(Code::Unimplemented, "")), status_reply("12", None));
}

#[test]
fn status_message_is_percent_encoded() {
    let response = status_response(Code::Internal, "a b\"#<>`?{}\u{e9}\n%~");
    assert_eq!(
        response.headers[2],
        http_header("grpc-message", b"a%20b%22%23%3C%3E%60%3F%7B%7D%C3%A9%0A%~")
    );
    assert_eq!(response.headers[1], http_header("grpc-status", b"13"));
}

fn expected_message_value(message: &str) -> Vec<u8> {
    let mut out = Vec::new();
    for &byte in message.as_bytes() {
        let kept = (0x21..=0x7e).contains(&byte) && !b"\"#<>?`{}".contains(&byte);
        if kept {
            out.push(byte);
        } else {
            out.push(b'%');
            out.push(b"0123456789ABCDEF"[(byte / 16) as usize]);
            out.push(b"0123456789ABCDEF"[(byte % 16) as usize]);
        }
    }
    out
}

#[test]
fn every_character_of_a_message_is_written_as_the_rule_says() {
    for code in 1u32..=0x7f {
        let text = char::from_u32(code).unwrap().to_string();
        let response = status_response(Code::Internal, &text);
        assert_eq!(response.headers.len(), 3, "character {}", code);
        assert_eq!(response.headers[2].name, "grpc-message");
        assert_eq!(response.headers[2].value, expected_message_value(&text), "character {}", code);
    }
    let beyond_ascii =
        ["\0", "\u{80}", "\u{e9}", "\u{7ff}", "\u{800}", "\u{ffff}", "\u{1f600}", "a\u{e9}b c"];
    for text in beyond_ascii {
        let response = status_response(Code::Internal, text);
        assert_eq!(response.headers[2].value, expected_message_value(text), "{:?}", text);
    }
    assert_eq!(expected_message_value("a b\u{e9}"), b"a%20b%C3%A9");
}

#[test]
fn status_numbers() {
    assert_eq!(Code::InvalidArgument.number(), 3);
    assert_eq!(Code::Unimplemented.number(), 12);
    assert_eq!(Code::Internal.number(), 13);
    assert_eq!(status_response(Code::InvalidArgument, "").headers[1].value, b"3");
}

#[test]
fn greeter_unary() {
    let request = request_to("/helloworld.Greeter/SayHello", &grpc_message("WebTonic"));
    let frame = encode_request(&request).unwrap();
    assert_eq!(
        Call::decode(&frame).unwrap(),
        Call {
            request: Some(Request {
                uri: "/helloworld.Greeter/SayHello".to_string(),
                method: 2,
                headers: vec![
                    wire_header("content-type", "application/grpc"),
                    wire_header("te", "trailers"),
                ],
            }),
            body: Some(Body { body: grpc_message("WebTonic"), trailers: vec![] }),
        }
    );
    let response = tunnel(&two_services(), &request);
    assert_eq!(response.status, 200);
    assert_eq!(response.headers, vec![http_header("content-type", b"application/grpc")]);
    let body = response.body.unwrap();
    assert_eq!(grpc_text(&body.data), "Hello WebTonic!");
    assert_eq!(body.trailers, vec![http_header("grpc-status", b"0")]);
}

#[test]
fn echo_unary() {
    let request = request_to("/grpc.examples.echo.Echo/UnaryEcho", &grpc_message("Echo Test"));
    let response = tunnel(&two_services(), &request);
    assert_eq!(grpc_text(&response.body.unwrap().data), "Echo Test");
}

#[test]
fn unknown_service_through_the_tunnel() {
    let response = tunnel(&two_services(), &request_to("/unknown.Service/Method", b""));
    assert_eq!(response.status, 200);
    assert!(response.headers.contains(&http_header("grpc-status", b"12")));
}

#[test]
fn text_frame_then_greeter_call() {
    let router = two_services();
    let reply = sent(handle_frame(&router, Frame::Text));
    let headers = reply.response.unwrap().headers;
    assert!(headers.contains(&wire_header("grpc-status", "3")));
    let request = request_to("/helloworld.Greeter/SayHello", &grpc_message("WebTonic"));
    let response = tunnel(&router, &request);
    assert_eq!(response.status, 200);
    assert_eq!(grpc_text(&response.body.unwrap().data), "Hello WebTonic!");
}

#[test]
fn good_call_after_bad_frames() {
    let router = two_services();
    let bad = [
        Frame::Text,
        Frame::Binary(b"hello".to_vec()),
        Frame::Binary(Call { request: None, body: None }.encode()),
        Frame::Failed("x".to_string()),
    ];
    let mut replies = 0;
    for frame in bad {
        match handle_frame(&router, frame) {
            Step::Send(_) => replies += 1,
            other => panic!("expected one frame, got {:?}", other),
        }
    }
    assert_eq!(replies, 4);
    let request = request_to("/helloworld.Greeter/SayHello", &grpc_message("WebTonic"));
    let response = tunnel(&router, &request);
    assert_eq!(grpc_text(&response.body.unwrap().data), "Hello WebTonic!");
}

#[test]
fn replies_leave_in_the_order_of_the_calls() {
    let router = two_services();
    let names = ["one", "two", "three", "four", "five"];
    let answers: Vec<String> = names
        .iter()
        .map(|name| {
            let request = request_to("/grpc.examples.echo.Echo/UnaryEcho", &grpc_message(name));
            grpc_text(&tunnel(&router, &request).body.unwrap().data)
        })
        .collect();
    assert_eq!(answers, names);
}
