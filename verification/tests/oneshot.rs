use webtonic::{
    call_to_http_request, Body, Call, Header, HttpBody, HttpHeader, OneShotBody, Request,
};

fn http_header(name: &str, value: &[u8]) -> HttpHeader {
    HttpHeader::new(name.to_string(), value.to_vec())
}

fn decoded_body(body: Option<Body>) -> OneShotBody {
    let envelope = Request { uri: "/a/b".to_string(), method: 2, headers: vec![] };
    let request = call_to_http_request(Call { request: Some(envelope), body }).unwrap();
    OneShotBody::new(request.body)
}

#[test]
fn data_then_trailers_then_the_end() {
    let mut body = OneShotBody::new(Some(HttpBody {
        data: vec![1, 2, 3],
        trailers: vec![http_header("grpc-status", b"0"), http_header("x", b"y")],
    }));
    assert!(!body.is_end_stream());
    assert_eq!(body.poll_data(), Some(vec![1, 2, 3]));
    assert!(!body.is_end_stream());
    assert_eq!(body.poll_data(), None);
    assert_eq!(
        body.poll_trailers(),
        Some(vec![http_header("grpc-status", b"0"), http_header("x", b"y")])
    );
    assert!(body.is_end_stream());
    assert_eq!(body.poll_trailers(), None);
    assert_eq!(body.poll_data(), None);
}

#[test]
fn empty_body_with_trailers_gives_empty_data_first() {
    let trailers = vec![Header::new("grpc-status".to_string(), "0".to_string())];
    let mut body = decoded_body(Some(Body { body: vec![], trailers }));
    assert_eq!(body.poll_data(), Some(vec![]));
    assert_eq!(body.poll_trailers(), Some(vec![http_header("grpc-status", b"0")]));
    assert!(body.is_end_stream());
}

#[test]
fn absent_body_gives_nothing() {
    let mut body = decoded_body(None);
    assert!(body.is_end_stream());
    assert_eq!(body.poll_data(), None);
    assert_eq!(body.poll_trailers(), None);
    let mut body = OneShotBody::empty();
    assert!(body.is_end_stream());
    assert_eq!(body.poll_data(), None);
    assert_eq!(body.poll_trailers(), None);
}

#[test]
fn body_without_trailers_gives_no_trailers() {
    let mut body = decoded_body(Some(Body { body: vec![9], trailers: vec![] }));
    assert_eq!(body.poll_trailers(), None);
    assert_eq!(body.poll_data(), Some(vec![9]));
    assert!(body.is_end_stream());
}

#[test]
fn trailers_may_be_read_before_data() {
    let mut body = OneShotBody::new(Some(HttpBody {
        data: vec![5],
        trailers: vec![http_header("t", b"v")],
    }));
    assert_eq!(body.poll_trailers(), Some(vec![http_header("t", b"v")]));
    assert!(!body.is_end_stream());
    assert_eq!(body.poll_data(), Some(vec![5]));
    assert!(body.is_end_stream());
}

#[test]
fn reading_to_the_end_gives_the_body_back() {
    let bodies = [
        None,
        Some(HttpBody { data: vec![], trailers: vec![] }),
        Some(HttpBody { data: vec![1], trailers: vec![] }),
        Some(HttpBody { data: vec![], trailers: vec![http_header("t", b"v")] }),
        Some(HttpBody { data: vec![1, 2], trailers: vec![http_header("t", b"v")] }),
    ];
    for body in bodies {
        let mut reader = OneShotBody::new(body.clone());
        let data = reader.poll_data();
        let trailers = reader.poll_trailers();
        assert_eq!(HttpBody::from_parts(data, trailers), body);
    }
}
