use tokio_ws::http::{ParseError, ParsedRequest, Request, Response, Status};
use tokio_ws::{HttpCodec, WsError};

const HELLO: &[u8] =
    b"GET /chat HTTP/1.1\r\nHost: server.example.com\r\nUpgrade: websocket\r\n\r\n";

fn text(bytes: &[u8]) -> String {
    String::from_utf8(bytes.to_vec()).unwrap()
}

fn request() -> Request {
    let mut request = Request::new();
    request.method = Some("GET".to_string());
    request.path = Some("/chat".to_string());
    request.headers.insert("Host".to_string(), b"server.example.com".to_vec());
    request.headers.insert("Upgrade".to_string(), b"websocket".to_vec());
    request
}

fn value(request: &Request, name: &str) -> Option<String> {
    request.headers.get(name).map(|value| text(value))
}

#[test]
fn new_messages_are_empty() {
    let request = Request::new();
    assert_eq!(request.method, None);
    assert_eq!(request.path, None);
    assert_eq!(request.headers.get("Host"), None);
    let response = Response::new();
    assert_eq!(response.code, None);
    assert_eq!(response.reason, None);
    assert_eq!(response.headers.get("Host"), None);
}

#[test]
fn fields_are_set_and_replaced() {
    let mut request = Request::new();
    request.headers.insert("A".to_string(), b"1".to_vec());
    request.headers.insert("B".to_string(), b"2".to_vec());
    request.headers.insert("A".to_string(), b"3".to_vec());
    assert_eq!(value(&request, "A"), Some("3".to_string()));
    assert_eq!(value(&request, "B"), Some("2".to_string()));
    assert_eq!(value(&request, "a"), None);
    request.method = Some("M".to_string());
    request.path = Some("p".to_string());
    let mut buf = vec![];
    request.serialize(&mut buf).unwrap();
    assert_eq!(text(&buf), "M p HTTP/1.1\r\nA: 3\r\nB: 2\r\n\r\n");
}

#[test]
fn a_request_is_written() {
    let mut buf = b"before".to_vec();
    assert_eq!(request().serialize(&mut buf), Ok(()));
    assert_eq!(buf, [b"before", HELLO].concat());
}

#[test]
fn a_request_without_its_parts_is_not_written() {
    let mut buf = b"before".to_vec();
    let mut request = request();
    request.path = None;
    assert_eq!(
        request.serialize(&mut buf),
        Err("Could not serialize HTTP response: no \"path\" field".to_string())
    );
    request.method = None;
    assert_eq!(
        request.serialize(&mut buf),
        Err("Could not serialize HTTP response: no \"method\" field".to_string())
    );
    assert_eq!(buf, b"before");
}

#[test]
fn a_response_is_written() {
    let mut response = Response::new();
    response.code = Some("200".to_string());
    response.reason = Some("OK".to_string());
    let mut buf = b"before".to_vec();
    assert_eq!(response.serialize(&mut buf), Ok(()));
    assert_eq!(text(&buf), "beforeHTTP/1.1 200 OK\r\n\r\n");
    response.headers.insert("Server".to_string(), vec![0xff]);
    let mut buf = vec![];
    assert_eq!(HttpCodec.encode(response, &mut buf), Ok(()));
    assert_eq!(buf, b"HTTP/1.1 200 OK\r\nServer: \xff\r\n\r\n");
}

#[test]
fn a_response_without_its_parts_is_not_written() {
    let mut buf = b"before".to_vec();
    let mut response = Response::new();
    assert_eq!(
        response.serialize(&mut buf),
        Err("Could not serialize response: No \"code\" field.".to_string())
    );
    response.code = Some("200".to_string());
    assert_eq!(
        response.serialize(&mut buf),
        Err("Could not serialize response: No \"reason\" field.".to_string())
    );
    assert_eq!(HttpCodec.encode(response, &mut buf), Err(WsError::UnwritableResponse));
    assert_eq!(WsError::UnwritableResponse.message(), "Could not serialize HTTP response.");
    assert_eq!(buf, b"before");
}

#[test]
fn a_request_is_read() {
    let mut request = Request::new();
    assert_eq!(request.parse(HELLO), Ok(Status::Complete(HELLO.len())));
    assert_eq!(request.method, Some("GET".to_string()));
    assert_eq!(request.path, Some("/chat".to_string()));
    assert_eq!(value(&request, "Host"), Some("server.example.com".to_string()));
    assert_eq!(value(&request, "Upgrade"), Some("websocket".to_string()));
    assert_eq!(value(&request, "upgrade"), None);
}

#[test]
fn what_is_read_is_added() {
    let mut request = Request::new();
    request.headers.insert("Host".to_string(), b"old".to_vec());
    request.headers.insert("Other".to_string(), b"kept".to_vec());
    let bytes = b"PUT / HTTP/1.0\nHost: a\nHost: b\nEmpty:\n\nbody";
    assert_eq!(request.parse(bytes), Ok(Status::Complete(bytes.len() - 4)));
    assert_eq!(value(&request, "Host"), Some("b".to_string()));
    assert_eq!(value(&request, "Other"), Some("kept".to_string()));
    assert_eq!(value(&request, "Empty"), Some("".to_string()));
}

#[test]
fn nothing_is_read_of_a_part() {
    for cut in 0..HELLO.len() {
        let mut request = Request::new();
        assert_eq!(request.parse(&HELLO[..cut]), Ok(Status::Partial));
        assert_eq!(request.method, None);
        assert_eq!(request.path, None);
        assert_eq!(request.headers.get("Host"), None);
        assert!(HttpCodec.decode(&HELLO[..cut]).unwrap().is_none());
    }
}

#[test]
fn each_fault_is_told() {
    let many = "A: 1\r\n".repeat(33);
    let faults = [
        ("GET / HTTP/1.1\r\nA\x01: 1\r\n\r\n".to_string(), ParseError::HeaderName),
        ("GET / HTTP/1.1\r\nA: \x01\r\n\r\n".to_string(), ParseError::HeaderValue),
        ("GET / HTTP/1.1\r\rA: 1\r\n\r\n".to_string(), ParseError::NewLine),
        ("\x01GET / HTTP/1.1\r\n\r\n".to_string(), ParseError::Token),
        (format!("GET / HTTP/1.1\r\n{}\r\n", many), ParseError::TooManyHeaders),
        ("GET / HTTP/2.0\r\n\r\n".to_string(), ParseError::Version),
    ];
    for (bytes, fault) in faults {
        let mut request = Request::new();
        assert_eq!(request.parse(bytes.as_bytes()), Err(fault));
        assert_eq!(request.method, None);
        assert_eq!(HttpCodec.decode(bytes.as_bytes()).err(), Some(WsError::UnreadableRequest));
    }
    assert_eq!(WsError::UnreadableRequest.message(), "Could not parse HTTP request");
    let mut request = Request::new();
    assert_eq!(request.accept(Err(ParseError::Status)), Err(ParseError::Status));
}

#[test]
fn a_request_may_have_thirty_two_headers() {
    let mut bytes = "GET / HTTP/1.1\r\n".to_string();
    for i in 0..32 {
        bytes.push_str(&format!("A{}: {}\r\n", i, i));
    }
    bytes.push_str("\r\n");
    let request = HttpCodec.decode(bytes.as_bytes()).unwrap().unwrap();
    for i in 0..32 {
        assert_eq!(value(&request, &format!("A{}", i)), Some(format!("{}", i)));
    }
    let mut buf = vec![];
    request.serialize(&mut buf).unwrap();
    assert_eq!(text(&buf), bytes);
}

#[test]
fn a_request_with_more_headers_is_refused() {
    for count in [33, 34, 100] {
        let mut bytes = "GET / HTTP/1.1\r\n".to_string();
        for i in 0..count {
            bytes.push_str(&format!("A{}: {}\r\n", i, i));
        }
        bytes.push_str("\r\nwhat follows");
        let mut request = Request::new();
        request.headers.insert("Host".to_string(), b"kept".to_vec());
        assert_eq!(request.parse(bytes.as_bytes()), Err(ParseError::TooManyHeaders));
        assert_eq!(request.method, None);
        assert_eq!(request.path, None);
        assert_eq!(value(&request, "Host"), Some("kept".to_string()));
        assert_eq!(value(&request, "A0"), None);
        assert_eq!(HttpCodec.decode(bytes.as_bytes()).err(), Some(WsError::UnreadableRequest));
    }
}

#[test]
fn fields_without_a_name_are_left_out() {
    let mut request = Request::new();
    let outcome = Ok(Some(ParsedRequest {
        consumed: 9,
        method: Some("GET".to_string()),
        path: Some("/".to_string()),
        headers: vec![
            ("".to_string(), b"nameless".to_vec()),
            ("A".to_string(), b"1".to_vec()),
            ("A".to_string(), b"2".to_vec()),
        ],
    }));
    assert_eq!(request.accept(outcome), Ok(Status::Complete(9)));
    assert_eq!(request.headers.get(""), None);
    assert_eq!(value(&request, "A"), Some("2".to_string()));
    assert_eq!(request.accept(Ok(None)), Ok(Status::Partial));
    assert_eq!(request.path, Some("/".to_string()));
}

#[test]
fn a_written_request_is_decoded() {
    let mut buf = vec![];
    request().serialize(&mut buf).unwrap();
    buf.extend_from_slice(b"more");
    let back = HttpCodec.decode(&buf).unwrap().unwrap();
    assert_eq!(back.method, Some("GET".to_string()));
    assert_eq!(back.path, Some("/chat".to_string()));
    let mut again = vec![];
    back.serialize(&mut again).unwrap();
    assert_eq!(again, HELLO);
}

#[test]
fn the_later_of_two_values_counts() {
    let bytes = b"GET / HTTP/1.1\r\nA: 1\r\na: 2\r\nA: 3\r\n\r\n";
    let request = HttpCodec.decode(bytes).unwrap().unwrap();
    let mut buf = vec![];
    request.serialize(&mut buf).unwrap();
    assert_eq!(text(&buf), "GET / HTTP/1.1\r\nA: 3\r\na: 2\r\n\r\n");
}

#[test]
fn a_head_is_read_by_itself() {
    let heads = [
        "\r\n\nGET /\u{e9} HTTP/1.0\nA:\t 1\t2 \nB:\r\nA:  3\n\r\n",
        "POST /a/long/path/that/takes/more/than/one/block HTTP/1.1\r\n\
         a-name-that-takes-more-than-one-block-of-bytes: a value \t of many more bytes\r\n\
         \n",
        "GETS * HTTP/1.1\n\n",
    ];
    for head in heads {
        let head = head.as_bytes();
        let n = head.len();
        for cut in 0..n {
            let mut part = Request::new();
            assert_eq!(part.parse(&head[..cut]), Ok(Status::Partial));
            assert_eq!(part.method, None);
        }
        let mut alone = Request::new();
        assert_eq!(alone.parse(head), Ok(Status::Complete(n)));
        let mut written = vec![];
        alone.serialize(&mut written).unwrap();
        for body in ["x", "\r\n\r\n", "GET / HTTP/9.9\r\n", "\u{0}a long body, all of it"] {
            let mut request = Request::new();
            let bytes = [head, body.as_bytes()].concat();
            assert_eq!(request.parse(&bytes), Ok(Status::Complete(n)));
            let mut again = vec![];
            request.serialize(&mut again).unwrap();
            assert_eq!(again, written);
        }
    }
}

#[test]
fn plain_requests_with_odd_characters_are_decoded() {
    let mut odd = Request::new();
    odd.method = Some("m!#$%&'*+-.^_`|~9".to_string());
    odd.path = Some((b'!'..=b'~').map(char::from).collect());
    odd.headers.insert("x!#$%&'*+-.^_`|~9".to_string(), (b'!'..=b'~').collect());
    odd.headers.insert("y".to_string(), b"a b  c \x80\xff d".to_vec());
    odd.headers.insert("z".to_string(), b"".to_vec());
    odd.headers.insert("long".to_string(), vec![b'v'; 100]);
    let mut buf = vec![];
    odd.serialize(&mut buf).unwrap();
    for cut in 0..buf.len() {
        assert!(HttpCodec.decode(&buf[..cut]).unwrap().is_none());
    }
    let back = HttpCodec.decode(&buf).unwrap().unwrap();
    assert_eq!(back.method, odd.method);
    assert_eq!(back.path, odd.path);
    let mut again = vec![];
    back.serialize(&mut again).unwrap();
    assert_eq!(again, buf);
}
