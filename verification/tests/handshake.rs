use tokio_ws::http::Request;
use tokio_ws::proto::{accept_response, concat_key, MAGIC_GUID};
use tokio_ws::{HttpCodec, WsError, WsProto};

fn ask(key: &[u8]) -> Request {
    let mut request = Request::new();
    request.headers.insert("Sec-WebSocket-Key".to_string(), key.to_vec());
    request
}

#[test]
fn a_key_is_accepted() {
    let response = WsProto.bind_transport(Some(ask(b"dGhlIHNhbXBsZSBub25jZQ=="))).unwrap();
    assert_eq!(response.code, Some("101".to_string()));
    assert_eq!(response.reason, Some("Switching Protocols".to_string()));
    assert_eq!(response.headers.get("Upgrade").unwrap(), b"websocket");
    assert_eq!(response.headers.get("Connection").unwrap(), b"Upgrade");
    assert_eq!(
        response.headers.get("Sec-WebSocket-Accept").unwrap(),
        b"s3pPLMBiTxaQ9kYGzzhZRbK+xOo="
    );
}

#[test]
fn a_handshake_in_bytes() {
    let bytes = b"GET /chat HTTP/1.1\r\n\
        Host: server.example.com\r\n\
        Upgrade: websocket\r\n\
        Connection: Upgrade\r\n\
        Sec-WebSocket-Key: dGhlIHNhbXBsZSBub25jZQ==\r\n\
        Sec-WebSocket-Version: 13\r\n\r\n";
    let request = HttpCodec.decode(bytes).unwrap();
    let response = WsProto.bind_transport(request).unwrap();
    let mut answer = vec![];
    HttpCodec.encode(response, &mut answer).unwrap();
    assert_eq!(
        String::from_utf8(answer).unwrap(),
        "HTTP/1.1 101 Switching Protocols\r\n\
         Upgrade: websocket\r\n\
         Connection: Upgrade\r\n\
         Sec-WebSocket-Accept: s3pPLMBiTxaQ9kYGzzhZRbK+xOo=\r\n\r\n"
    );
}

#[test]
fn no_request_is_refused() {
    let error = WsProto.bind_transport(None).err();
    assert_eq!(error, Some(WsError::NoHandshake));
    assert_eq!(
        WsError::NoHandshake.message(),
        "Invalid WebSocket handshake: Expected HTTP frame."
    );
}

#[test]
fn a_request_without_a_key_is_refused() {
    let mut request = Request::new();
    request.headers.insert("sec-websocket-key".to_string(), b"x".to_vec());
    let error = WsProto.bind_transport(Some(request)).err();
    assert_eq!(error, Some(WsError::NoHandshakeKey));
    assert_eq!(
        WsError::NoHandshakeKey.message(),
        "Invalid WebSocket handshake: No Sec-WebSocket-Key header found."
    );
}

#[test]
fn the_hashed_text_is_the_key_and_the_fixed_text() {
    assert_eq!(MAGIC_GUID, "258EAFA5-E914-47DA-95CA-C5AB0DC85B11");
    assert_eq!(concat_key(b"key"), b"key258EAFA5-E914-47DA-95CA-C5AB0DC85B11");
    assert_eq!(concat_key("\u{e9}".as_bytes()).len(), 38);
}

#[test]
fn digests_are_written_in_base64() {
    let accept = |digest: [u8; 20]| {
        let response = accept_response(&digest);
        String::from_utf8(response.headers.get("Sec-WebSocket-Accept").unwrap().clone()).unwrap()
    };
    assert_eq!(accept([0; 20]), "AAAAAAAAAAAAAAAAAAAAAAAAAAA=");
    assert_eq!(accept([255; 20]), "//////////////////////////8=");
    let mut counted = [0u8; 20];
    for i in 0..20 {
        counted[i] = i as u8;
    }
    assert_eq!(accept(counted), "AAECAwQFBgcICQoLDA0ODxAREhM=");
}
