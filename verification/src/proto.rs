//! The opening handshake.
use vstd::prelude::*;
use vstd::slice::slice_to_vec;
use vstd::utf8::{encode_utf8, valid_utf8};

use crate::bytes::lemma_encode_concat;
use crate::error::WsError;
use crate::http::{distinct_names, law_distinct_names, law_field_found};
use crate::http::{lemma_fields_from_empty, with_fields};
use crate::http::{lookup, Request, RequestModel, Response, ResponseModel};
use crate::outside::{base64_char, base64_group, base64_text, sha1_digest, to_base64};

verus! {

/// What a server adds to a client's key before it hashes it.
pub const MAGIC_GUID: &'static str = "258EAFA5-E914-47DA-95CA-C5AB0DC85B11";

/// The server side of the protocol.
pub struct WsProto;

/// The key of the client that sent `request`.
pub open spec fn handshake_key(request: RequestModel) -> Option<Seq<u8>> {
    lookup(request.headers, "Sec-WebSocket-Key"@)
}

/// What is hashed to accept a client's key.
pub open spec fn accept_input(key: Seq<u8>) -> Seq<u8> {
    key + encode_utf8(MAGIC_GUID@)
}

/// The response that accepts a key, given the digest of its `accept_input`.
pub open spec fn accept_model(digest: Seq<u8>) -> ResponseModel {
    ResponseModel {
        code: Some("101"@),
        reason: Some("Switching Protocols"@),
        headers: seq![
            ("Upgrade"@, encode_utf8("websocket"@)),
            ("Connection"@, encode_utf8("Upgrade"@)),
            ("Sec-WebSocket-Accept"@, encode_utf8(base64_text(digest))),
        ],
    }
}

/// What a server answers to the first message of a connection.
pub open spec fn handshake_answer(frame: Option<RequestModel>) -> Result<ResponseModel, WsError> {
    match frame {
        None => Err(WsError::NoHandshake),
        Some(request) => match handshake_key(request) {
            None => Err(WsError::NoHandshakeKey),
            Some(key) => Ok(accept_model(sha1_digest(accept_input(key)))),
        },
    }
}

/// A message as what it holds.
pub open spec fn model_of(frame: Option<Request>) -> Option<RequestModel> {
    match frame {
        Some(request) => Some(request@),
        None => None,
    }
}

/// `key` with the text behind it that is hashed with it.
pub fn concat_key(key: &[u8]) -> (input: Vec<u8>)
    requires
        valid_utf8(key@),
    ensures
        input@ == accept_input(key@),
{
    let mut text = String::from_utf8(slice_to_vec(key)).unwrap();
    proof {
        lemma_encode_concat(text@, MAGIC_GUID@);
    }
    text.append(MAGIC_GUID);
    slice_to_vec(text.as_str().as_bytes())
}

/// The response that accepts a key, given the digest of what is hashed for it.
pub fn accept_response(digest: &[u8; 20]) -> (response: Response)
    ensures
        response@ == accept_model(digest@),
{
    let mut response = Response::new();
    response.code = Some("101".to_string());
    response.reason = Some("Switching Protocols".to_string());
    response.headers.insert("Upgrade".to_string(), slice_to_vec("websocket".as_bytes()));
    response.headers.insert("Connection".to_string(), slice_to_vec("Upgrade".as_bytes()));
    let accept = to_base64(digest.as_slice());
    response.headers.insert(
        "Sec-WebSocket-Accept".to_string(),
        slice_to_vec(accept.as_str().as_bytes()),
    );
    proof {
        let fields = accept_model(digest@).headers;
        lemma_accept_names(digest@);
        lemma_fields_from_empty(fields);
        reveal_with_fuel(with_fields, 4);
        assert(fields.drop_last().drop_last().drop_last() =~= Seq::empty());
        assert(response@ =~= accept_model(digest@));
    }
    response
}

impl WsProto {
    /// Answers the first message of a connection. A key has to be text: it is valid UTF-8.
    pub fn bind_transport(&self, frame: Option<Request>) -> (answer: Result<Response, WsError>)
        requires
            frame matches Some(request) ==> handshake_key(request@) is Some ==> valid_utf8(
                handshake_key(request@).unwrap(),
            ),
        ensures
            match answer {
                Ok(response) => handshake_answer(model_of(frame)) == Ok::<ResponseModel, WsError>(
                    response@,
                ),
                Err(error) => handshake_answer(model_of(frame)) == Err::<ResponseModel, WsError>(
                    error,
                ),
            },
            frame is None ==> answer == Err::<Response, WsError>(WsError::NoHandshake),
            frame matches Some(request) ==> match answer {
                Ok(response) => handshake_answer(Some(request@)) == Ok::<ResponseModel, WsError>(
                    response@,
                ),
                Err(error) => handshake_answer(Some(request@)) == Err::<ResponseModel, WsError>(
                    error,
                ),
            },
            frame matches Some(request) ==> distinct_names(request@.headers),
    {
        let request = match frame {
            Some(request) => request,
            None => {
                return Err(WsError::NoHandshake);
            },
        };
        let key = match request.headers.get("Sec-WebSocket-Key") {
            Some(key) => key,
            None => {
                return Err(WsError::NoHandshakeKey);
            },
        };
        let input = concat_key(key.as_slice());
        let digest: [u8; 20] = openssl::sha::sha1(input.as_slice());
        Ok(accept_response(&digest))
    }
}

/// The names of the header fields that accept a key are distinct.
proof fn lemma_accept_names(digest: Seq<u8>)
    ensures
        distinct_names(accept_model(digest).headers),
        forall|i: int| 0 <= i < 3 ==> #[trigger] accept_model(digest).headers[i].0.len() > 0,
{
    reveal_strlit("Upgrade");
    reveal_strlit("Connection");
    reveal_strlit("Sec-WebSocket-Accept");
    let fields = accept_model(digest).headers;
    assert(fields[0].0.len() == 7 && fields[1].0.len() == 10 && fields[2].0.len() == 20);
}

/// A client that sends a key is let in: the answer switches protocols to `websocket`, it accepts
/// the key with the base64 text of the digest of the key and the fixed text behind it, and it can
/// be written.
pub proof fn law_key_is_accepted(request: RequestModel, key: Seq<u8>)
    requires
        handshake_key(request) == Some(key),
    ensures
        ({
            let answer = handshake_answer(Some(request));
            let accept = base64_text(sha1_digest(key + encode_utf8(MAGIC_GUID@)));
            &&& answer is Ok
            &&& answer->Ok_0.code == Some("101"@)
            &&& answer->Ok_0.reason == Some("Switching Protocols"@)
            &&& lookup(answer->Ok_0.headers, "Upgrade"@) == Some(encode_utf8("websocket"@))
            &&& lookup(answer->Ok_0.headers, "Connection"@) == Some(encode_utf8("Upgrade"@))
            &&& lookup(answer->Ok_0.headers, "Sec-WebSocket-Accept"@) == Some(encode_utf8(accept))
        }),
{
    let digest = sha1_digest(accept_input(key));
    let fields = accept_model(digest).headers;
    lemma_accept_names(digest);
    assert(fields[0].0 == "Upgrade"@);
    assert(fields[1].0 == "Connection"@);
    assert(fields[2].0 == "Sec-WebSocket-Accept"@);
}

/// A request whose field `Sec-WebSocket-Key` stands anywhere among fields with distinct names, and
/// whatever the others are, is let in: the answer switches protocols to `websocket`, and accepts
/// the key with the base64 text of the digest of the key with the fixed text behind it.
pub proof fn law_request_is_accepted(request: RequestModel, at: int, key: Seq<u8>)
    requires
        forall|i: int, j: int|
            0 <= i < request.headers.len() && 0 <= j < request.headers.len() && i != j
                ==> #[trigger] request.headers[i].0 != #[trigger] request.headers[j].0,
        0 <= at < request.headers.len(),
        request.headers[at] == ("Sec-WebSocket-Key"@, key),
    ensures
        ({
            let answer = handshake_answer(Some(request));
            let accept = base64_text(
                sha1_digest(key + encode_utf8("258EAFA5-E914-47DA-95CA-C5AB0DC85B11"@)),
            );
            &&& answer is Ok
            &&& answer->Ok_0.code == Some("101"@)
            &&& answer->Ok_0.reason == Some("Switching Protocols"@)
            &&& answer->Ok_0.headers == seq![
                ("Upgrade"@, encode_utf8("websocket"@)),
                ("Connection"@, encode_utf8("Upgrade"@)),
                ("Sec-WebSocket-Accept"@, encode_utf8(accept)),
            ]
            &&& handshake_key(request) == Some(key)
        }),
{
    law_distinct_names(request.headers);
    law_field_found(request.headers, "Sec-WebSocket-Key"@, at);
}

/// A request is refused for want of a key exactly where no field is called `Sec-WebSocket-Key`,
/// and the want of a request is another matter.
pub proof fn law_request_is_refused(request: RequestModel)
    ensures
        (forall|i: int|
            0 <= i < request.headers.len() ==> #[trigger] request.headers[i].0
                != "Sec-WebSocket-Key"@) <==> handshake_answer(Some(request)) == Err::<
            ResponseModel,
            WsError,
        >(WsError::NoHandshakeKey),
        handshake_answer(Some(request)) matches Err(error) ==> error == WsError::NoHandshakeKey,
        handshake_answer(None) == Err::<ResponseModel, WsError>(WsError::NoHandshake),
{
    law_field_found(request.headers, "Sec-WebSocket-Key"@, 0);
}

/// What a response accepts a key with is fixed by the digest, and a digest is taken of the key and
/// the fixed text, in this order.
pub proof fn law_accept_parts(key: Seq<u8>, digest: Seq<u8>)
    ensures
        accept_input(key) == key + encode_utf8("258EAFA5-E914-47DA-95CA-C5AB0DC85B11"@),
        accept_model(digest).code == Some("101"@),
        accept_model(digest).reason == Some("Switching Protocols"@),
        accept_model(digest).headers == seq![
            ("Upgrade"@, encode_utf8("websocket"@)),
            ("Connection"@, encode_utf8("Upgrade"@)),
            ("Sec-WebSocket-Accept"@, encode_utf8(base64_text(digest))),
        ],
{
}

/// The characters of base64 are those of its alphabet, in its order.
proof fn lemma_base64_char(v: int)
    requires
        0 <= v < 64,
    ensures
        "ABCDEFGHIJKLMNOPQRSTUVWXYZabcdefghijklmnopqrstuvwxyz0123456789+/"@[v] == base64_char(v),
{
    reveal_strlit("ABCDEFGHIJKLMNOPQRSTUVWXYZabcdefghijklmnopqrstuvwxyz0123456789+/");
}

/// The four six-bit parts of three bytes.
proof fn lemma_sextets(d0: int, d1: int, d2: int)
    requires
        0 <= d0 < 256,
        0 <= d1 < 256,
        0 <= d2 < 256,
    ensures
        ({
            let n = d0 * 0x1_0000 + d1 * 0x100 + d2;
            &&& 0 <= n / 0x4_0000 < 64
            &&& n / 0x4_0000 == d0 / 4
            &&& n / 0x1000 % 64 == d0 % 4 * 16 + d1 / 16
            &&& n / 64 % 64 == d1 % 16 * 4 + d2 / 64
            &&& n % 64 == d2 % 64
        }),
{
    let n = d0 * 0x1_0000 + d1 * 0x100 + d2;
    assert(n / 0x1000 == d0 * 16 + d1 / 16);
    assert(n / 64 == d0 * 1024 + d1 * 4 + d2 / 64);
}

/// The groups of six bits of three bytes in a row.
proof fn lemma_base64_groups(data: Seq<u8>, i: int)
    requires
        0 <= i,
    ensures
        base64_group(data, 4 * i) == data[3 * i] / 4,
        base64_group(data, 4 * i + 1) == data[3 * i] % 4 * 16 + (if 3 * i + 1 < data.len() {
            data[3 * i + 1] / 16
        } else {
            0
        }),
        base64_group(data, 4 * i + 2) == data[3 * i + 1] % 16 * 4 + (if 3 * i + 2 < data.len() {
            data[3 * i + 2] / 64
        } else {
            0
        }),
        base64_group(data, 4 * i + 3) == data[3 * i + 2] % 64,
{
    assert((4 * i) * 3 / 4 == 3 * i && (4 * i) % 4 == 0);
    assert((4 * i + 1) * 3 / 4 == 3 * i && (4 * i + 1) % 4 == 1);
    assert((4 * i + 2) * 3 / 4 == 3 * i + 1 && (4 * i + 2) % 4 == 2);
    assert((4 * i + 3) * 3 / 4 == 3 * i + 2 && (4 * i + 3) % 4 == 3);
}

/// Base64 spells each three bytes with four characters of its alphabet, six bits each. One or two
/// bytes at the end are filled up with zero bits and their characters with `=`.
pub proof fn law_base64_text(data: Seq<u8>, i: int)
    requires
        0 <= 3 * i < data.len(),
    ensures
        ({
            let alphabet = "ABCDEFGHIJKLMNOPQRSTUVWXYZabcdefghijklmnopqrstuvwxyz0123456789+/"@;
            let text = base64_text(data);
            let left = data.len() - 3 * i;
            let n = data[3 * i] * 0x1_0000 + (if left > 1 {
                data[3 * i + 1] * 0x100
            } else {
                0
            }) + (if left > 2 {
                data[3 * i + 2] as int
            } else {
                0
            });
            &&& text.len() == (data.len() + 2) / 3 * 4
            &&& text[4 * i] == alphabet[n / 0x4_0000]
            &&& text[4 * i + 1] == alphabet[n / 0x1000 % 64]
            &&& text[4 * i + 2] == if left > 1 {
                alphabet[n / 64 % 64]
            } else {
                '='
            }
            &&& text[4 * i + 3] == if left > 2 {
                alphabet[n % 64]
            } else {
                '='
            }
        }),
{
    let left = data.len() - 3 * i;
    let d0 = data[3 * i] as int;
    let d1 = if left > 1 {
        data[3 * i + 1] as int
    } else {
        0
    };
    let d2 = if left > 2 {
        data[3 * i + 2] as int
    } else {
        0
    };
    let n = d0 * 0x1_0000 + d1 * 0x100 + d2;
    lemma_sextets(d0, d1, d2);
    lemma_base64_groups(data, i);
    lemma_base64_char(n / 0x4_0000);
    lemma_base64_char(n / 0x1000 % 64);
    lemma_base64_char(n / 64 % 64);
    lemma_base64_char(n % 64);
}

} // verus!
