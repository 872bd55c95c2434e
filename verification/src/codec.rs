//! What turns the bytes of a connection into messages and back: HTTP messages while the handshake
//! goes on, frames afterwards.
use vstd::prelude::*;

use crate::bytes::append_bytes;
use crate::error::WsError;
use crate::http::{distinct_names, heads_stand_alone, plain_request, request_bytes};
use crate::http::{lemma_fields_from_empty, response_bytes, status_of, with_fields, with_outcome};
use crate::http::{MAX_HEADERS, ParseError, Request, RequestModel, Response, Status};
use crate::outside::httparse_outcome;
use crate::wsframe::{frame_bytes, parse_frame, WebSocketFrame, WebSocketFrameBuilder};

verus! {

/// Reads requests and writes responses.
pub struct HttpCodec;

/// What `HttpCodec` decodes `request` to where the reading of it has come to `status`.
pub open spec fn decoded_request(
    request: RequestModel,
    status: Result<Status, ParseError>,
) -> Result<Option<RequestModel>, WsError> {
    match status {
        Ok(Status::Complete(_)) => Ok(Some(request)),
        Ok(Status::Partial) => Ok(None),
        Err(_) => Err(WsError::UnreadableRequest),
    }
}

/// The requests in a result as what they hold.
pub open spec fn request_result(result: Result<Option<Request>, WsError>) -> Result<
    Option<RequestModel>,
    WsError,
> {
    match result {
        Ok(Some(request)) => Ok(Some(request@)),
        Ok(None) => Ok(None),
        Err(error) => Err(error),
    }
}

/// A request without anything in it.
pub open spec fn empty_request() -> RequestModel {
    RequestModel { method: None, path: None, headers: Seq::empty() }
}

impl HttpCodec {
    /// What comes of a request that has been read as far as `status` says.
    pub fn decoded(request: Request, status: Result<Status, ParseError>) -> (result: Result<
        Option<Request>,
        WsError,
    >)
        ensures
            request_result(result) == decoded_request(request@, status),
    {
        match status {
            Ok(Status::Complete(_)) => Ok(Some(request)),
            Ok(Status::Partial) => Ok(None),
            Err(_) => Err(WsError::UnreadableRequest),
        }
    }

    /// Reads the request at the front of `buf`, if it is all there. The bytes stay in the buffer.
    pub fn decode(&mut self, buf: &[u8]) -> (result: Result<Option<Request>, WsError>)
        ensures
            request_result(result) == decoded_request(
                with_outcome(empty_request(), httparse_outcome(buf@, MAX_HEADERS)),
                status_of(httparse_outcome(buf@, MAX_HEADERS)),
            ),
            result matches Ok(Some(request)) ==> distinct_names(request@.headers),
            // A request that was read has a method and a path.
            result matches Ok(Some(request)) ==> request@.method is Some && request@.path is Some,
            // What follows a head makes no difference, and of a part of a head nothing is read.
            heads_stand_alone(buf@, MAX_HEADERS, httparse_outcome(buf@, MAX_HEADERS)),
            // A plain request that was written is read back, whatever follows it. Of two values
            // for one name the later counts.
            forall|method: Seq<char>, path: Seq<char>, fields: Seq<(Seq<char>, Seq<u8>)>|
                plain_request(method, path, fields) && fields.len() <= MAX_HEADERS
                    && #[trigger] request_bytes(method, path, fields).is_prefix_of(buf@) ==> {
                    &&& request_result(result) == Ok::<Option<RequestModel>, WsError>(
                        Some(
                            (RequestModel {
                                method: Some(method),
                                path: Some(path),
                                headers: with_fields(Seq::empty(), fields),
                            }),
                        ),
                    )
                    &&& distinct_names(fields) ==> with_fields(Seq::empty(), fields) == fields
                },
            // As long as a plain request is not all there, there is nothing to read.
            forall|method: Seq<char>, path: Seq<char>, fields: Seq<(Seq<char>, Seq<u8>)>|
                plain_request(method, path, fields) && fields.len() <= MAX_HEADERS
                    && buf@.is_prefix_of(#[trigger] request_bytes(method, path, fields))
                    && buf@.len() < request_bytes(method, path, fields).len() ==> request_result(
                    result,
                ) == Ok::<Option<RequestModel>, WsError>(None),
            // A plain request with too many fields is refused.
            forall|method: Seq<char>, path: Seq<char>, fields: Seq<(Seq<char>, Seq<u8>)>|
                plain_request(method, path, fields) && fields.len() > MAX_HEADERS
                    && #[trigger] request_bytes(method, path, fields).is_prefix_of(buf@)
                    ==> request_result(result) == Err::<Option<RequestModel>, WsError>(
                    WsError::UnreadableRequest,
                ),
    {
        let mut request = Request::new();
        let status = request.parse(buf);
        proof {
            assert forall|method: Seq<char>, path: Seq<char>, fields: Seq<(Seq<char>, Seq<u8>)>|
                plain_request(method, path, fields) && distinct_names(
                    fields,
                ) && #[trigger] request_bytes(method, path, fields).is_prefix_of(
                    buf@,
                ) implies with_fields(Seq::empty(), fields) == fields by {
                assert forall|i: int| 0 <= i < fields.len() implies #[trigger] fields[i].0.len()
                    > 0 by {}
                lemma_fields_from_empty(fields);
            }
        }
        HttpCodec::decoded(request, status)
    }

    /// Appends a response to `buf`.
    pub fn encode(&mut self, msg: Response, buf: &mut Vec<u8>) -> (result: Result<(), WsError>)
        ensures
            match (msg@.code, msg@.reason) {
                (Some(code), Some(reason)) => {
                    &&& result == Ok::<(), WsError>(())
                    &&& final(buf)@ == old(buf)@ + response_bytes(code, reason, msg@.headers)
                },
                _ => {
                    &&& result == Err::<(), WsError>(WsError::UnwritableResponse)
                    &&& final(buf)@ == old(buf)@
                },
            },
    {
        if msg.serialize(buf).is_err() {
            return Err(WsError::UnwritableResponse);
        }
        Ok(())
    }
}

/// Reads and writes frames.
pub struct WsCodec;

impl WsCodec {
    pub fn new() -> (codec: WsCodec)
        ensures
            codec == WsCodec,
    {
        WsCodec {  }
    }

    /// Takes everything out of `buf` and reads the frame at its front, if there is a whole one
    /// that can be understood. Reading frames never fails.
    pub fn decode(&mut self, buf: &mut Vec<u8>) -> (result: Result<
        Option<WebSocketFrame>,
        WsError,
    >)
        ensures
            final(buf)@ == Seq::<u8>::empty(),
            match parse_frame(old(buf)@) {
                Some(frame) => result matches Ok(Some(read)) && read@ == frame,
                None => result == Ok::<Option<WebSocketFrame>, WsError>(None),
            },
    {
        let mut taken: Vec<u8> = Vec::new();
        taken.append(buf);
        assert(taken@ =~= old(buf)@);
        match WebSocketFrameBuilder::from_bytes(taken.as_slice()) {
            Some(frame) => Ok(Some(*frame)),
            None => Ok(None),
        }
    }

    /// Appends a frame to `buf`. Writing frames never fails.
    pub fn encode(&mut self, msg: WebSocketFrame, buf: &mut Vec<u8>) -> (result: Result<
        (),
        WsError,
    >)
        ensures
            result == Ok::<(), WsError>(()),
            final(buf)@ == old(buf)@ + frame_bytes(msg@),
    {
        append_bytes(buf, msg.to_bytes().as_slice());
        Ok(())
    }
}

/// A request that was read whole is decoded to itself, one that is not all there to nothing, and
/// one that cannot be read to an error. Decoding starts from a request with nothing in it.
pub proof fn law_request_decoded(request: Request, consumed: usize, fault: ParseError)
    ensures
        decoded_request(request@, Ok(Status::Complete(consumed))) == Ok::<
            Option<RequestModel>,
            WsError,
        >(Some(request@)),
        decoded_request(request@, Ok(Status::Partial)) == Ok::<Option<RequestModel>, WsError>(None),
        decoded_request(request@, Err(fault)) == Err::<Option<RequestModel>, WsError>(
            WsError::UnreadableRequest,
        ),
        request_result(Ok(Some(request))) == Ok::<Option<RequestModel>, WsError>(Some(request@)),
        request_result(Ok(None)) == Ok::<Option<RequestModel>, WsError>(None),
        forall|error: WsError| #[trigger]
            request_result(Err(error)) == Err::<Option<RequestModel>, WsError>(error),
        empty_request().method is None && empty_request().path is None,
        empty_request().headers.len() == 0,
{
}

} // verus!
