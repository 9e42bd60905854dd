//! The client side of the tunnel.
//!
//! One call is one frame out and one frame back. A request is framed with
//! `encode_request`; what the socket delivers while the call waits is
//! sorted out by `received`; the frame that came back is read with
//! `decode_response`. Opening the socket, sending and waiting are the
//! caller's part; whose turn it is on a connection is kept by
//! `connection::Connection`.

use crate::codec::{
    http_request_to_call, lemma_request_round_trip, lemma_response_round_trip,
    reply_to_http_response, reply_to_response, request_is_framable, request_to_call,
    response_is_framable, response_to_reply,
};
use crate::error::WebTonicError;
use crate::message::{Reply, ReplyView};
use crate::model::{HttpRequest, HttpRequestView, HttpResponse, HttpResponseView};
use crate::server::{dispatch_step, frame_step, response_step, FrameView, StepView};
use vstd::prelude::*;

verus! {

/// What the socket delivered while a call waited for its reply.
#[derive(Clone, Debug, PartialEq, Eq)]
pub enum WsMessage {
    /// A message, with its bytes.
    Message(Vec<u8>),
    /// The socket was closed.
    Close,
    /// The socket reported an error, with what it said.
    Error(String),
}

/// How opening the socket went.
#[derive(Clone, Copy, Debug, PartialEq, Eq, Structural)]
pub enum Opening {
    /// The address was not accepted as one of a WebSocket.
    Refused,
    /// The socket reported an error or was closed before it was open.
    Failed,
    /// The socket is open.
    Opened,
}

/// What `connect` makes of how opening the socket went.
pub fn connect_outcome(opening: Opening) -> (r: Result<(), WebTonicError>)
    ensures
        r == match opening {
            Opening::Refused => Err::<(), WebTonicError>(WebTonicError::InvalidUrl),
            Opening::Failed => Err(WebTonicError::ConnectionError),
            Opening::Opened => Ok(()),
        },
{
    match opening {
        Opening::Refused => Err(WebTonicError::InvalidUrl),
        Opening::Failed => Err(WebTonicError::ConnectionError),
        Opening::Opened => Ok(()),
    }
}

/// The frame that carries a request; `None` where the request cannot be
/// framed.
pub open spec fn request_frame(request: HttpRequestView) -> Option<Seq<u8>> {
    match request_to_call(request) {
        Some(call) => Some(call.encoding()),
        None => None,
    }
}

/// The response that a frame carries; `None` where the frame is no reply or
/// the reply cannot be read as a response.
pub open spec fn frame_response(frame: Seq<u8>) -> Option<HttpResponseView> {
    match ReplyView::parse(frame) {
        Some(reply) => reply_to_response(reply),
        None => None,
    }
}

/// Frames a request: the bytes of the one binary frame that carries it.
/// Fails with `EncodingError` exactly where the method is not one of the
/// nine that a call can carry, or the value of a header or trailer is not
/// visible ASCII.
pub fn encode_request(request: &HttpRequest) -> (r: Result<Vec<u8>, WebTonicError>)
    ensures
        match r {
            Ok(frame) => request_frame(request@) == Some(frame@),
            Err(e) => e == WebTonicError::EncodingError && request_frame(request@).is_none(),
        },
{
    match http_request_to_call(request) {
        Ok(call) => Ok(call.encode()),
        Err(e) => Err(e),
    }
}

/// Sorts out what the socket delivered while a call waited: a message is
/// the reply's frame; an error of the socket is a `ConnectionError`; a close,
/// or a socket that is gone, is `ConnectionClosed`.
pub fn received(event: Option<WsMessage>) -> (r: Result<Vec<u8>, WebTonicError>)
    ensures
        match event {
            Some(WsMessage::Message(bytes)) => r == Ok::<Vec<u8>, WebTonicError>(bytes),
            Some(WsMessage::Error(_)) => r == Err::<Vec<u8>, WebTonicError>(
                WebTonicError::ConnectionError,
            ),
            Some(WsMessage::Close) | None => r == Err::<Vec<u8>, WebTonicError>(
                WebTonicError::ConnectionClosed,
            ),
        },
{
    match event {
        Some(WsMessage::Message(bytes)) => Ok(bytes),
        Some(WsMessage::Error(_)) => Err(WebTonicError::ConnectionError),
        Some(WsMessage::Close) => Err(WebTonicError::ConnectionClosed),
        None => Err(WebTonicError::ConnectionClosed),
    }
}

/// Reads the response out of the frame that came back. Fails with
/// `DecodingError` exactly where the frame is no reply, or the reply has no
/// envelope, a status that is not accepted, or a header or trailer that is
/// not accepted.
pub fn decode_response(frame: &[u8]) -> (r: Result<HttpResponse, WebTonicError>)
    ensures
        match r {
            Ok(response) => frame_response(frame@) == Some(response@),
            Err(e) => e == WebTonicError::DecodingError && frame_response(frame@).is_none(),
        },
{
    match Reply::decode(frame) {
        Ok(reply) => reply_to_http_response(reply),
        Err(e) => Err(e),
    }
}

/// What a call comes to once its frame was handed to the socket: where
/// sending failed, a `ConnectionError`; else what `received` makes of the
/// event, and what `decode_response` makes of the frame.
pub fn finish_call(sent: bool, event: Option<WsMessage>) -> (r: Result<
    HttpResponse,
    WebTonicError,
>)
    ensures
        !sent ==> r == Err::<HttpResponse, WebTonicError>(WebTonicError::ConnectionError),
        sent ==> match event {
            Some(WsMessage::Message(bytes)) => match r {
                Ok(response) => frame_response(bytes@) == Some(response@),
                Err(e) => e == WebTonicError::DecodingError && frame_response(bytes@).is_none(),
            },
            Some(WsMessage::Error(_)) => r == Err::<HttpResponse, WebTonicError>(
                WebTonicError::ConnectionError,
            ),
            Some(WsMessage::Close) | None => r == Err::<HttpResponse, WebTonicError>(
                WebTonicError::ConnectionClosed,
            ),
        },
{
    if !sent {
        return Err(WebTonicError::ConnectionError);
    }
    match received(event) {
        Ok(frame) => decode_response(frame.as_slice()),
        Err(e) => Err(e),
    }
}

/// What the client frames, the server reads: the frame of a request that
/// can be framed leads the server to dispatch that very request, so long as
/// the frame's length fits in 64 bits.
pub proof fn lemma_request_crosses_tunnel(names: Seq<Seq<char>>, request: HttpRequestView)
    requires
        request_is_framable(request),
        request_to_call(request).unwrap().encoding().len() <= u64::MAX,
    ensures
        request_frame(request).is_some(),
        frame_step(names, FrameView::Binary(request_frame(request).unwrap())) == dispatch_step(
            names,
            request,
        ),
{
    lemma_request_round_trip(request);
    request_to_call(request).unwrap().lemma_round_trip();
}

/// What the server frames, the client reads: the frame that answers with a
/// response that can be framed is read as that very response, so long as
/// the frame's length fits in 64 bits.
pub proof fn lemma_response_crosses_tunnel(response: HttpResponseView)
    requires
        response_is_framable(response),
        response_to_reply(response).unwrap().encoding().len() <= u64::MAX,
    ensures
        response_step(response) matches StepView::Send(frame) && frame_response(frame) == Some(
            response,
        ),
{
    lemma_response_round_trip(response);
    response_to_reply(response).unwrap().lemma_round_trip();
}

} // verus!
